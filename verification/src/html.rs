//! Selections on HTML pages, made by the `scraper` crate.
//!
//! Each function parses `document` with `scraper::Html::parse_document`,
//! parses `selector` with `scraper::Selector::parse`, and reads every
//! element that `Html::select` yields, in the order it yields them (the
//! order in which the parser created the nodes). What HTML parsing
//! and CSS matching give is named, not stated: the names below are what the
//! rest of the library speaks of.
use vstd::prelude::*;

verus! {

/// The text (`ElementRef::text`, concatenated) of each element of the
/// document that the selector matches; `None` when the selector does not
/// parse.
pub uninterp spec fn html_select_texts(document: Seq<char>, selector: Seq<char>) -> Option<
    Seq<Seq<char>>,
>;

/// The value of attribute `attr` (`Element::attr`) of each element that
/// the selector matches; `None` when the selector does not parse.
pub uninterp spec fn html_select_attrs(
    document: Seq<char>,
    selector: Seq<char>,
    attr: Seq<char>,
) -> Option<Seq<Option<Seq<char>>>>;

/// The id (`Element::id`) of each element that the selector matches;
/// `None` when the selector does not parse.
pub uninterp spec fn html_select_ids(document: Seq<char>, selector: Seq<char>) -> Option<
    Seq<Option<Seq<char>>>,
>;

/// The classes (`Element::classes`) of each element that the selector
/// matches; `None` when the selector does not parse.
pub uninterp spec fn html_select_classes(document: Seq<char>, selector: Seq<char>) -> Option<
    Seq<Seq<Seq<char>>>,
>;

/// The views of a list of strings.
pub open spec fn strings_view(v: Seq<String>) -> Seq<Seq<char>> {
    v.map_values(|s: String| s@)
}

/// The views of a list of optional strings.
pub open spec fn opt_strings_view(v: Seq<Option<String>>) -> Seq<Option<Seq<char>>> {
    v.map_values(|s: Option<String>| opt_string_view(s))
}

/// The view of an optional string.
pub open spec fn opt_string_view(s: Option<String>) -> Option<Seq<char>> {
    match s {
        Some(x) => Some(x@),
        None => None,
    }
}

/// The views of a list of lists of strings.
pub open spec fn nested_strings_view(v: Seq<Vec<String>>) -> Seq<Seq<Seq<char>>> {
    v.map_values(|s: Vec<String>| strings_view(s@))
}

/// Texts of the matching elements, by `scraper` (`Html::parse_document`,
/// `Selector::parse`, `Html::select`, `ElementRef::text`).
/// Claimed: the result is the named `html_select_texts` of the arguments.
#[verifier::external_body]
pub(crate) fn select_texts(document: &str, selector: &str) -> (r: Option<Vec<String>>)
    ensures
        match r {
            Some(v) => html_select_texts(document@, selector@) == Some(strings_view(v@)),
            None => html_select_texts(document@, selector@) is None,
        },
{
    let selector = match scraper::Selector::parse(selector) {
        Ok(s) => s,
        Err(_) => return None,
    };
    let html = scraper::Html::parse_document(document);
    Some(html.select(&selector).map(|e| e.text().collect::<String>()).collect())
}

/// Attribute values of the matching elements, by `scraper`
/// (`Html::parse_document`, `Selector::parse`, `Html::select`,
/// `Element::attr`).
/// Claimed: the result is the named `html_select_attrs` of the arguments.
#[verifier::external_body]
pub(crate) fn select_attrs(document: &str, selector: &str, attr: &str) -> (r: Option<
    Vec<Option<String>>,
>)
    ensures
        match r {
            Some(v) => html_select_attrs(document@, selector@, attr@) == Some(
                opt_strings_view(v@),
            ),
            None => html_select_attrs(document@, selector@, attr@) is None,
        },
{
    let selector = match scraper::Selector::parse(selector) {
        Ok(s) => s,
        Err(_) => return None,
    };
    let html = scraper::Html::parse_document(document);
    Some(html.select(&selector).map(|e| e.value().attr(attr).map(|a| a.to_string())).collect())
}

/// Ids of the matching elements, by `scraper` (`Html::parse_document`,
/// `Selector::parse`, `Html::select`, `Element::id`).
/// Claimed: the result is the named `html_select_ids` of the arguments.
#[verifier::external_body]
pub(crate) fn select_ids(document: &str, selector: &str) -> (r: Option<Vec<Option<String>>>)
    ensures
        match r {
            Some(v) => html_select_ids(document@, selector@) == Some(opt_strings_view(v@)),
            None => html_select_ids(document@, selector@) is None,
        },
{
    let selector = match scraper::Selector::parse(selector) {
        Ok(s) => s,
        Err(_) => return None,
    };
    let html = scraper::Html::parse_document(document);
    Some(html.select(&selector).map(|e| e.value().id().map(|a| a.to_string())).collect())
}

/// Classes of the matching elements, by `scraper` (`Html::parse_document`,
/// `Selector::parse`, `Html::select`, `Element::classes`).
/// Claimed: the result is the named `html_select_classes` of the arguments.
#[verifier::external_body]
pub(crate) fn select_classes(document: &str, selector: &str) -> (r: Option<Vec<Vec<String>>>)
    ensures
        match r {
            Some(v) => html_select_classes(document@, selector@) == Some(
                nested_strings_view(v@),
            ),
            None => html_select_classes(document@, selector@) is None,
        },
{
    let selector = match scraper::Selector::parse(selector) {
        Ok(s) => s,
        Err(_) => return None,
    };
    let html = scraper::Html::parse_document(document);
    Some(html.select(&selector).map(|e| e.value().classes().map(|c| c.to_string()).collect())
        .collect())
}

} // verus!
