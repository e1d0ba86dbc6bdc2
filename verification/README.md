# cargo-boj

`cargo boj` tests solutions against the sample tests of Baekjoon Online Judge
problems and submits them. This crate holds its logic as a library verified
with Verus, and the command itself in `app/`.

- `src/normalize.rs`: the comparison form of an output (trailing whitespace
  dropped from the text and from every line), with its laws.
- `src/diff.rs`: comparing an output with the expected one (line diff by
  `similar`), the verdict on a test case, the running time shown.
- `src/runner.rs`: what is built and run, and how the verdicts of the samples
  decide the outcome of `cargo boj test`.
- `src/datastore.rs`: sample tests read from a problem page, credentials,
  problem addresses and cache paths.
- `src/submit.rs`: the submit request, what is read back from the judge's
  pages, and the status of a submission.
- `src/html.rs`: selections on HTML pages made by `scraper`.
- `src/optparse.rs`, `src/cli.rs`, `src/login.rs`: commands, options, their
  defaults, and the decisions of the browser login.
- `src/text.rs`: string helpers with exact specifications.
- `app/`: argument parsing (`bpaf`), files and JSON, HTTP (`reqwest`), the
  browser (`fantoccini`), processes and the terminal.
