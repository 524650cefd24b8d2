# rustc-internal-docs

Keeps an up-to-date copy of `rustc`'s internal documentation on GitHub
pages: update a checkout of rust-lang/rust, tell rustbuild to build all the
docs, build them, and push them to the `gh-pages` branch of a repository.

The library under `src/` is verified with Verus. It decides everything the
tool does and leaves the outside work to its caller:

- `workflow`: the stages of a run (`run`), the command that updates the
  checkout, and the step-by-step procedures that build the docs crate by
  crate, set up rustbuild's `config.toml` and upload the docs. Each procedure is a function
  from the answers received so far to the next action or the end.
- `steps`: the actions that the library asks for and the answers it takes.
- `helpers`: splitting command lines (with `shlex`), deciding what a finished
  process means, and the lines of an error backtrace.
- `errors`: the error type and its chain of causes.
- `config`: the configuration and where its file lives.
- `pattern`: regular expressions from the `regex` crate.
- `text`, `logging`: decimal numbers, tabs, Unix paths, log lines.

`app/main.rs` is the program: it parses the arguments, reads the TOML
configuration, and performs the actions (processes, files, temporary
directories, the clock) that the library asks for.
