templito
========

A templating language (in the spirit of handlebars and Go templates) whose parser, tree
builder, evaluator and built-in functions are verified with Verus.

Layout
------

* `src/` — the verified library.
  * `grammar.rs` states the template grammar as spec functions; `parse.rs` is the parser,
    proved to follow it. `tree.rs` builds the template tree from the flat list of items.
  * `semantics.rs` says what running a template gives; `eval.rs` runs templates and is proved
    to agree with it. `scope.rs` holds variables, `temp_man.rs` and `func_man.rs` the
    template and function managers.
  * `funcs/` holds the built-in functions (comparisons, arithmetic, text, lists, maps, paths,
    sorting and searching, SVG attributes, tables, base64, card and literal reading) and the
    registry that offers them by name.
  * `laws.rs`, and the laws beside the functions they speak of, state what holds of every
    template and every input.
* `tests/` — the tests, run against the compiled library.
* `app/` — what needs the world outside: files, commands, the environment, floating-point
  arithmetic and random floats, and values from JSON and TOML documents.

Floats are carried as the text Rust prints for them; arithmetic that meets a float is done
by the function manager in `app/`.

Templates may call templates (through `run` or a template manager) up to `MAX_DEPTH` deep,
which is as far as a machine word counts; the bound is what makes every run finite. What is
proved of running a template holds exactly for the function managers of this library, which
say so through `FuncManager::spec_checked`. For any other manager (such as the one in `app/`,
written outside Verus) it holds for every template, pipeline and pattern that asks no manager
anything (`items_free`, `pipe_free`, `pat_free`), and such a run does not depend on the
managers at all (`law_free_run_ignores_managers`).
