# sv_frontend

A SystemVerilog front end whose logic is verified with Verus: a preprocessor
(`` `define`` with and without parameters, `` `undef``, `` `ifdef``/`` `ifndef``/
`` `else``/`` `endif``, `` `include``, removal of `(* ... *)` attributes and of
tool directives) and a recursive-descent statement parser.

## Layout

- `src/text.rs`: character-sequence operations (trimming, splitting into
  lines, searching, replacing) with their specifications.
- `src/macros.rs`: macro definitions and the macro table.
- `src/expand.rs`: macro expansion within a line and attribute removal.
- `src/preprocessor.rs`: the `Preprocessor` type; a run over a text is
  specified line by line (`line_step`, `preprocess_run`).
- `src/inclusion.rs`: preprocessing of a file (`Preprocessor::start_file`), with
  `` `include`` as a step function; the caller reads the files
  (`IncludeSession`, `Preprocessor::step`, `Preprocessor::include_candidates`).
- `src/properties.rs`, `src/line_numbers.rs`: properties proved for all
  inputs (plain text passes unchanged, line numbers are kept, a session over a
  file without includes agrees with `preprocess`, include nesting is bounded,
  a session comes to an end).
- `src/parser/`: tokens, syntax trees and their models, the parsing functions
  (`cursor.rs`, `expr.rs`, `statements.rs`) and the functions that specify
  exactly what they return (`grammar.rs`, `statement_grammar.rs`), and the
  proofs that parsing moves forward (`progress.rs`, `statement_progress.rs`).
- `app/`: the file-system side — testing which candidate path exists and
  reading included files — and
  the conversions from `HashMap` and `PathBuf`.
