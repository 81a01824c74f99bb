# cmakefmt (verified library)

A CMake formatter's core, written in Verus. The functions in `src/` carry
contracts that Verus proves, except the few marked
`#[verifier::external_body]` that call `memchr`, `glob`, `serde_json`,
`toml` or `str` slicing: their contracts are believed, and each one's doc
comment says what it claims of the call.

- `token`, `parse`, `parse_laws`, `ast`: the lexer, the parser into a syntax
  tree, and the law that parsed spans lie in the source.
- `config`, `settings`, `load`, `loader`, `cmd_options`, `inline`, `resolve`:
  configuration values, loading them from TOML, JSON or directive text,
  per-command tables, `push` overrides and `extends` resolution.
- `gen_file`, `layout`: block structure, directives and the layout of a file.
- `signatures`: the command signature table.
- `arg_groups`, `casing`, `widths`: a command's arguments split by its signature into
  positional runs and keyword groups, the arguments cased as keywords, and the
  casing, literal and sorting lists the renderer applies, and inline widths.
- `post_process`, `alignments`: comment reflow and alignment passes.
- `format_text`, `restore_law`, `genex`, `cli`: finishing formatted text
  (BOM, bare carriage returns, final newline, whitespace), generator
  expression scanning, and the command line's decisions.
- `print_items`: the renderer's intermediate form (text and layout signals),
  how it prints (and a printer proved to print it so), and the helpers that
  keep source text as written (raw text, bracket and quoted arguments,
  unknown commands).
- `emit_args`: arguments as items (casing by role, groups, trailing
  comments), command-line keywords, flow-packed values and the single-line
  layout of a command.
- `conditions`: `if`, `elseif`, `while` and their closers over several
  lines: the condition read as expressions joined by `AND`/`OR`, each on one
  line where it fits, broken at its operator where it does not.
- `arg_list`, `command_parts`: a command's parsed arguments prepared for the
  layout (text, keywords, blank lines and line breaks before them, attached
  comments), and what the layout reads from the source around them.
- `genex_tree`, `keyword_lists`: generator expressions read as trees (their
  inline text and whether they stay on one line), and a signature's pair,
  property and flow keywords, keyword kinds and section sub-keywords.
- `values_layout`: the values of a property keyword (the name, then its
  values, on one line where a single value fits).
- `pipeline`: the stages around the printer: bypass, BOM, bare carriage
  returns, the passes, whitespace, the final newline, and whether the file
  changed.

The multi-line layout of known commands (keyword groups, sections, pair
values, argument alignment, generator-expression layout) is not
part of this crate, nor the command entry point built on it: formatted output
stops at the whole-file layout, conditions, single-line commands, unknown
commands and the finishing passes.

`app/` is the command-line front end (file reading, configuration discovery).
