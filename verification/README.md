# gsim_rs

The verified core of a G-code simulator: reading a G-code program, splitting it into
blocks, tokenizing and parsing each block into G-codes, an M-code and auxiliary codes, and
the plan of each block's execution on the machine, and the decisions of the simulation window
and its text interface. Every function in `src/` is verified with Verus against its contract,
except one trusted wrapper: `text::string_from_chars`, which builds a `String` from its
characters through `String::from_iter`, and whose contract (the string holds exactly those
characters) is taken on trust.

## Layout

- `src/text.rs` – character classes and trimming, as the readers use them.
- `src/decimal.rs` – exact decimal numbers (`±mantissa · 10^exponent`), in canonical form;
  a literal with more than 38 significant digits is rounded to 38, to the nearest, ties to
  even.
- `src/source.rs` – the program's lines, sanitized: comments (`(`), end-of-block (`;`) and
  transmission (`%`) symbols cut away, deleted and empty lines removed.
- `src/lexer.rs` – words of a block (`G01`, `X-1.5`) as tokens, with the laws that letter case
  and spaces between words do not matter.
- `src/parser.rs`, `src/gcode.rs` – blocks as parsed codes; `src/parser/laws.rs` holds what
  every parsed block satisfies (no repeated prefix but `G`, distinct G-code numbers and groups,
  codes in the order of their words).
- `src/interpreter.rs` – the machine commands each parsed block becomes, the codes a block may
  not leave over, and the modal move of coordinates written without a motion G-code.
- `src/format.rs`, `src/panel.rs` – the text of codes and of the block summary, the source
  preview and the listed keys.
- `src/controls.rs`, `src/signal.rs`, `src/speed.rs` – keyboard and mouse decisions of the
  simulation window, and the settings the text interface mirrors from it.
- `app/` – the command line program: argument parsing, configuration file, reading the
  program from a file or standard input, and printing each block's plan and summary.
