# rl_custom_isearch

fzf-style history search (`Ctrl+R`, `Ctrl+S`) for programs that use GNU readline or libedit's
readline layer. The selected entry replaces the current line and the cursor lands behind it.

- `src/` is the verified library: the splitting of option strings, the symbol lookup, the
  registration of the keys, fzf's command line, the course of a search and the replacement of
  the line. The files that end in `_laws.rs`, and the functions whose names begin with `law_`,
  state what holds of all of it.
- `app/` is the shared object for `LD_PRELOAD`: the calls into the C library and the input and
  output.
- `tests/` runs the library on given values.

The trusted items are `char::is_whitespace` and `String::push` (`src/split.rs`) and
`String::from_utf8_lossy` (`src/command.rs`).

Settings: `FZF_TMUX_HEIGHT` (default `40%`), `FZF_CTRL_R_OPTS` (extra fzf arguments) and
`RL_FZF_DEBUG` (log to the error stream).
