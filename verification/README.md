# kenjutu

The core of a code-review tool for [jj](https://github.com/jj-vcs/jj)
repositories, written in Verus: each function carries a contract that the
verifier proves. Calls into other crates go through a few small trusted
wrappers (marked `#[verifier::external_body]`, in `text`,
`services/jj`, `services/word_diff`, `services/review`, `services/git` and
`services/highlight`) whose contracts are assumed, not proved: std string
conversions, `serde_json` string decoding, `similar`'s word diff, `sha1`,
`git2`'s object-id parsing, and syntax highlighting with `two-face`/`syntect`.

- `src/` — the verified library:
  - `services/` — reading `jj` output (`jj`), word-level diffs (`word_diff`),
    display lines of diff hunks (`diff`), syntax highlighting
    (`highlight`), patch ids (`review`), object ids (`git`), GitHub login
    polling (`auth`), and repository and pull-request lookups
    (`repository`);
  - `jj_log`, `jj_graph`, `ansi`, `color`, `style` — the colored log and
    graph of the terminal front end;
  - `screens/`, `widgets/`, `keys` — the state machines behind the terminal
    screens: key handling decides, and returns what the caller must run;
  - `models/`, `db/`, `pr`, `errors`, `config` — data types and small rules;
  - `laws` — properties that relate several operations;
  - `text` — verified string helpers.
- `tests/` — tests of the library.
- `app/` — the terminal program: it runs `jj`, reads the git repository
  (including the commits of a pull request) and draws the screens.
