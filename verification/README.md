# syntect_assets

Syntax and theme assets for [syntect](https://github.com/trishume/syntect):
a syntax set that is deserialized when first needed, a set of themes that are
each deserialized when first asked for, syntax detection for file paths, and
theme lookup with fallbacks.

The library is written in Verus. Its contracts state, among other things:

- which syntax a path gets (`HighlightingAssets::get_syntax_for_path`): the
  mapping first, then the file name, then the extension, with ignored
  backup/template suffixes stripped, and exactly when it fails with
  `UndetectedSyntax` or `UnknownSyntax`. A syntax is stated by what the
  library reads of it, its name and file extensions, and by its position in
  the syntax set: the last syntax of the mapped name, or the last one that
  lists the queried extension;
- which theme a name gets (`HighlightingAssets::get_theme`), including the
  deprecated `ansi-light`/`ansi-dark` names and the fallback theme. A theme is
  stated by its name and author;
- that the theme set stays sorted by name, and what reading its bincode
  encoding gives (`LazyThemeSet::from_bincode`);
- the exact error messages of assets that cannot be read or parsed, and the
  warnings that a theme lookup gives (`HighlightingAssets::get_theme_warnings`);
- that new assets, and each theme of a theme set, start with their cache
  cell empty, so that nothing is deserialized before it is first needed.

Layout:

- `src/`: the verified library. `assets.rs` (the assets and detection),
  `lazy_theme_set.rs`, `syntax_mapping.rs`, `text.rs` (paths and strings),
  `decode.rs` and `syntax_set.rs` (the calls into flate2, bincode and
  syntect), `foreign.rs` (outside types), `error.rs`.
- `app/`: file access (reading a cache directory), the macOS dark-mode query
  for the default theme, and an error type with `Display`.
- `tests/`: tests of the library against syntect's default syntaxes and themes.
