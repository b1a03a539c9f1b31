use std::collections::BTreeMap;
use std::io::Write;

use syntect::highlighting::ThemeSet;
use syntect::parsing::{SyntaxDefinition, SyntaxSet, SyntaxSetBuilder};
use syntect_assets::assets::{
    get_acknowledgements, get_integrated_themeset, get_serialized_integrated_syntaxset, HighlightingAssets,
    IntegratedAssets,
};
use syntect_assets::error::Error;
use syntect_assets::lazy_theme_set::LazyThemeSet;
use syntect_assets::syntax_mapping::{IgnoredSuffixes, MappingTarget, SyntaxMapping};

fn zlib(bytes: &[u8]) -> Vec<u8> {
    let mut encoder = flate2::write::ZlibEncoder::new(Vec::new(), flate2::Compression::default());
    encoder.write_all(bytes).unwrap();
    encoder.finish().unwrap()
}

fn leak(v: Vec<u8>) -> &'static [u8] {
    Box::leak(v.into_boxed_slice())
}

fn serialized_syntaxes() -> Vec<u8> {
    bincode::serialize(&SyntaxSet::load_defaults_newlines()).unwrap()
}

fn serialized_theme(name: &str) -> Vec<u8> {
    let themes = ThemeSet::load_defaults();
    zlib(&bincode::serialize(&themes.themes[name]).unwrap())
}

/// A theme set in the integrated format: names mapped to compressed themes.
fn serialized_theme_set(entries: &[(&str, &str)]) -> Vec<u8> {
    let mut map: BTreeMap<String, Vec<u8>> = BTreeMap::new();
    for (name, source) in entries {
        map.insert(name.to_string(), serialized_theme(source));
    }
    bincode::serialize(&map).unwrap()
}

fn acknowledgements(text: &str) -> Vec<u8> {
    zlib(&bincode::serialize(&text.to_string()).unwrap())
}

fn integrated() -> IntegratedAssets {
    IntegratedAssets::checked(
        leak(serialized_syntaxes()),
        leak(serialized_theme_set(&[
            ("Monokai Extended", "base16-ocean.dark"),
            ("ansi", "InspiredGitHub"),
            ("OneHalfDark", "Solarized (dark)"),
        ])),
        leak(acknowledgements("Thanks to everyone.")),
    )
    .unwrap()
}

fn assets() -> HighlightingAssets {
    HighlightingAssets::from_binary(&integrated())
}

fn syntax_name(assets: &HighlightingAssets, path: &str, mapping: &SyntaxMapping) -> Result<String, Error> {
    assets.get_syntax_for_path(path, mapping).map(|s| s.syntax.name.clone())
}

#[test]
fn default_theme_is_monokai_extended() {
    assert_eq!(HighlightingAssets::default_theme(), "Monokai Extended");
}

#[test]
fn default_theme_follows_dark_mode() {
    assert_eq!(HighlightingAssets::default_theme_for(true), "Monokai Extended");
    assert_eq!(HighlightingAssets::default_theme_for(false), "Monokai Extended Light");
}

#[test]
fn integrated_syntax_set_is_deserialized_on_first_use() {
    let good_themes = leak(serialized_theme_set(&[("ansi", "InspiredGitHub")]));
    let good_ack = leak(acknowledgements("x"));
    let i = IntegratedAssets::checked(leak(vec![1, 2, 3]), good_themes, good_ack).unwrap();
    let a = HighlightingAssets::from_binary(&i);
    assert_eq!(a.themes(), vec!["ansi"]);
    match a.get_syntax_set() {
        Err(Error::Msg(m)) => assert_eq!(m, "Could not parse n/a"),
        _ => panic!("expected a parse failure"),
    }
}

fn syntax_definition(name: &str, extension: &str, scope: &str) -> SyntaxDefinition {
    let yaml = format!(
        "%YAML 1.2\n---\nname: {}\nfile_extensions: [{}]\nscope: {}\ncontexts:\n  main: []\n",
        name, extension, scope
    );
    SyntaxDefinition::load_from_str(&yaml, true, None).unwrap()
}

/// Assets whose syntaxes are the given definitions, in order.
fn assets_with_syntaxes(definitions: Vec<SyntaxDefinition>) -> HighlightingAssets {
    let mut builder = SyntaxSetBuilder::new();
    for d in definitions {
        builder.add(d);
    }
    let set = builder.build();
    let i = IntegratedAssets::checked(
        leak(bincode::serialize(&set).unwrap()),
        leak(serialized_theme_set(&[("ansi", "InspiredGitHub")])),
        leak(acknowledgements("x")),
    )
    .unwrap();
    HighlightingAssets::from_binary(&i)
}

#[test]
fn the_last_syntax_for_an_extension_wins() {
    let a = assets_with_syntaxes(vec![
        syntax_definition("First", "dup", "source.first"),
        syntax_definition("Second", "dup", "source.second"),
        syntax_definition("Third", "other", "source.third"),
    ]);
    let m = SyntaxMapping::empty();
    assert_eq!(syntax_name(&a, "x.dup", &m).unwrap(), "Second");
    assert_eq!(syntax_name(&a, "dir/x.DUP", &m).unwrap(), "Second");
    assert_eq!(syntax_name(&a, "x.other", &m).unwrap(), "Third");
}

#[test]
fn the_last_syntax_of_a_name_wins() {
    let a = assets_with_syntaxes(vec![
        syntax_definition("Twin", "one", "source.one"),
        syntax_definition("Twin", "two", "source.two"),
    ]);
    let mut m = SyntaxMapping::empty();
    m.insert("*.txt", MappingTarget::MapTo("Twin".to_string())).unwrap();
    let found = a.get_syntax_for_path("notes.txt", &m).unwrap();
    assert_eq!(found.syntax.file_extensions, vec!["two".to_string()]);
}

#[test]
fn syntaxes_are_listed_in_order() {
    let a = assets();
    let names: Vec<String> = a.get_syntaxes().unwrap().iter().map(|s| s.name.clone()).collect();
    let expected: Vec<String> =
        SyntaxSet::load_defaults_newlines().syntaxes().iter().map(|s| s.name.clone()).collect();
    assert_eq!(names, expected);
}

#[test]
fn integrated_acknowledgements_decode() {
    assert_eq!(get_acknowledgements(&integrated()), "Thanks to everyone.");
}

#[test]
fn integrated_syntaxset_is_the_given_bytes() {
    let bytes = serialized_syntaxes();
    let i = integrated();
    assert_eq!(get_serialized_integrated_syntaxset(&i), &bytes[..]);
}

#[test]
fn integrated_themeset_lists_sorted_names() {
    let set = get_integrated_themeset(&integrated());
    assert_eq!(set.themes(), vec!["Monokai Extended", "OneHalfDark", "ansi"]);
}

#[test]
fn checked_refuses_faulty_data() {
    let good_syntaxes = leak(serialized_syntaxes());
    let good_themes = leak(serialized_theme_set(&[("ansi", "InspiredGitHub")]));
    let good_ack = leak(acknowledgements("x"));
    assert!(IntegratedAssets::checked(good_syntaxes, leak(vec![9]), good_ack).is_none());
    assert!(IntegratedAssets::checked(good_syntaxes, good_themes, leak(vec![0, 1])).is_none());
    assert!(IntegratedAssets::checked(good_syntaxes, good_themes, good_ack).is_some());
}

#[test]
fn themes_are_listed_in_order() {
    assert_eq!(assets().themes(), vec!["Monokai Extended", "OneHalfDark", "ansi"]);
}

#[test]
fn get_theme_finds_known_themes() {
    let a = assets();
    let defaults = ThemeSet::load_defaults();
    assert_eq!(*a.get_theme("OneHalfDark"), defaults.themes["Solarized (dark)"]);
    assert_eq!(*a.get_theme("ansi"), defaults.themes["InspiredGitHub"]);
}

#[test]
fn get_theme_falls_back_to_default() {
    let a = assets();
    let defaults = ThemeSet::load_defaults();
    assert_eq!(*a.get_theme("no such theme"), defaults.themes["base16-ocean.dark"]);
    assert_eq!(*a.get_theme(""), defaults.themes["base16-ocean.dark"]);
}

#[test]
fn get_theme_maps_deprecated_ansi_names() {
    let a = assets();
    let defaults = ThemeSet::load_defaults();
    assert_eq!(*a.get_theme("ansi-light"), defaults.themes["InspiredGitHub"]);
    assert_eq!(*a.get_theme("ansi-dark"), defaults.themes["InspiredGitHub"]);
}

#[test]
fn get_theme_uses_fallback_theme() {
    let mut a = assets();
    a.set_fallback_theme("OneHalfDark");
    let defaults = ThemeSet::load_defaults();
    assert_eq!(*a.get_theme("unknown"), defaults.themes["Solarized (dark)"]);
    assert_eq!(*a.get_theme("Monokai Extended"), defaults.themes["base16-ocean.dark"]);
}

#[test]
fn try_get_theme_is_none_without_fallback() {
    let i = IntegratedAssets::checked(
        leak(serialized_syntaxes()),
        leak(serialized_theme_set(&[("OneHalfDark", "Solarized (dark)")])),
        leak(acknowledgements("")),
    )
    .unwrap();
    let mut a = HighlightingAssets::from_binary(&i);
    assert!(a.try_get_theme("unknown").is_none());
    assert!(a.try_get_theme("OneHalfDark").is_some());
    a.set_fallback_theme("OneHalfDark");
    assert!(a.try_get_theme("unknown").is_some());
}

#[test]
fn try_get_theme_skips_undecodable_theme() {
    let mut map: BTreeMap<String, Vec<u8>> = BTreeMap::new();
    map.insert("broken".to_string(), vec![1, 2, 3]);
    map.insert("Monokai Extended".to_string(), serialized_theme("base16-ocean.dark"));
    let i = IntegratedAssets::checked(
        leak(serialized_syntaxes()),
        leak(bincode::serialize(&map).unwrap()),
        leak(acknowledgements("")),
    )
    .unwrap();
    let a = HighlightingAssets::from_binary(&i);
    let defaults = ThemeSet::load_defaults();
    assert_eq!(*a.try_get_theme("broken").unwrap(), defaults.themes["base16-ocean.dark"]);
}

#[test]
fn syntaxes_by_extension() {
    let a = assets();
    let m = SyntaxMapping::empty();
    assert_eq!(syntax_name(&a, "src/main.rs", &m).unwrap(), "Rust");
    assert_eq!(syntax_name(&a, "script.PY", &m).unwrap(), "Python");
    assert_eq!(syntax_name(&a, "/home/me/notes.md", &m).unwrap(), "Markdown");
}

#[test]
fn syntaxes_by_file_name() {
    let a = assets();
    let m = SyntaxMapping::empty();
    assert_eq!(syntax_name(&a, "project/Makefile", &m).unwrap(), "Makefile");
}

#[test]
fn ignored_suffixes_are_stripped() {
    let a = assets();
    let m = SyntaxMapping::empty();
    assert_eq!(syntax_name(&a, "main.rs.bak", &m).unwrap(), "Rust");
    assert_eq!(syntax_name(&a, "main.rs~", &m).unwrap(), "Rust");
    assert_eq!(syntax_name(&a, "Makefile.in", &m).unwrap(), "Makefile");
    assert_eq!(syntax_name(&a, "main.rs.bak.orig", &m).unwrap(), "Rust");
}

#[test]
fn undetected_syntax_reports_the_path() {
    let a = assets();
    let m = SyntaxMapping::empty();
    match a.get_syntax_for_path("dir/file.unknownext", &m) {
        Err(Error::UndetectedSyntax(p)) => assert_eq!(p, "dir/file.unknownext"),
        _ => panic!("expected UndetectedSyntax"),
    }
    match a.get_syntax_for_path("", &m) {
        Err(Error::UndetectedSyntax(p)) => assert_eq!(p, ""),
        _ => panic!("expected UndetectedSyntax"),
    }
}

#[test]
fn mapping_to_a_syntax_name() {
    let a = assets();
    let mut m = SyntaxMapping::empty();
    m.insert("*.conf", MappingTarget::MapTo("Python".to_string())).unwrap();
    assert_eq!(syntax_name(&a, "/etc/app.conf", &m).unwrap(), "Python");
    assert_eq!(syntax_name(&a, "/etc/APP.CONF", &m).unwrap(), "Python");
}

#[test]
fn mapping_to_an_unknown_syntax_name() {
    let a = assets();
    let mut m = SyntaxMapping::empty();
    m.insert("*.rs", MappingTarget::MapTo("No Such Syntax".to_string())).unwrap();
    match a.get_syntax_for_path("main.rs", &m) {
        Err(Error::UnknownSyntax(n)) => assert_eq!(n, "No Such Syntax"),
        _ => panic!("expected UnknownSyntax"),
    }
}

#[test]
fn mapping_to_unknown_gives_up() {
    let a = assets();
    let mut m = SyntaxMapping::empty();
    m.insert("*.rs", MappingTarget::MapToUnknown).unwrap();
    match a.get_syntax_for_path("main.rs", &m) {
        Err(Error::UndetectedSyntax(p)) => assert_eq!(p, "main.rs"),
        _ => panic!("expected UndetectedSyntax"),
    }
}

#[test]
fn mapping_extension_to_unknown_keeps_file_names() {
    let a = assets();
    let mut m = SyntaxMapping::empty();
    m.insert("*", MappingTarget::MapExtensionToUnknown).unwrap();
    assert_eq!(syntax_name(&a, "Makefile", &m).unwrap(), "Makefile");
    match a.get_syntax_for_path("main.rs", &m) {
        Err(Error::UndetectedSyntax(p)) => assert_eq!(p, "main.rs"),
        _ => panic!("expected UndetectedSyntax"),
    }
}

#[test]
fn later_mappings_take_precedence() {
    let a = assets();
    let mut m = SyntaxMapping::empty();
    m.insert("*.txt", MappingTarget::MapTo("Rust".to_string())).unwrap();
    m.insert("notes.txt", MappingTarget::MapTo("Python".to_string())).unwrap();
    assert_eq!(syntax_name(&a, "dir/notes.txt", &m).unwrap(), "Python");
    assert_eq!(syntax_name(&a, "dir/other.txt", &m).unwrap(), "Rust");
}

#[test]
fn mapping_applies_after_stripping_suffix() {
    let a = assets();
    let mut m = SyntaxMapping::empty();
    m.insert("*.conf", MappingTarget::MapTo("Python".to_string())).unwrap();
    assert_eq!(syntax_name(&a, "app.conf.bak", &m).unwrap(), "Python");
}

#[test]
fn invalid_glob_is_refused() {
    let mut m = SyntaxMapping::empty();
    match m.insert("a[", MappingTarget::MapToUnknown) {
        Err(Error::GlobParsingError(_)) => {}
        _ => panic!("expected GlobParsingError"),
    }
    assert!(m.get_syntax_for("a[").is_none());
}

#[test]
fn extra_ignored_suffix() {
    let a = assets();
    let mut m = SyntaxMapping::empty();
    m.insert_ignored_suffix(".xyzbak");
    assert_eq!(syntax_name(&a, "main.rs.xyzbak", &m).unwrap(), "Rust");
}

#[test]
fn find_syntax_counts_match_syntax_set() {
    let a = assets();
    let expected = SyntaxSet::load_defaults_newlines().syntaxes().len();
    assert_eq!(a.get_syntaxes().unwrap().len(), expected);
    assert_eq!(a.get_syntax_set().unwrap().syntaxes().len(), expected);
}

#[test]
fn from_cache_reports_missing_theme_file() {
    match HighlightingAssets::from_cache("/cache", None, None) {
        Err(Error::Msg(m)) => assert_eq!(m, "Could not load cached theme set '/cache/themes.bin'"),
        _ => panic!("expected a load failure"),
    }
    match HighlightingAssets::from_cache("/cache/", None, None) {
        Err(Error::Msg(m)) => assert_eq!(m, "Could not load cached theme set '/cache/themes.bin'"),
        _ => panic!("expected a load failure"),
    }
}

#[test]
fn from_cache_reports_unparsable_theme_file() {
    match HighlightingAssets::from_cache("c", None, Some(vec![1, 2, 3])) {
        Err(Error::Msg(m)) => assert_eq!(m, "Could not parse cached theme set"),
        _ => panic!("expected a parse failure"),
    }
}

#[test]
fn from_cache_loads_syntaxes_lazily() {
    let themes = serialized_theme_set(&[("Monokai Extended", "base16-ocean.dark")]);
    let a = HighlightingAssets::from_cache("c", None, Some(themes.clone())).unwrap();
    match a.get_syntax_set() {
        Err(Error::Msg(m)) => assert_eq!(m, "Could not load cached syntax set 'c/syntaxes.bin'"),
        _ => panic!("expected a load failure"),
    }
    let b = HighlightingAssets::from_cache("c", Some(vec![7]), Some(themes.clone())).unwrap();
    match b.get_syntax_for_path("main.rs", &SyntaxMapping::empty()) {
        Err(Error::Msg(m)) => assert_eq!(m, "Could not parse cached syntax set"),
        _ => panic!("expected a parse failure"),
    }
    let c = HighlightingAssets::from_cache("c", Some(serialized_syntaxes()), Some(themes)).unwrap();
    assert_eq!(syntax_name(&c, "main.rs", &SyntaxMapping::empty()).unwrap(), "Rust");
}

#[test]
fn theme_set_insert_and_get() {
    let mut set = LazyThemeSet::new();
    set.insert("b".to_string(), serialized_theme("InspiredGitHub"));
    set.insert("a".to_string(), vec![0]);
    set.insert("c".to_string(), serialized_theme("Solarized (dark)"));
    assert_eq!(set.themes(), vec!["a", "b", "c"]);
    let defaults = ThemeSet::load_defaults();
    assert_eq!(*set.get("b").unwrap(), defaults.themes["InspiredGitHub"]);
    assert!(set.get("a").is_none());
    assert!(set.get("d").is_none());
    set.insert("a".to_string(), serialized_theme("InspiredGitHub"));
    assert_eq!(set.themes(), vec!["a", "b", "c"]);
    assert_eq!(*set.get("a").unwrap(), defaults.themes["InspiredGitHub"]);
}

#[test]
fn theme_set_from_bincode_keeps_last_duplicate() {
    // Two entries named "x": the second replaces the first.
    let mut bytes = Vec::new();
    bytes.extend_from_slice(&2u64.to_le_bytes());
    for payload in [vec![1u8], vec![2u8, 3]] {
        bytes.extend_from_slice(&1u64.to_le_bytes());
        bytes.push(b'x');
        bytes.extend_from_slice(&(payload.len() as u64).to_le_bytes());
        bytes.extend_from_slice(&payload);
    }
    let set = LazyThemeSet::from_bincode(&bytes).unwrap();
    assert_eq!(set.themes(), vec!["x"]);
}

#[test]
fn theme_set_from_bincode_refuses_bad_data() {
    assert!(LazyThemeSet::from_bincode(&[]).is_none());
    assert!(LazyThemeSet::from_bincode(&1u64.to_le_bytes()).is_none());
    let mut bad_utf8 = Vec::new();
    bad_utf8.extend_from_slice(&1u64.to_le_bytes());
    bad_utf8.extend_from_slice(&1u64.to_le_bytes());
    bad_utf8.push(0xff);
    bad_utf8.extend_from_slice(&0u64.to_le_bytes());
    assert!(LazyThemeSet::from_bincode(&bad_utf8).is_none());
    let empty = LazyThemeSet::from_bincode(&0u64.to_le_bytes()).unwrap();
    assert!(empty.themes().is_empty());
}

#[test]
fn theme_set_from_bincode_matches_bincode() {
    let bytes = serialized_theme_set(&[("zeta", "InspiredGitHub"), ("alpha", "Solarized (dark)")]);
    let set = LazyThemeSet::from_bincode(&bytes).unwrap();
    assert_eq!(set.themes(), vec!["alpha", "zeta"]);
    let defaults = ThemeSet::load_defaults();
    assert_eq!(*set.get("zeta").unwrap(), defaults.themes["InspiredGitHub"]);
}

#[test]
fn error_from_outside_errors() {
    match Error::from(std::io::Error::new(std::io::ErrorKind::NotFound, "gone")) {
        Error::Io(e) => assert_eq!(e.kind(), std::io::ErrorKind::NotFound),
        _ => panic!("expected Io"),
    }
    match Error::from("x".parse::<u8>().unwrap_err()) {
        Error::ParseIntError(_) => {}
        _ => panic!("expected ParseIntError"),
    }
    let loading = syntect::LoadingError::BadPath;
    match Error::from(loading) {
        Error::SyntectLoadingError(syntect::LoadingError::BadPath) => {}
        _ => panic!("expected SyntectLoadingError"),
    }
}

#[test]
fn error_from_strings() {
    match Error::from("boom") {
        Error::Msg(m) => assert_eq!(m, "boom"),
        _ => panic!("expected Msg"),
    }
    match Error::from(String::from("bang")) {
        Error::Msg(m) => assert_eq!(m, "bang"),
        _ => panic!("expected Msg"),
    }
}

#[test]
fn detection_ignores_directories() {
    let a = assets();
    let m = SyntaxMapping::empty();
    for p in ["main.rs", "src/main.rs", "/a/b/c/main.rs", "x/../main.rs"] {
        assert_eq!(syntax_name(&a, p, &m).unwrap(), "Rust", "path {:?}", p);
    }
}

#[test]
fn extension_decides_whatever_the_stem() {
    let a = assets();
    let m = SyntaxMapping::empty();
    assert_eq!(syntax_name(&a, "weird.name.with.dots.rs", &m).unwrap(), "Rust");
    assert_eq!(syntax_name(&a, "x.py", &m).unwrap(), "Python");
}

#[test]
fn theme_warnings_follow_the_lookup() {
    let a = assets();
    assert!(a.get_theme_warnings("OneHalfDark").is_empty());
    assert!(a.get_theme_warnings("").is_empty());
    assert_eq!(a.get_theme_warnings("nope"), vec!["Unknown theme 'nope', using default.".to_string()]);
    assert_eq!(
        a.get_theme_warnings("ansi-dark"),
        vec!["Theme 'ansi-dark' is deprecated, using 'ansi' instead.".to_string()]
    );
    let i = IntegratedAssets::checked(
        leak(serialized_syntaxes()),
        leak(serialized_theme_set(&[("Monokai Extended", "base16-ocean.dark")])),
        leak(acknowledgements("x")),
    )
    .unwrap();
    let b = HighlightingAssets::from_binary(&i);
    assert_eq!(
        b.get_theme_warnings("ansi-light"),
        vec![
            "Theme 'ansi-light' is deprecated, using 'ansi' instead.".to_string(),
            "Unknown theme 'ansi', using default.".to_string(),
        ]
    );
}

#[test]
fn extension_lookup_strips_ignored_suffixes() {
    let a = assets();
    let suffixes = IgnoredSuffixes::default();
    let stripped = a.get_syntax_for_file_extension("main.rs.bak", &suffixes).unwrap().unwrap();
    let plain = a.get_syntax_for_file_extension("main.rs", &suffixes).unwrap().unwrap();
    assert_eq!(stripped.syntax.name, "Rust");
    assert_eq!(stripped.syntax.name, plain.syntax.name);
    assert!(a.get_syntax_for_file_extension("a.tar.gz.unknownext", &suffixes).unwrap().is_none());
}

#[test]
fn file_name_lookup_strips_ignored_suffixes() {
    let a = assets();
    let suffixes = IgnoredSuffixes::default();
    let direct = a.get_syntax_for_file_name("Makefile", &suffixes).unwrap().unwrap();
    let stripped = a.get_syntax_for_file_name("Makefile.orig", &suffixes).unwrap().unwrap();
    assert_eq!(direct.syntax.name, stripped.syntax.name);
    assert!(a.get_syntax_for_file_name("main.rs", &suffixes).unwrap().is_none());
}
