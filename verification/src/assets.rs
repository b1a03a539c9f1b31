//! The highlighting assets: a lazily deserialized syntax set and a set of
//! lazily deserialized themes, with syntax detection for file paths and theme
//! lookup with fallbacks.

use vstd::prelude::*;
use syntect::highlighting::Theme;
use syntect::parsing::{SyntaxReference, SyntaxSet};
use once_cell::unsync::OnceCell;
use crate::decode::{
    bincode_string, bincode_syntax_entries, bincode_theme_header, decode_string, decode_syntax_set,
    decode_theme, inflate, theme_header, zlib_inflated, ThemeHeader,
};
use crate::error::Error;
use crate::foreign::{new_syntax_set_cell, syntax_cell_made_empty};
use crate::lazy_theme_set::{bincode_theme_set, lazy_theme_value, strictly_sorted, LazyThemeSet};
use crate::syntax_mapping::{spec_strip_suffix, lemma_strip_shortens, IgnoredSuffixes, MappingTarget, SyntaxMapping};
use crate::syntax_set::{
    find_syntax_by_extension, find_syntax_by_name, has_syntax_for_extension, has_syntax_named,
    last_for_extension, last_named, syntax_reference_entry, syntax_set_entries, syntaxes, SyntaxEntries,
};
use crate::text::{concat, extension, file_name, spec_extension, spec_file_name, str_eq};

verus! {

/// Lazy-loaded syntaxes are already compressed, and compressing them again
/// gains nothing.
pub const COMPRESS_SYNTAXES: bool = false;

/// The theme set is not compressed: the lazy-loaded themes within it are.
pub const COMPRESS_THEMES: bool = false;

/// Each lazy-loaded theme is compressed on its own.
pub const COMPRESS_LAZY_THEMES: bool = true;

/// The acknowledgements are compressed.
pub const COMPRESS_ACKNOWLEDGEMENTS: bool = true;

/// The bytes that a serialized asset holds once the compression, if any, is
/// undone: `None` when compressed data does not inflate.
pub open spec fn asset_payload(contents: Seq<u8>, compressed: bool) -> Option<Seq<u8>> {
    if compressed {
        zlib_inflated(contents)
    } else {
        Some(contents)
    }
}

/// The syntaxes of the syntax set that serialized `contents` hold.
pub open spec fn syntax_set_value(contents: Seq<u8>, compressed: bool) -> Option<SyntaxEntries> {
    match asset_payload(contents, compressed) {
        Some(p) => bincode_syntax_entries(p),
        None => None,
    }
}

/// The name and author of the theme that serialized `contents` hold.
pub open spec fn theme_value(contents: Seq<u8>, compressed: bool) -> Option<ThemeHeader> {
    match asset_payload(contents, compressed) {
        Some(p) => bincode_theme_header(p),
        None => None,
    }
}

/// The string that serialized `contents` hold.
pub open spec fn string_value(contents: Seq<u8>, compressed: bool) -> Option<Seq<char>> {
    match asset_payload(contents, compressed) {
        Some(p) => bincode_string(p),
        None => None,
    }
}

/// The message of an asset that does not deserialize.
pub open spec fn parse_failure(description: Seq<char>) -> Seq<char> {
    "Could not parse "@ + description
}

/// The message of a cached asset whose file could not be read.
pub open spec fn cached_load_failure(description: Seq<char>, path: Seq<char>) -> Seq<char> {
    "Could not load cached "@ + description + " '"@ + path + "'"@
}

/// The message of a cached asset that does not deserialize.
pub open spec fn cached_parse_failure(description: Seq<char>) -> Seq<char> {
    "Could not parse cached "@ + description
}

/// `Error::Msg` with the text `parse_failure(description)`.
pub fn parse_failure_error(description: &str) -> (e: Error)
    ensures
        e matches Error::Msg(m) && m@ == parse_failure(description@),
{
    Error::Msg(concat("Could not parse ", description))
}

/// `Error::Msg` with the text `cached_load_failure(description, path)`.
pub fn cached_load_failure_error(description: &str, path: &str) -> (e: Error)
    ensures
        e matches Error::Msg(m) && m@ == cached_load_failure(description@, path@),
{
    let a = concat("Could not load cached ", description);
    let b = concat(a.as_str(), " '");
    let c = concat(b.as_str(), path);
    let d = concat(c.as_str(), "'");
    Error::Msg(d)
}

/// `Error::Msg` with the text `cached_parse_failure(description)`.
pub fn cached_parse_failure_error(description: &str) -> (e: Error)
    ensures
        e matches Error::Msg(m) && m@ == cached_parse_failure(description@),
{
    Error::Msg(concat("Could not parse cached ", description))
}

/// Deserializes a syntax set from `contents`, inflating them first when
/// `compressed`. Fails with `parse_failure(description)`.
pub fn syntax_set_from_contents(contents: &[u8], description: &str, compressed: bool) -> (r: Result<SyntaxSet, Error>)
    ensures
        r is Ok <==> syntax_set_value(contents@, compressed) is Some,
        r matches Ok(s) ==> syntax_set_entries(s) == syntax_set_value(contents@, compressed)->0,
        r matches Err(e) ==> e matches Error::Msg(m) && m@ == parse_failure(description@),
{
    let decoded = if compressed {
        match inflate(contents) {
            Some(payload) => decode_syntax_set(payload.as_slice()),
            None => None,
        }
    } else {
        decode_syntax_set(contents)
    };
    match decoded {
        Some(s) => Ok(s),
        None => Err(parse_failure_error(description)),
    }
}

/// Deserializes a theme from `contents`, inflating them first when
/// `compressed`. Fails with `parse_failure(description)`.
pub fn theme_from_contents(contents: &[u8], description: &str, compressed: bool) -> (r: Result<Theme, Error>)
    ensures
        r is Ok <==> theme_value(contents@, compressed) is Some,
        r matches Ok(t) ==> theme_header(t) == theme_value(contents@, compressed)->0,
        r matches Err(e) ==> e matches Error::Msg(m) && m@ == parse_failure(description@),
{
    let decoded = if compressed {
        match inflate(contents) {
            Some(payload) => decode_theme(payload.as_slice()),
            None => None,
        }
    } else {
        decode_theme(contents)
    };
    match decoded {
        Some(t) => Ok(t),
        None => Err(parse_failure_error(description)),
    }
}

/// Deserializes a string from `contents`, inflating them first when
/// `compressed`. Fails with `parse_failure(description)`.
pub fn string_from_contents(contents: &[u8], description: &str, compressed: bool) -> (r: Result<String, Error>)
    ensures
        r is Ok <==> string_value(contents@, compressed) is Some,
        r matches Ok(s) ==> s@ == string_value(contents@, compressed)->0,
        r matches Err(e) ==> e matches Error::Msg(m) && m@ == parse_failure(description@),
{
    let decoded = if compressed {
        match inflate(contents) {
            Some(payload) => decode_string(payload.as_slice()),
            None => None,
        }
    } else {
        decode_string(contents)
    };
    match decoded {
        Some(s) => Ok(s),
        None => Err(parse_failure_error(description)),
    }
}

/// The theme set that serialized `contents` hold.
pub open spec fn theme_set_value(contents: Seq<u8>, compressed: bool) -> Option<Map<Seq<char>, Seq<u8>>> {
    match asset_payload(contents, compressed) {
        Some(p) => bincode_theme_set(p),
        None => None,
    }
}

/// Reads a theme set from `contents`, inflating them first when `compressed`.
/// Fails with `parse_failure(description)`.
pub fn theme_set_from_contents(contents: &[u8], description: &str, compressed: bool) -> (r: Result<LazyThemeSet, Error>)
    ensures
        r is Ok <==> theme_set_value(contents@, compressed) is Some,
        r matches Ok(s) ==> s.view() == theme_set_value(contents@, compressed)->0,
        r matches Err(e) ==> e matches Error::Msg(m) && m@ == parse_failure(description@),
{
    let decoded = if compressed {
        match inflate(contents) {
            Some(payload) => LazyThemeSet::from_bincode(payload.as_slice()),
            None => None,
        }
    } else {
        LazyThemeSet::from_bincode(contents)
    };
    match decoded {
        Some(s) => Ok(s),
        None => Err(parse_failure_error(description)),
    }
}

/// Reads a theme set from the contents of a cache file at `path` (`None` when
/// the file could not be read). Fails with `cached_load_failure` when the file
/// was not read, and with `cached_parse_failure` when it does not hold a theme
/// set.
pub fn theme_set_from_cache(contents: Option<&[u8]>, path: &str, description: &str, compressed: bool) -> (r: Result<LazyThemeSet, Error>)
    ensures
        contents is None ==> (r matches Err(Error::Msg(m)) && m@ == cached_load_failure(description@, path@)),
        contents matches Some(c) ==> {
            &&& r is Ok <==> theme_set_value(c@, compressed) is Some
            &&& r matches Ok(s) ==> s.view() == theme_set_value(c@, compressed)->0
            &&& r matches Err(e) ==> e matches Error::Msg(m) && m@ == cached_parse_failure(description@)
        },
{
    match contents {
        None => Err(cached_load_failure_error(description, path)),
        Some(c) => match theme_set_from_contents(c, description, compressed) {
            Ok(s) => Ok(s),
            Err(_) => Err(cached_parse_failure_error(description)),
        },
    }
}

/// Reads a syntax set from the contents of a cache file at `path` (`None` when
/// the file could not be read). Fails with `cached_load_failure` when the file
/// was not read, and with `cached_parse_failure` when it does not hold a syntax
/// set.
pub fn syntax_set_from_cache(contents: Option<&[u8]>, path: &str, description: &str, compressed: bool) -> (r: Result<SyntaxSet, Error>)
    ensures
        contents is None ==> (r matches Err(Error::Msg(m)) && m@ == cached_load_failure(description@, path@)),
        contents matches Some(c) ==> {
            &&& r is Ok <==> syntax_set_value(c@, compressed) is Some
            &&& r matches Ok(s) ==> syntax_set_entries(s) == syntax_set_value(c@, compressed)->0
            &&& r matches Err(e) ==> e matches Error::Msg(m) && m@ == cached_parse_failure(description@)
        },
{
    match contents {
        None => Err(cached_load_failure_error(description, path)),
        Some(c) => match syntax_set_from_contents(c, description, compressed) {
            Ok(s) => Ok(s),
            Err(_) => Err(cached_parse_failure_error(description)),
        },
    }
}

/// `path` joined with the relative `name`, as `Path::join` does on Unix.
pub open spec fn path_join(path: Seq<char>, name: Seq<char>) -> Seq<char> {
    if path.len() == 0 || path.last() == '/' {
        path + name
    } else {
        path + seq!['/'] + name
    }
}

/// `path` joined with the relative `name`.
pub fn join_path(path: &str, name: &str) -> (r: String)
    ensures
        r@ == path_join(path@, name@),
{
    let n = path.unicode_len();
    if n == 0 || path.get_char(n - 1) == '/' {
        concat(path, name)
    } else {
        let with_separator = concat(path, "/");
        proof {
            reveal_strlit("/");
        }
        concat(with_separator.as_str(), name)
    }
}

/// Joining a directory and a file name gives a path whose file name is that
/// name, whether or not the directory ends with a separator.
pub proof fn law_joined_path_has_the_name(dir: Seq<char>, name: Seq<char>)
    requires
        name.len() > 0,
        forall|j: int| 0 <= j < name.len() ==> name[j] != '/',
        name != seq!['.'],
        name != seq!['.', '.'],
    ensures
        spec_file_name(path_join(dir, name)) == Some(name),
{
    if dir.len() == 0 {
        crate::text::law_file_name_is_last_component(dir, name);
        assert(path_join(dir, name) =~= name);
    } else if dir.last() == '/' {
        let d = dir.drop_last();
        crate::text::law_file_name_is_last_component(d, name);
        assert(path_join(dir, name) =~= d + seq!['/'] + name);
    } else {
        crate::text::law_file_name_is_last_component(dir, name);
    }
}

/// The serialized assets that a build integrates into its binary: the syntax
/// set, the theme set and the acknowledgements. The theme set and the
/// acknowledgements deserialize, which the constructors ensure; the syntax set
/// is deserialized only when first needed, and a failure then is reported.
pub struct IntegratedAssets {
    syntaxes: &'static [u8],
    themes: &'static [u8],
    acknowledgements: &'static [u8],
}

impl IntegratedAssets {
    /// The serialized syntax set.
    pub closed spec fn syntaxes(&self) -> Seq<u8> {
        self.syntaxes@
    }

    /// The serialized theme set.
    pub closed spec fn themes(&self) -> Seq<u8> {
        self.themes@
    }

    /// The serialized acknowledgements.
    pub closed spec fn acknowledgements(&self) -> Seq<u8> {
        self.acknowledgements@
    }

    /// The integrated themes and acknowledgements are never faulty.
    #[verifier::type_invariant]
    closed spec fn deserializes(self) -> bool {
        &&& theme_set_value(self.themes@, COMPRESS_THEMES) is Some
        &&& string_value(self.acknowledgements@, COMPRESS_ACKNOWLEDGEMENTS) is Some
    }

    /// The integrated assets, whose themes and acknowledgements must
    /// deserialize.
    pub fn new(syntaxes: &'static [u8], themes: &'static [u8], acknowledgements: &'static [u8]) -> (r: Self)
        requires
            theme_set_value(themes@, COMPRESS_THEMES) is Some,
            string_value(acknowledgements@, COMPRESS_ACKNOWLEDGEMENTS) is Some,
        ensures
            r.syntaxes() == syntaxes@,
            r.themes() == themes@,
            r.acknowledgements() == acknowledgements@,
    {
        IntegratedAssets { syntaxes, themes, acknowledgements }
    }

    /// The integrated assets, after checking that the themes and the
    /// acknowledgements deserialize: `None` when one does not. The syntax set
    /// is left serialized.
    pub fn checked(syntaxes: &'static [u8], themes: &'static [u8], acknowledgements: &'static [u8]) -> (r: Option<Self>)
        ensures
            r is Some <==> {
                &&& theme_set_value(themes@, COMPRESS_THEMES) is Some
                &&& string_value(acknowledgements@, COMPRESS_ACKNOWLEDGEMENTS) is Some
            },
            r matches Some(a) ==> a.syntaxes() == syntaxes@ && a.themes() == themes@ && a.acknowledgements() == acknowledgements@,
    {
        let ok_themes = theme_set_from_contents(themes, "n/a", COMPRESS_THEMES).is_ok();
        let ok_acknowledgements = string_from_contents(acknowledgements, "n/a", COMPRESS_ACKNOWLEDGEMENTS).is_ok();
        if ok_themes && ok_acknowledgements {
            Some(IntegratedAssets::new(syntaxes, themes, acknowledgements))
        } else {
            None
        }
    }
}

/// The serialized syntax set integrated in the binary.
pub fn get_serialized_integrated_syntaxset(integrated: &IntegratedAssets) -> (r: &'static [u8])
    ensures
        r@ == integrated.syntaxes(),
{
    integrated.syntaxes
}

/// The theme set integrated in the binary.
pub fn get_integrated_themeset(integrated: &IntegratedAssets) -> (r: LazyThemeSet)
    ensures
        r.view() == theme_set_value(integrated.themes(), COMPRESS_THEMES)->0,
{
    proof {
        use_type_invariant(integrated);
    }
    match theme_set_from_contents(integrated.themes, "n/a", COMPRESS_THEMES) {
        Ok(s) => s,
        Err(_) => vstd::pervasive::unreached(),
    }
}

/// The acknowledgements integrated in the binary.
pub fn get_acknowledgements(integrated: &IntegratedAssets) -> (r: String)
    ensures
        r@ == string_value(integrated.acknowledgements(), COMPRESS_ACKNOWLEDGEMENTS)->0,
{
    proof {
        use_type_invariant(integrated);
    }
    match string_from_contents(integrated.acknowledgements, "n/a", COMPRESS_ACKNOWLEDGEMENTS) {
        Ok(s) => s,
        Err(_) => vstd::pervasive::unreached(),
    }
}

/// Where the syntax set comes from, serialized.
#[derive(Debug)]
pub enum SerializedSyntaxSet {
    /// Bytes integrated in the binary.
    FromBinary(&'static [u8]),
    /// A cache file: its path, and the bytes read from it (`None` when it
    /// could not be read).
    FromFile { path: String, contents: Option<Vec<u8>> },
}

impl SerializedSyntaxSet {
    /// What deserializing gives: the syntaxes of the set, or the text of the
    /// error.
    pub open spec fn outcome(&self) -> core::result::Result<SyntaxEntries, Seq<char>> {
        match self {
            SerializedSyntaxSet::FromBinary(data) => match syntax_set_value(data@, COMPRESS_SYNTAXES) {
                Some(s) => Ok(s),
                None => Err(parse_failure("n/a"@)),
            },
            SerializedSyntaxSet::FromFile { path, contents } => match contents {
                None => Err(cached_load_failure("syntax set"@, path@)),
                Some(c) => match syntax_set_value(c@, COMPRESS_SYNTAXES) {
                    Some(s) => Ok(s),
                    None => Err(cached_parse_failure("syntax set"@)),
                },
            },
        }
    }

    /// Deserializes the syntax set.
    pub fn deserialize(&self) -> (r: Result<SyntaxSet, Error>)
        ensures
            r is Ok <==> self.outcome() is Ok,
            r matches Ok(s) ==> syntax_set_entries(s) == self.outcome()->Ok_0,
            r matches Err(e) ==> e matches Error::Msg(x) && x@ == self.outcome()->Err_0,
    {
        match self {
            SerializedSyntaxSet::FromBinary(data) => syntax_set_from_contents(data, "n/a", COMPRESS_SYNTAXES),
            SerializedSyntaxSet::FromFile { path, contents } => {
                let c = match contents {
                    Some(v) => Some(v.as_slice()),
                    None => None,
                };
                syntax_set_from_cache(c, path.as_str(), "syntax set", COMPRESS_SYNTAXES)
            },
        }
    }
}

/// A syntax, together with the syntax set that holds it.
#[derive(Debug)]
pub struct SyntaxReferenceInSet<'a> {
    pub syntax: &'a SyntaxReference,
    pub syntax_set: &'a SyntaxSet,
}

/// How a syntax is picked for a path.
pub enum SyntaxChoice {
    /// By the syntax name that a mapping gives.
    ByName(Seq<char>),
    /// By the file name (or the file name without ignored suffixes), taken as
    /// an extension.
    ByFileName(Seq<char>),
    /// By the file name's extension (or that of the name without ignored
    /// suffixes).
    ByExtension(Seq<char>),
    /// No syntax applies.
    Undetected,
    /// A mapping names a syntax that the set does not hold.
    Unknown(Seq<char>),
}

/// The first of `name` and its shortenings by ignored suffixes that a syntax
/// lists as an extension.
pub open spec fn file_name_query(
    entries: SyntaxEntries,
    name: Seq<char>,
    suffixes: Seq<Seq<char>>,
) -> Option<Seq<char>>
    decreases name.len(),
{
    if has_syntax_for_extension(entries, name) {
        Some(name)
    } else {
        match spec_strip_suffix(suffixes, name) {
            Some(s) => if s.len() < name.len() {
                file_name_query(entries, s, suffixes)
            } else {
                None
            },
            None => None,
        }
    }
}

/// The first extension of `name` and of its shortenings by ignored suffixes
/// that a syntax lists (a name without extension counts as the empty one).
pub open spec fn extension_query(
    entries: SyntaxEntries,
    name: Seq<char>,
    suffixes: Seq<Seq<char>>,
) -> Option<Seq<char>>
    decreases name.len(),
{
    let e = match spec_extension(name) {
        Some(x) => x,
        None => Seq::<char>::empty(),
    };
    if has_syntax_for_extension(entries, e) {
        Some(e)
    } else {
        match spec_strip_suffix(suffixes, name) {
            Some(s) => if s.len() < name.len() {
                extension_query(entries, s, suffixes)
            } else {
                None
            },
            None => None,
        }
    }
}

/// How a syntax is picked for `path` from a set with `entries`, given what a
/// mapping maps the path to and the ignored suffixes: the mapping first, then
/// the file name, then (unless the mapping rules it out) the extension.
pub open spec fn choose_syntax(
    entries: SyntaxEntries,
    path: Seq<char>,
    target: Option<MappingTarget>,
    suffixes: Seq<Seq<char>>,
) -> SyntaxChoice {
    match target {
        Some(MappingTarget::MapToUnknown) => SyntaxChoice::Undetected,
        Some(MappingTarget::MapTo(n)) => if has_syntax_named(entries, n@) {
            SyntaxChoice::ByName(n@)
        } else {
            SyntaxChoice::Unknown(n@)
        },
        _ => {
            let f = match spec_file_name(path) {
                Some(f) => f,
                None => Seq::<char>::empty(),
            };
            match file_name_query(entries, f, suffixes) {
                Some(q) => SyntaxChoice::ByFileName(q),
                None => if target matches Some(MappingTarget::MapExtensionToUnknown) {
                    SyntaxChoice::Undetected
                } else {
                    match extension_query(entries, f, suffixes) {
                        Some(q) => SyntaxChoice::ByExtension(q),
                        None => SyntaxChoice::Undetected,
                    }
                },
            }
        },
    }
}

/// The position, in `entries`, of the syntax that `choice` picks: the last
/// syntax of the name, or the last one that lists the queried extension.
pub open spec fn chosen_index(entries: SyntaxEntries, choice: SyntaxChoice) -> Option<int> {
    match choice {
        SyntaxChoice::ByName(n) => last_named(entries, n),
        SyntaxChoice::ByFileName(q) => last_for_extension(entries, q),
        SyntaxChoice::ByExtension(q) => last_for_extension(entries, q),
        _ => None,
    }
}

/// Every choice but `Undetected` and `Unknown` picks a syntax of the set.
pub proof fn law_choice_picks_a_syntax(
    entries: SyntaxEntries,
    path: Seq<char>,
    target: Option<MappingTarget>,
    suffixes: Seq<Seq<char>>,
)
    ensures
        ({
            let choice = choose_syntax(entries, path, target, suffixes);
            !(choice is Undetected || choice is Unknown) ==> (chosen_index(entries, choice) matches Some(i)
                && 0 <= i < entries.len())
        }),
{
    let choice = choose_syntax(entries, path, target, suffixes);
    let f = match spec_file_name(path) {
        Some(f) => f,
        None => Seq::<char>::empty(),
    };
    match choice {
        SyntaxChoice::ByName(n) => {
            crate::syntax_set::law_found_by_name_is_last(entries, n);
        },
        SyntaxChoice::ByFileName(q) => {
            lemma_file_name_query_found(entries, f, suffixes);
            crate::syntax_set::law_found_by_extension_is_last(entries, q);
        },
        SyntaxChoice::ByExtension(q) => {
            lemma_extension_query_found(entries, f, suffixes);
            crate::syntax_set::law_found_by_extension_is_last(entries, q);
        },
        _ => {},
    }
}

proof fn lemma_file_name_query_found(entries: SyntaxEntries, name: Seq<char>, suffixes: Seq<Seq<char>>)
    ensures
        file_name_query(entries, name, suffixes) matches Some(q) ==> has_syntax_for_extension(entries, q),
    decreases name.len(),
{
    if !has_syntax_for_extension(entries, name) {
        if let Some(s) = spec_strip_suffix(suffixes, name) {
            if s.len() < name.len() {
                lemma_file_name_query_found(entries, s, suffixes);
            }
        }
    }
}

proof fn lemma_extension_query_found(entries: SyntaxEntries, name: Seq<char>, suffixes: Seq<Seq<char>>)
    ensures
        extension_query(entries, name, suffixes) matches Some(q) ==> has_syntax_for_extension(entries, q),
    decreases name.len(),
{
    let e = match spec_extension(name) {
        Some(x) => x,
        None => Seq::<char>::empty(),
    };
    if !has_syntax_for_extension(entries, e) {
        if let Some(s) = spec_strip_suffix(suffixes, name) {
            if s.len() < name.len() {
                lemma_extension_query_found(entries, s, suffixes);
            }
        }
    }
}

/// Detection by file name looks at the file name alone: two paths with the
/// same file name, which the mapping maps alike, get the same syntax.
pub proof fn law_detection_ignores_directories(
    entries: SyntaxEntries,
    path1: Seq<char>,
    path2: Seq<char>,
    target: Option<MappingTarget>,
    suffixes: Seq<Seq<char>>,
)
    requires
        spec_file_name(path1) == spec_file_name(path2),
    ensures
        choose_syntax(entries, path1, target, suffixes) == choose_syntax(entries, path2, target, suffixes),
        chosen_index(entries, choose_syntax(entries, path1, target, suffixes)) == chosen_index(
            entries,
            choose_syntax(entries, path2, target, suffixes),
        ),
{
}

/// Detection by extension looks at the extension alone: a file name whose
/// extension a syntax lists is detected by that extension, whatever the rest
/// of the name.
pub proof fn law_extension_decides(
    entries: SyntaxEntries,
    name: Seq<char>,
    suffixes: Seq<Seq<char>>,
    ext: Seq<char>,
)
    requires
        spec_extension(name) == Some(ext),
        has_syntax_for_extension(entries, ext),
    ensures
        extension_query(entries, name, suffixes) == Some(ext),
{
}

/// A file name that no syntax lists as an extension is detected as the name
/// without its first ignored suffix.
pub proof fn law_ignored_suffix_is_transparent(
    entries: SyntaxEntries,
    name: Seq<char>,
    stripped: Seq<char>,
    suffixes: Seq<Seq<char>>,
)
    requires
        forall|i: int| 0 <= i < suffixes.len() ==> #[trigger] suffixes[i].len() > 0,
        spec_strip_suffix(suffixes, name) == Some(stripped),
        !has_syntax_for_extension(entries, name),
    ensures
        file_name_query(entries, name, suffixes) == file_name_query(entries, stripped, suffixes),
{
    lemma_strip_shortens(suffixes, name);
}

/// A file name whose extension no syntax lists is detected by extension as
/// the name without its first ignored suffix (`main.rs.bak` as `main.rs`).
pub proof fn law_ignored_suffix_is_transparent_for_extension(
    entries: SyntaxEntries,
    name: Seq<char>,
    stripped: Seq<char>,
    suffixes: Seq<Seq<char>>,
)
    requires
        forall|i: int| 0 <= i < suffixes.len() ==> #[trigger] suffixes[i].len() > 0,
        spec_strip_suffix(suffixes, name) == Some(stripped),
        !has_syntax_for_extension(
            entries,
            match spec_extension(name) {
                Some(x) => x,
                None => Seq::<char>::empty(),
            },
        ),
    ensures
        extension_query(entries, name, suffixes) == extension_query(entries, stripped, suffixes),
{
    lemma_strip_shortens(suffixes, name);
}

/// A file name that some syntax lists (as an extension, compared without
/// ASCII case) is found as itself, whatever extension it has: `CMakeLists.txt`
/// is found as `CMakeLists.txt`, not as `txt`.
pub proof fn law_listed_file_name_is_found_as_itself(
    entries: SyntaxEntries,
    name: Seq<char>,
    suffixes: Seq<Seq<char>>,
)
    requires
        has_syntax_for_extension(entries, name),
    ensures
        file_name_query(entries, name, suffixes) == Some(name),
{
}

/// A file name that no syntax lists and that ends with no ignored suffix is
/// not found by file name.
pub proof fn law_unlisted_file_name_is_not_found(
    entries: SyntaxEntries,
    name: Seq<char>,
    suffixes: Seq<Seq<char>>,
)
    requires
        !has_syntax_for_extension(entries, name),
        spec_strip_suffix(suffixes, name) is None,
    ensures
        file_name_query(entries, name, suffixes) is None,
{
}

/// What is found by file name is always a name that a syntax lists.
pub proof fn law_file_name_query_is_listed(entries: SyntaxEntries, name: Seq<char>, suffixes: Seq<Seq<char>>)
    ensures
        file_name_query(entries, name, suffixes) matches Some(q) ==> has_syntax_for_extension(entries, q),
{
    lemma_file_name_query_found(entries, name, suffixes);
}

/// When no mapping rule applies (or the mapping only rules out detection by
/// extension), the whole file name comes before the extension: a path whose
/// file name a syntax lists gets the last syntax that lists it, whatever
/// syntax its extension would select.
pub proof fn law_whole_file_name_wins(
    entries: SyntaxEntries,
    path: Seq<char>,
    target: Option<MappingTarget>,
    suffixes: Seq<Seq<char>>,
    name: Seq<char>,
)
    requires
        target is None || target matches Some(MappingTarget::MapExtensionToUnknown),
        spec_file_name(path) == Some(name),
        has_syntax_for_extension(entries, name),
    ensures
        choose_syntax(entries, path, target, suffixes) == SyntaxChoice::ByFileName(name),
        chosen_index(entries, choose_syntax(entries, path, target, suffixes)) == last_for_extension(entries, name),
{
}

/// When no mapping rule applies (or the mapping only rules out detection by
/// extension), a file name found by file name (as itself or stripped of
/// ignored suffixes) decides, before any extension is looked at.
pub proof fn law_file_name_comes_first(
    entries: SyntaxEntries,
    path: Seq<char>,
    target: Option<MappingTarget>,
    suffixes: Seq<Seq<char>>,
    q: Seq<char>,
)
    requires
        target is None || target matches Some(MappingTarget::MapExtensionToUnknown),
        file_name_query(
            entries,
            match spec_file_name(path) {
                Some(f) => f,
                None => Seq::<char>::empty(),
            },
            suffixes,
        ) == Some(q),
    ensures
        choose_syntax(entries, path, target, suffixes) == SyntaxChoice::ByFileName(q),
{
}

/// The extension is looked at only when the file name finds nothing, and
/// not at all when the mapping rules it out.
pub proof fn law_extension_comes_last(
    entries: SyntaxEntries,
    path: Seq<char>,
    target: Option<MappingTarget>,
    suffixes: Seq<Seq<char>>,
)
    requires
        target is None || target matches Some(MappingTarget::MapExtensionToUnknown),
        file_name_query(
            entries,
            match spec_file_name(path) {
                Some(f) => f,
                None => Seq::<char>::empty(),
            },
            suffixes,
        ) is None,
    ensures
        target is None ==> choose_syntax(entries, path, target, suffixes) == match extension_query(
            entries,
            match spec_file_name(path) {
                Some(f) => f,
                None => Seq::<char>::empty(),
            },
            suffixes,
        ) {
            Some(q) => SyntaxChoice::ByExtension(q),
            None => SyntaxChoice::Undetected,
        },
        target is Some ==> choose_syntax(entries, path, target, suffixes) == SyntaxChoice::Undetected,
{
}

/// What is found by extension is always an extension that a syntax lists.
pub proof fn law_extension_query_is_listed(entries: SyntaxEntries, name: Seq<char>, suffixes: Seq<Seq<char>>)
    ensures
        extension_query(entries, name, suffixes) matches Some(q) ==> has_syntax_for_extension(entries, q),
{
    lemma_extension_query_found(entries, name, suffixes);
}

/// A path mapped to no syntax is undetected, whatever its name.
pub proof fn law_mapping_to_unknown_gives_up(
    entries: SyntaxEntries,
    path: Seq<char>,
    suffixes: Seq<Seq<char>>,
)
    ensures
        choose_syntax(entries, path, Some(MappingTarget::MapToUnknown), suffixes) == SyntaxChoice::Undetected,
{
}

/// A path mapped to a syntax name gets that syntax when the set holds it, and
/// `Unknown` otherwise, whatever its file name.
pub proof fn law_mapping_to_name_decides(
    entries: SyntaxEntries,
    path: Seq<char>,
    name: String,
    suffixes: Seq<Seq<char>>,
)
    ensures
        has_syntax_named(entries, name@) ==> choose_syntax(entries, path, Some(MappingTarget::MapTo(name)), suffixes)
            == SyntaxChoice::ByName(name@),
        !has_syntax_named(entries, name@) ==> choose_syntax(entries, path, Some(MappingTarget::MapTo(name)), suffixes)
            == SyntaxChoice::Unknown(name@),
{
}

/// The theme names that are deprecated in favor of `ansi`.
pub open spec fn is_deprecated_ansi_theme(name: Seq<char>) -> bool {
    name == "ansi-light"@ || name == "ansi-dark"@
}

/// The warning for a theme name that is deprecated in favor of `ansi`.
pub open spec fn deprecated_theme_warning(name: Seq<char>) -> Seq<char> {
    "Theme '"@ + name + "' is deprecated, using 'ansi' instead."@
}

/// The warning for a theme name that is not known.
pub open spec fn unknown_theme_warning(name: Seq<char>) -> Seq<char> {
    "Unknown theme '"@ + name + "', using default."@
}

/// `before`, `name` and `after`, one after the other.
fn surround(before: &str, name: &str, after: &str) -> (r: String)
    ensures
        r@ == before@ + name@ + after@,
{
    let a = concat(before, name);
    concat(a.as_str(), after)
}

/// The default theme's name: the theme for a dark background.
pub open spec fn default_theme_name() -> Seq<char> {
    "Monokai Extended"@
}

/// The name of the default theme for a light background.
pub open spec fn default_light_theme_name() -> Seq<char> {
    "Monokai Extended Light"@
}

/// `OnceCell::get_or_try_init` on the assets' syntax set cell, which fills the
/// cell with `SerializedSyntaxSet::deserialize` when it is empty. The cell was
/// made empty (required, and kept by the type invariant of
/// `HighlightingAssets`); it is private to `HighlightingAssets` and filled
/// nowhere else, so it holds nothing or the deserialized set. Claimed: the
/// result is that set, or the error that deserializing gives. That the cell
/// holds the set after an `Ok` is left unsaid: Verus takes the assets, behind a
/// shared reference, to be the same value before and after the call, so a
/// claim about what the cell holds now would contradict the claim that it was
/// made empty.
#[verifier::external_body]
fn cached_syntax_set<'a>(assets: &'a HighlightingAssets) -> (r: Result<&'a SyntaxSet, Error>)
    requires
        assets.syntax_set_cell_made_empty(),
    ensures
        r is Ok <==> assets.syntax_set_outcome() is Ok,
        r matches Ok(x) ==> syntax_set_entries(*x) == assets.syntax_set_outcome()->Ok_0,
        r matches Err(e) ==> e matches Error::Msg(x) && x@ == assets.syntax_set_outcome()->Err_0,
{
    assets.syntax_set_cell.get_or_try_init(|| assets.serialized_syntax_set.deserialize())
}

/// The syntax set and the themes, each deserialized when first needed.
#[derive(Debug)]
pub struct HighlightingAssets {
    syntax_set_cell: OnceCell<SyntaxSet>,
    serialized_syntax_set: SerializedSyntaxSet,
    theme_set: LazyThemeSet,
    fallback_theme: Option<&'static str>,
}

impl HighlightingAssets {
    /// Where the syntax set comes from.
    pub closed spec fn syntax_source(&self) -> SerializedSyntaxSet {
        self.serialized_syntax_set
    }

    /// What deserializing the syntax set gives: its syntaxes, or the text of
    /// the error.
    pub open spec fn syntax_set_outcome(&self) -> core::result::Result<SyntaxEntries, Seq<char>> {
        self.syntax_source().outcome()
    }

    /// The themes, serialized, by name.
    pub closed spec fn themes_view(&self) -> Map<Seq<char>, Seq<u8>> {
        self.theme_set.view()
    }

    /// The names of the themes, in the order in which they are kept.
    pub closed spec fn theme_names(&self) -> Seq<Seq<char>> {
        self.theme_set.names()
    }

    /// The fallback theme's name, if one is set.
    pub closed spec fn fallback(&self) -> Option<Seq<char>> {
        match self.fallback_theme {
            Some(t) => Some(t@),
            None => None,
        }
    }

    /// The cell that keeps the deserialized syntax set was made empty: the
    /// assets start with nothing deserialized, and the set is deserialized on
    /// first use.
    pub closed spec fn syntax_set_cell_made_empty(&self) -> bool {
        syntax_cell_made_empty(self.syntax_set_cell)
    }

    /// The syntax set cell was made empty.
    #[verifier::type_invariant]
    closed spec fn cell_made_empty(self) -> bool {
        syntax_cell_made_empty(self.syntax_set_cell)
    }

    /// New assets: nothing is deserialized yet.
    fn new(serialized_syntax_set: SerializedSyntaxSet, theme_set: LazyThemeSet) -> (r: Self)
        ensures
            r.syntax_source() == serialized_syntax_set,
            r.themes_view() == theme_set.view(),
            r.fallback() is None,
            r.syntax_set_cell_made_empty(),
    {
        HighlightingAssets {
            syntax_set_cell: new_syntax_set_cell(),
            serialized_syntax_set,
            theme_set,
            fallback_theme: None,
        }
    }

    /// The default theme: one that looks good on a dark background, the usual
    /// terminal background. (On a system whose terminal background follows a
    /// light or dark mode, `default_theme_for` picks by the mode.)
    pub fn default_theme() -> (r: &'static str)
        ensures
            r@ == default_theme_name(),
    {
        Self::default_dark_theme()
    }

    /// The default theme for a terminal in dark mode (`dark_mode`) or in light
    /// mode.
    pub fn default_theme_for(dark_mode: bool) -> (r: &'static str)
        ensures
            r@ == (if dark_mode { default_theme_name() } else { default_light_theme_name() }),
    {
        if dark_mode {
            Self::default_dark_theme()
        } else {
            Self::default_light_theme()
        }
    }

    /// The default theme for a dark background.
    fn default_dark_theme() -> (r: &'static str)
        ensures
            r@ == default_theme_name(),
    {
        "Monokai Extended"
    }

    /// The default theme for a light background.
    fn default_light_theme() -> (r: &'static str)
        ensures
            r@ == default_light_theme_name(),
    {
        "Monokai Extended Light"
    }

    /// The assets of a cache directory, given what reading its `syntaxes.bin`
    /// and `themes.bin` gave (`None` for a file that could not be read). The
    /// syntax set is deserialized when first needed; the theme set now, and a
    /// failure there is the result.
    pub fn from_cache(cache_path: &str, syntaxes: Option<Vec<u8>>, themes: Option<Vec<u8>>) -> (r: Result<Self, Error>)
        ensures
            ({
                let themes_path = path_join(cache_path@, "themes.bin"@);
                &&& themes is None ==> (r matches Err(Error::Msg(m)) && m@ == cached_load_failure("theme set"@, themes_path))
                &&& themes matches Some(c) ==> {
                    &&& r is Ok <==> theme_set_value(c@, COMPRESS_THEMES) is Some
                    &&& r matches Err(e) ==> e matches Error::Msg(m) && m@ == cached_parse_failure("theme set"@)
                    &&& r matches Ok(a) ==> {
                        &&& a.themes_view() == theme_set_value(c@, COMPRESS_THEMES)->0
                        &&& a.fallback() is None
                        &&& a.syntax_set_cell_made_empty()
                        &&& a.syntax_source() matches SerializedSyntaxSet::FromFile { path, contents }
                        &&& path@ == path_join(cache_path@, "syntaxes.bin"@)
                        &&& contents == syntaxes
                    }
                }
            }),
    {
        let syntaxes_path = join_path(cache_path, "syntaxes.bin");
        let themes_path = join_path(cache_path, "themes.bin");
        let contents = match &themes {
            Some(v) => Some(v.as_slice()),
            None => None,
        };
        let theme_set = match theme_set_from_cache(contents, themes_path.as_str(), "theme set", COMPRESS_THEMES) {
            Ok(s) => s,
            Err(e) => return Err(e),
        };
        Ok(HighlightingAssets::new(SerializedSyntaxSet::FromFile { path: syntaxes_path, contents: syntaxes }, theme_set))
    }

    /// The assets integrated in the binary.
    pub fn from_binary(integrated: &IntegratedAssets) -> (r: Self)
        ensures
            r.syntax_source() matches SerializedSyntaxSet::FromBinary(data) && data@ == integrated.syntaxes(),
            r.themes_view() == theme_set_value(integrated.themes(), COMPRESS_THEMES)->0,
            r.fallback() is None,
            r.syntax_set_cell_made_empty(),
    {
        HighlightingAssets::new(
            SerializedSyntaxSet::FromBinary(get_serialized_integrated_syntaxset(integrated)),
            get_integrated_themeset(integrated),
        )
    }

    /// Makes `theme` the theme that unknown theme names fall back to.
    pub fn set_fallback_theme(&mut self, theme: &'static str)
        ensures
            final(self).fallback() == Some(theme@),
            final(self).syntax_source() == old(self).syntax_source(),
            final(self).themes_view() == old(self).themes_view(),
            final(self).syntax_set_cell_made_empty(),
    {
        proof {
            use_type_invariant(&*self);
        }
        self.fallback_theme = Some(theme);
    }

    /// The syntax set, deserialized on first use.
    pub fn get_syntax_set(&self) -> (r: Result<&SyntaxSet, Error>)
        ensures
            r is Ok <==> self.syntax_set_outcome() is Ok,
            r matches Ok(x) ==> syntax_set_entries(*x) == self.syntax_set_outcome()->Ok_0,
            r matches Err(e) ==> e matches Error::Msg(x) && x@ == self.syntax_set_outcome()->Err_0,
    {
        proof {
            use_type_invariant(self);
        }
        cached_syntax_set(self)
    }

    /// The syntaxes of the syntax set.
    pub fn get_syntaxes(&self) -> (r: Result<&[SyntaxReference], Error>)
        ensures
            r is Ok <==> self.syntax_set_outcome() is Ok,
            r matches Ok(x) ==> x@.len() == self.syntax_set_outcome()->Ok_0.len(),
            r matches Ok(x) ==> forall|i: int| 0 <= i < x@.len() ==> syntax_reference_entry(#[trigger] x@[i])
                == self.syntax_set_outcome()->Ok_0[i],
            r matches Err(e) ==> e matches Error::Msg(x) && x@ == self.syntax_set_outcome()->Err_0,
    {
        match self.get_syntax_set() {
            Ok(s) => Ok(syntaxes(s)),
            Err(e) => Err(e),
        }
    }

    fn get_theme_set(&self) -> (r: &LazyThemeSet)
        ensures
            r.view() == self.themes_view(),
            r.names() == self.theme_names(),
    {
        &self.theme_set
    }

    /// The syntax called `syntax_name`.
    pub(crate) fn find_syntax_by_name(&self, syntax_name: &str) -> (r: Result<Option<SyntaxReferenceInSet>, Error>)
        ensures
            r is Ok <==> self.syntax_set_outcome() is Ok,
            r matches Err(e) ==> e matches Error::Msg(x) && x@ == self.syntax_set_outcome()->Err_0,
            r matches Ok(o) ==> (o is Some <==> has_syntax_named(
                self.syntax_set_outcome()->Ok_0,
                syntax_name@,
            )),
            r matches Ok(Some(found)) ==> syntax_set_entries(*found.syntax_set) == self.syntax_set_outcome()->Ok_0,
            r matches Ok(Some(found)) ==> syntax_reference_entry(*found.syntax) == self.syntax_set_outcome()->Ok_0[
                last_named(self.syntax_set_outcome()->Ok_0, syntax_name@)->0],
    {
        let syntax_set = match self.get_syntax_set() {
            Ok(s) => s,
            Err(e) => return Err(e),
        };
        Ok(
            match find_syntax_by_name(syntax_set, syntax_name) {
                Some(syntax) => Some(SyntaxReferenceInSet { syntax, syntax_set }),
                None => None,
            },
        )
    }

    /// The syntax for the extension `e` (the empty extension when there is
    /// none).
    fn find_syntax_by_extension(&self, e: Option<&str>) -> (r: Result<Option<SyntaxReferenceInSet>, Error>)
        ensures
            r is Ok <==> self.syntax_set_outcome() is Ok,
            r matches Err(err) ==> err matches Error::Msg(x) && x@ == self.syntax_set_outcome()->Err_0,
            r matches Ok(o) ==> (o is Some <==> has_syntax_for_extension(
                self.syntax_set_outcome()->Ok_0,
                match e {
                    Some(x) => x@,
                    None => Seq::<char>::empty(),
                },
            )),
            r matches Ok(Some(found)) ==> syntax_set_entries(*found.syntax_set) == self.syntax_set_outcome()->Ok_0,
            r matches Ok(Some(found)) ==> syntax_reference_entry(*found.syntax) == self.syntax_set_outcome()->Ok_0[
                last_for_extension(
                    self.syntax_set_outcome()->Ok_0,
                    match e {
                        Some(x) => x@,
                        None => Seq::<char>::empty(),
                    },
                )->0],
    {
        let syntax_set = match self.get_syntax_set() {
            Ok(s) => s,
            Err(err) => return Err(err),
        };
        let extension = match e {
            Some(x) => x,
            None => "",
        };
        proof {
            reveal_strlit("");
            assert(e is None ==> extension@ =~= Seq::<char>::empty());
        }
        Ok(
            match find_syntax_by_extension(syntax_set, extension) {
                Some(syntax) => Some(SyntaxReferenceInSet { syntax, syntax_set }),
                None => None,
            },
        )
    }

    /// The syntax for the file name itself taken as an extension (`Makefile`),
    /// trying the name again without an ignored suffix.
    pub fn get_syntax_for_file_name(&self, file_name: &str, ignored_suffixes: &IgnoredSuffixes) -> (r: Result<
        Option<SyntaxReferenceInSet>,
        Error,
    >)
        ensures
            r is Ok <==> self.syntax_set_outcome() is Ok,
            r matches Err(e) ==> e matches Error::Msg(x) && x@ == self.syntax_set_outcome()->Err_0,
            r matches Ok(o) ==> (o is Some <==> file_name_query(
                self.syntax_set_outcome()->Ok_0,
                file_name@,
                ignored_suffixes.view(),
            ) is Some),
            r matches Ok(Some(found)) ==> syntax_set_entries(*found.syntax_set) == self.syntax_set_outcome()->Ok_0,
            r matches Ok(Some(found)) ==> syntax_reference_entry(*found.syntax) == self.syntax_set_outcome()->Ok_0[
                last_for_extension(
                    self.syntax_set_outcome()->Ok_0,
                    file_name_query(self.syntax_set_outcome()->Ok_0, file_name@, ignored_suffixes.view())->0,
                )->0],
        decreases file_name@.len(),
    {
        proof {
            use_type_invariant(ignored_suffixes);
            lemma_strip_shortens(ignored_suffixes.view(), file_name@);
        }
        let mut syntax = match self.find_syntax_by_extension(Some(file_name)) {
            Ok(o) => o,
            Err(e) => return Err(e),
        };
        if syntax.is_none() {
            syntax = match ignored_suffixes.strip_suffix(file_name) {
                Some(stripped) => match self.get_syntax_for_file_name(stripped, ignored_suffixes) {
                    Ok(o) => o,
                    Err(e) => return Err(e),
                },
                None => None,
            };
        }
        Ok(syntax)
    }

    /// The syntax for the file name's extension, trying the name again
    /// without an ignored suffix.
    pub fn get_syntax_for_file_extension(&self, file_name: &str, ignored_suffixes: &IgnoredSuffixes) -> (r: Result<
        Option<SyntaxReferenceInSet>,
        Error,
    >)
        ensures
            r is Ok <==> self.syntax_set_outcome() is Ok,
            r matches Err(e) ==> e matches Error::Msg(x) && x@ == self.syntax_set_outcome()->Err_0,
            r matches Ok(o) ==> (o is Some <==> extension_query(
                self.syntax_set_outcome()->Ok_0,
                file_name@,
                ignored_suffixes.view(),
            ) is Some),
            r matches Ok(Some(found)) ==> syntax_set_entries(*found.syntax_set) == self.syntax_set_outcome()->Ok_0,
            r matches Ok(Some(found)) ==> syntax_reference_entry(*found.syntax) == self.syntax_set_outcome()->Ok_0[
                last_for_extension(
                    self.syntax_set_outcome()->Ok_0,
                    extension_query(self.syntax_set_outcome()->Ok_0, file_name@, ignored_suffixes.view())->0,
                )->0],
        decreases file_name@.len(),
    {
        proof {
            use_type_invariant(ignored_suffixes);
            lemma_strip_shortens(ignored_suffixes.view(), file_name@);
        }
        let mut syntax = match self.find_syntax_by_extension(extension(file_name)) {
            Ok(o) => o,
            Err(e) => return Err(e),
        };
        if syntax.is_none() {
            syntax = match ignored_suffixes.strip_suffix(file_name) {
                Some(stripped) => match self.get_syntax_for_file_extension(stripped, ignored_suffixes) {
                    Ok(o) => o,
                    Err(e) => return Err(e),
                },
                None => None,
            };
        }
        Ok(syntax)
    }

    /// Detects the syntax of `path`, in order, by:
    ///  1. the mapping, when it maps the path to a syntax name or to no syntax;
    ///  2. the file name (`Dockerfile`);
    ///  3. the mapping, when it maps the path to no syntax by extension;
    ///  4. the file name's extension (`.rs`).
    /// File names are tried again without an ignored suffix. Fails with
    /// `UndetectedSyntax` when no syntax applies, and with `UnknownSyntax`
    /// when the mapping names a syntax that the set does not hold.
    pub fn get_syntax_for_path(&self, path: &str, mapping: &SyntaxMapping) -> (r: Result<SyntaxReferenceInSet, Error>)
        ensures
            ({
                let target = mapping.target_for(path@);
                if target matches Some(MappingTarget::MapToUnknown) {
                    r matches Err(Error::UndetectedSyntax(p)) && p@ == path@
                } else {
                    match self.syntax_set_outcome() {
                        Err(m) => r matches Err(Error::Msg(x)) && x@ == m,
                        Ok(entries) => {
                            let choice = choose_syntax(entries, path@, target, mapping.suffixes());
                            match choice {
                                SyntaxChoice::Undetected => r matches Err(Error::UndetectedSyntax(p)) && p@ == path@,
                                SyntaxChoice::Unknown(n) => r matches Err(Error::UnknownSyntax(x)) && x@ == n,
                                _ => r matches Ok(found) && {
                                    &&& syntax_set_entries(*found.syntax_set) == entries
                                    &&& syntax_reference_entry(*found.syntax) == entries[chosen_index(entries, choice)->0]
                                },
                            }
                        },
                    }
                }
            }),
    {
        let syntax_match = mapping.get_syntax_for(path);
        if let Some(MappingTarget::MapToUnknown) = syntax_match {
            return Err(Error::UndetectedSyntax(String::from_str(path)));
        }
        if let Some(MappingTarget::MapTo(syntax_name)) = &syntax_match {
            return match self.find_syntax_by_name(syntax_name.as_str()) {
                Ok(Some(found)) => Ok(found),
                Ok(None) => Err(Error::UnknownSyntax(syntax_name.clone())),
                Err(e) => Err(e),
            };
        }
        let name = match file_name(path) {
            Some(f) => f,
            None => "",
        };
        proof {
            reveal_strlit("");
            assert(spec_file_name(path@) is None ==> name@ =~= Seq::<char>::empty());
        }
        let by_file_name = match self.get_syntax_for_file_name(name, mapping.ignored_suffixes()) {
            Ok(o) => o,
            Err(e) => return Err(e),
        };
        match (by_file_name, &syntax_match) {
            (Some(syntax), _) => Ok(syntax),
            (_, Some(MappingTarget::MapExtensionToUnknown)) => Err(Error::UndetectedSyntax(String::from_str(path))),
            _ => match self.get_syntax_for_file_extension(name, mapping.ignored_suffixes()) {
                Ok(Some(syntax)) => Ok(syntax),
                Ok(None) => Err(Error::UndetectedSyntax(String::from_str(path))),
                Err(e) => Err(e),
            },
        }
    }

    /// The name and author of the theme called `name`, when there is one and
    /// it deserializes.
    pub open spec fn theme_named(&self, name: Seq<char>) -> Option<ThemeHeader> {
        if self.themes_view().contains_key(name) {
            lazy_theme_value(self.themes_view()[name])
        } else {
            None
        }
    }

    /// The name that unknown theme names fall back to: the fallback theme, or
    /// else the default theme.
    pub open spec fn fallback_theme_name(&self) -> Seq<char> {
        match self.fallback() {
            Some(f) => f,
            None => default_theme_name(),
        }
    }

    /// The theme that `get_theme(name)` gives, by its name and author: the
    /// theme of that name; for the deprecated `ansi-light` and `ansi-dark`, the
    /// `ansi` theme; failing these, the fallback theme.
    pub open spec fn resolved_theme(&self, name: Seq<char>) -> Option<ThemeHeader> {
        match self.theme_named(name) {
            Some(t) => Some(t),
            None => if is_deprecated_ansi_theme(name) {
                match self.theme_named("ansi"@) {
                    Some(t) => Some(t),
                    None => self.theme_named(self.fallback_theme_name()),
                }
            } else {
                self.theme_named(self.fallback_theme_name())
            },
        }
    }

    /// A deprecated name (`ansi-light`, `ansi-dark`) that is not itself a
    /// theme gives the `ansi` theme when that exists, whatever fallback theme
    /// is set.
    pub proof fn law_deprecated_name_gives_ansi(&self, name: Seq<char>)
        requires
            self.theme_named(name) is None,
            is_deprecated_ansi_theme(name),
            self.theme_named("ansi"@) is Some,
        ensures
            self.resolved_theme(name) == self.theme_named("ansi"@),
    {
    }

    /// Setting a fallback theme changes nothing for a deprecated name while
    /// `ansi` exists: two assets with the same themes resolve it alike.
    pub proof fn law_fallback_does_not_affect_deprecated_names(a: &Self, b: &Self, name: Seq<char>)
        requires
            a.themes_view() == b.themes_view(),
            is_deprecated_ansi_theme(name),
            a.theme_named("ansi"@) is Some,
        ensures
            a.resolved_theme(name) == b.resolved_theme(name),
            a.resolved_theme(name) is Some,
    {
    }

    /// A deprecated name whose `ansi` replacement is missing too gives the
    /// fallback theme (the default theme when none is set).
    pub proof fn law_deprecated_name_without_ansi_falls_back(&self, name: Seq<char>)
        requires
            self.theme_named(name) is None,
            is_deprecated_ansi_theme(name),
            self.theme_named("ansi"@) is None,
        ensures
            self.resolved_theme(name) == self.theme_named(self.fallback_theme_name()),
    {
    }

    /// A lookup warns about nothing when the theme exists; about an unknown
    /// name, once, naming it; about a deprecated name, naming it and `ansi`,
    /// then, when `ansi` is missing too, about `ansi`; and never about the
    /// empty name.
    pub proof fn law_theme_warnings(&self, name: Seq<char>)
        ensures
            self.theme_named(name) is Some ==> self.theme_warnings(name).len() == 0,
            self.theme_named(name) is None && !is_deprecated_ansi_theme(name) && name.len() > 0
                ==> self.theme_warnings(name) == seq!["Unknown theme '"@ + name + "', using default."@],
            self.theme_named(name) is None && is_deprecated_ansi_theme(name) ==> {
                &&& self.theme_warnings(name)[0] == "Theme '"@ + name + "' is deprecated, using 'ansi' instead."@
                &&& self.theme_warnings(name).len() == if self.theme_named("ansi"@) is Some { 1int } else { 2int }
                &&& self.theme_named("ansi"@) is None ==> self.theme_warnings(name)[1]
                    == "Unknown theme '"@ + "ansi"@ + "', using default."@
            },
            name.len() == 0 ==> self.theme_warnings(name).len() == 0,
    {
        if self.theme_named(name) is None && is_deprecated_ansi_theme(name) {
            let tail = if self.theme_named("ansi"@) is Some {
                Seq::<Seq<char>>::empty()
            } else {
                seq![unknown_theme_warning("ansi"@)]
            };
            let w = seq![deprecated_theme_warning(name)] + tail;
            assert(self.theme_warnings(name) == w);
            assert(w[0] == deprecated_theme_warning(name));
            assert(self.theme_warnings(name)[0] == "Theme '"@ + name + "' is deprecated, using 'ansi' instead."@);
            assert(w.len() == 1 + tail.len());
            if self.theme_named("ansi"@) is None {
                assert(w[1] == tail[0]);
                assert(w.len() == 2);
            } else {
                assert(w.len() == 1);
            }
            assert(self.theme_warnings(name).len() == if self.theme_named("ansi"@) is Some { 1int } else { 2int });
            assert(self.theme_named("ansi"@) is None ==> self.theme_warnings(name)[1]
                    == "Unknown theme '"@ + "ansi"@ + "', using default."@);
        }
        if name.len() == 0 {
            reveal_strlit("ansi-light");
            reveal_strlit("ansi-dark");
            assert(!is_deprecated_ansi_theme(name));
        }
    }

    /// A theme that exists and deserializes is found as itself, never
    /// replaced by a fallback.
    pub proof fn law_known_theme_is_itself(&self, name: Seq<char>)
        requires
            self.theme_named(name) is Some,
        ensures
            self.resolved_theme(name) == self.theme_named(name),
    {
    }

    /// A name that is neither a theme nor a deprecated `ansi` name gives the
    /// fallback theme (the default theme when none is set).
    pub proof fn law_unknown_theme_falls_back(&self, name: Seq<char>)
        requires
            self.theme_named(name) is None,
            !is_deprecated_ansi_theme(name),
        ensures
            self.resolved_theme(name) == self.theme_named(self.fallback_theme_name()),
            self.fallback() is None ==> self.resolved_theme(name) == self.theme_named(default_theme_name()),
    {
    }

    /// After `set_fallback_theme(f)`, unknown names give the theme `f`.
    pub proof fn law_fallback_theme_is_used(before: &Self, after: &Self, fallback: Seq<char>, name: Seq<char>)
        requires
            after.fallback() == Some(fallback),
            after.themes_view() == before.themes_view(),
            after.theme_named(name) is None,
            !is_deprecated_ansi_theme(name),
        ensures
            after.resolved_theme(name) == before.theme_named(fallback),
    {
    }

    /// The warnings that looking up `name` gives, in order: none for a theme
    /// that exists and deserializes; for the deprecated `ansi-light` and
    /// `ansi-dark`, that `ansi` is used instead, and, when `ansi` is missing
    /// too, that it is unknown; for any other non-empty name, that it is
    /// unknown and the fallback is used.
    pub open spec fn theme_warnings(&self, name: Seq<char>) -> Seq<Seq<char>> {
        if self.theme_named(name) is Some {
            Seq::empty()
        } else if is_deprecated_ansi_theme(name) {
            seq![deprecated_theme_warning(name)] + if self.theme_named("ansi"@) is Some {
                Seq::<Seq<char>>::empty()
            } else {
                seq![unknown_theme_warning("ansi"@)]
            }
        } else if name.len() > 0 {
            seq![unknown_theme_warning(name)]
        } else {
            Seq::empty()
        }
    }

    /// The warnings that `get_theme(theme)` gives, for the caller to log.
    pub fn get_theme_warnings(&self, theme: &str) -> (r: Vec<String>)
        ensures
            r@.len() == self.theme_warnings(theme@).len(),
            forall|i: int| 0 <= i < r@.len() ==> #[trigger] r@[i]@ == self.theme_warnings(theme@)[i],
    {
        let set = self.get_theme_set();
        let mut warnings: Vec<String> = Vec::new();
        if set.get(theme).is_some() {
            return warnings;
        }
        if str_eq(theme, "ansi-light") || str_eq(theme, "ansi-dark") {
            warnings.push(surround("Theme '", theme, "' is deprecated, using 'ansi' instead."));
            if set.get("ansi").is_none() {
                warnings.push(surround("Unknown theme '", "ansi", "', using default."));
            }
        } else if theme.unicode_len() > 0 {
            warnings.push(surround("Unknown theme '", theme, "', using default."));
        }
        warnings
    }

    /// Looks up a theme by name, falling back to `ansi` for the deprecated
    /// `ansi-light` and `ansi-dark`, and to the fallback theme (or else the
    /// default theme) for unknown names. The theme it falls back to must exist.
    pub fn get_theme(&self, theme: &str) -> (r: &Theme)
        requires
            self.resolved_theme(theme@) is Some,
        ensures
            theme_header(*r) == self.resolved_theme(theme@)->0,
    {
        match self.get_theme_set().get(theme) {
            Some(t) => t,
            None => {
                if str_eq(theme, "ansi-light") || str_eq(theme, "ansi-dark") {
                    match self.get_theme_set().get("ansi") {
                        Some(t) => {
                            return t;
                        },
                        None => {},
                    }
                }
                let fallback = match self.fallback_theme {
                    Some(f) => f,
                    None => Self::default_theme(),
                };
                match self.get_theme_set().get(fallback) {
                    Some(t) => t,
                    None => vstd::pervasive::unreached(),
                }
            },
        }
    }

    /// `get_theme`, or `None` where the theme it would fall back to does not
    /// exist.
    pub fn try_get_theme(&self, theme: &str) -> (r: Option<&Theme>)
        ensures
            r is Some <==> self.resolved_theme(theme@) is Some,
            r matches Some(t) ==> theme_header(*t) == self.resolved_theme(theme@)->0,
    {
        let set = self.get_theme_set();
        let fallback = match self.fallback_theme {
            Some(f) => f,
            None => Self::default_theme(),
        };
        let deprecated = str_eq(theme, "ansi-light") || str_eq(theme, "ansi-dark");
        let available = set.get(theme).is_some() || (deprecated && set.get("ansi").is_some())
            || set.get(fallback).is_some();
        if available {
            Some(self.get_theme(theme))
        } else {
            None
        }
    }

    /// The names of the themes, sorted.
    pub fn themes(&self) -> (r: Vec<&str>)
        ensures
            r@.len() == self.theme_names().len(),
            forall|i: int| 0 <= i < r@.len() ==> #[trigger] r@[i]@ == self.theme_names()[i],
            strictly_sorted(self.theme_names()),
            forall|k: Seq<char>| #[trigger] self.themes_view().contains_key(k) <==> self.theme_names().contains(k),
    {
        self.get_theme_set().themes()
    }
}

} // verus!
