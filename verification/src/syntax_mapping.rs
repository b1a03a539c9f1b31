//! Mappings from file paths to syntaxes: glob rules, and file name suffixes
//! that are ignored when a name is looked up.

use vstd::prelude::*;
use crate::error::Error;
use crate::text::{has_suffix, spec_file_name, file_name, strip_suffix, lemma_file_name_shorter};

verus! {

/// Globs of mappings ignore case.
pub const GLOB_CASE_INSENSITIVE: bool = true;

/// In globs of mappings, `*` and `?` do not match `/`.
pub const GLOB_LITERAL_SEPARATOR: bool = true;

/// Whether `pattern` compiles as a globset glob with the given options, and a
/// `GlobSet` of that glob builds (its matcher compiles within globset's size
/// limit).
pub uninterp spec fn glob_valid(pattern: Seq<char>, case_insensitive: bool, literal_separator: bool) -> bool;

/// Whether the glob `pattern`, compiled with the given options, matches the
/// path `candidate`.
pub uninterp spec fn glob_matches(
    pattern: Seq<char>,
    case_insensitive: bool,
    literal_separator: bool,
    candidate: Seq<char>,
) -> bool;

/// Compiles `pattern` with `globset::GlobBuilder` and the given options, then
/// builds a `globset::GlobSet` of it. Claimed: both succeed exactly when
/// `glob_valid`; on failure the error is globset's message, whose text is not
/// stated.
#[verifier::external_body]
fn compile_glob(pattern: &str, case_insensitive: bool, literal_separator: bool) -> (r: core::result::Result<
    (),
    String,
>)
    ensures
        r is Ok <==> glob_valid(pattern@, case_insensitive, literal_separator),
{
    match globset::GlobBuilder::new(pattern).case_insensitive(case_insensitive).literal_separator(
        literal_separator,
    ).build() {
        Ok(glob) => match globset::GlobSetBuilder::new().add(glob).build() {
            Ok(_) => Ok(()),
            Err(e) => Err(e.to_string()),
        },
        Err(e) => Err(e.to_string()),
    }
}

/// Compiles `pattern` as `compile_glob` does and asks `GlobSet::is_match`
/// whether it matches `candidate`. Claimed: for a pattern that compiles, the
/// answer is `glob_matches`.
#[verifier::external_body]
fn glob_is_match(pattern: &str, case_insensitive: bool, literal_separator: bool, candidate: &str) -> (r: bool)
    ensures
        glob_valid(pattern@, case_insensitive, literal_separator) ==> r == glob_matches(
            pattern@,
            case_insensitive,
            literal_separator,
            candidate@,
        ),
{
    match globset::GlobBuilder::new(pattern).case_insensitive(case_insensitive).literal_separator(
        literal_separator,
    ).build() {
        Ok(glob) => match globset::GlobSetBuilder::new().add(glob).build() {
            Ok(set) => set.is_match(candidate),
            Err(_) => false,
        },
        Err(_) => false,
    }
}

/// Whether `pattern` is a valid glob for a mapping.
pub open spec fn mapping_glob_valid(pattern: Seq<char>) -> bool {
    glob_valid(pattern, GLOB_CASE_INSENSITIVE, GLOB_LITERAL_SEPARATOR)
}

/// Whether the mapping glob `pattern` matches `candidate`.
pub open spec fn mapping_glob_matches(pattern: Seq<char>, candidate: Seq<char>) -> bool {
    glob_matches(pattern, GLOB_CASE_INSENSITIVE, GLOB_LITERAL_SEPARATOR, candidate)
}

/// What a path is mapped to.
#[derive(Debug)]
pub enum MappingTarget {
    /// The syntax of this name.
    MapTo(String),
    /// No syntax: detection gives up.
    MapToUnknown,
    /// No syntax by extension; detection by file name still applies.
    MapExtensionToUnknown,
}

impl Clone for MappingTarget {
    fn clone(&self) -> (r: Self)
        ensures
            r == *self,
    {
        match self {
            MappingTarget::MapTo(s) => MappingTarget::MapTo(s.clone()),
            MappingTarget::MapToUnknown => MappingTarget::MapToUnknown,
            MappingTarget::MapExtensionToUnknown => MappingTarget::MapExtensionToUnknown,
        }
    }
}

/// The first suffix of `suffixes`, in order, that `name` ends with, removed
/// from `name`.
pub open spec fn spec_strip_suffix(suffixes: Seq<Seq<char>>, name: Seq<char>) -> Option<Seq<char>>
    decreases suffixes.len(),
{
    if suffixes.len() == 0 {
        None
    } else if has_suffix(name, suffixes[0]) {
        Some(name.subrange(0, name.len() - suffixes[0].len()))
    } else {
        spec_strip_suffix(suffixes.drop_first(), name)
    }
}

/// Stripping a non-empty suffix shortens the name.
pub proof fn lemma_strip_shortens(suffixes: Seq<Seq<char>>, name: Seq<char>)
    requires
        forall|i: int| 0 <= i < suffixes.len() ==> #[trigger] suffixes[i].len() > 0,
    ensures
        spec_strip_suffix(suffixes, name) matches Some(s) ==> s.len() < name.len(),
    decreases suffixes.len(),
{
    if suffixes.len() > 0 && !has_suffix(name, suffixes[0]) {
        assert forall|i: int| 0 <= i < suffixes.drop_first().len() implies #[trigger] suffixes.drop_first()[i].len() > 0 by {
            assert(suffixes.drop_first()[i] == suffixes[i + 1]);
        }
        lemma_strip_shortens(suffixes.drop_first(), name);
    } else if suffixes.len() > 0 {
        assert(suffixes[0].len() > 0);
    }
}

/// File name suffixes (backup and template endings) that are ignored when a
/// file name is looked up: a name that ends with one is looked up again
/// without it.
#[derive(Debug)]
pub struct IgnoredSuffixes {
    values: Vec<String>,
}

impl IgnoredSuffixes {
    /// The suffixes, in the order in which they are tried.
    pub closed spec fn view(&self) -> Seq<Seq<char>> {
        self.values@.map_values(|s: String| s@)
    }

    /// No suffix is empty: stripping one always shortens a name.
    #[verifier::type_invariant]
    pub open spec fn suffixes_non_empty(self) -> bool {
        forall|i: int| 0 <= i < self.view().len() ==> #[trigger] self.view()[i].len() > 0
    }

    /// No suffixes at all.
    pub fn empty() -> (r: Self)
        ensures
            r.view() == Seq::<Seq<char>>::empty(),
    {
        let values: Vec<String> = Vec::new();
        assert(values@.map_values(|s: String| s@) =~= Seq::<Seq<char>>::empty());
        IgnoredSuffixes { values }
    }

    /// Adds `suffix` after the existing ones. An empty suffix would make a
    /// lookup strip it forever, so it is not accepted.
    pub fn add_suffix(&mut self, suffix: &str)
        requires
            suffix@.len() > 0,
        ensures
            final(self).view() == old(self).view().push(suffix@),
    {
        proof {
            use_type_invariant(&*self);
        }
        let s = String::from_str(suffix);
        let ghost old_values = self.values@;
        let mut values = Vec::new();
        std::mem::swap(&mut values, &mut self.values);
        values.push(s);
        assert(values@ == old_values.push(s));
        assert(values@.map_values(|s: String| s@) =~= old(self).view().push(suffix@));
        self.values = values;
        assert(self.view() =~= old(self).view().push(suffix@));
    }

    /// `file_name` without the first suffix, in order, that it ends with.
    pub fn strip_suffix<'a>(&self, file_name: &'a str) -> (r: Option<&'a str>)
        ensures
            r is Some <==> spec_strip_suffix(self.view(), file_name@) is Some,
            r matches Some(s) ==> spec_strip_suffix(self.view(), file_name@) == Some(s@),
    {
        let mut i: usize = 0;
        assert(self.view().subrange(0, self.view().len() as int) =~= self.view());
        while i < self.values.len()
            invariant
                i <= self.values@.len(),
                spec_strip_suffix(self.view(), file_name@) == spec_strip_suffix(
                    self.view().subrange(i as int, self.view().len() as int),
                    file_name@,
                ),
            decreases self.values.len() - i,
        {
            let ghost rest = self.view().subrange(i as int, self.view().len() as int);
            assert(rest[0] == self.values@[i as int]@);
            match strip_suffix(file_name, self.values[i].as_str()) {
                Some(s) => {
                    return Some(s);
                },
                None => {},
            }
            assert(rest.drop_first() =~= self.view().subrange(i + 1, self.view().len() as int));
            i = i + 1;
        }
        None
    }
}

fn push_suffix(values: &mut Vec<String>, suffix: &str)
    requires
        suffix@.len() > 0,
        forall|i: int| 0 <= i < old(values)@.len() ==> #[trigger] old(values)@[i]@.len() > 0,
    ensures
        final(values)@.map_values(|s: String| s@) == old(values)@.map_values(|s: String| s@).push(suffix@),
        forall|i: int| 0 <= i < final(values)@.len() ==> #[trigger] final(values)@[i]@.len() > 0,
{
    values.push(String::from_str(suffix));
    assert(final(values)@.map_values(|s: String| s@) =~= old(values)@.map_values(|s: String| s@).push(suffix@));
}

/// The suffixes ignored by default, in order.
pub open spec fn default_suffixes() -> Seq<Seq<char>> {
    seq![
        "~"@, ".bak"@, ".old"@, ".orig"@, ".dpkg-dist"@, ".dpkg-old"@, ".ucf-dist"@, ".ucf-new"@,
        ".ucf-old"@, ".rpmnew"@, ".rpmorig"@, ".rpmsave"@, ".in"@,
    ]
}

impl Default for IgnoredSuffixes {
    /// Editor backups, Debian and Red Hat package backups, and build
    /// templates.
    fn default() -> (r: Self)
        ensures
            r.view() == default_suffixes(),
            r.view() == seq![
                "~"@, ".bak"@, ".old"@, ".orig"@, ".dpkg-dist"@, ".dpkg-old"@, ".ucf-dist"@, ".ucf-new"@,
                ".ucf-old"@, ".rpmnew"@, ".rpmorig"@, ".rpmsave"@, ".in"@,
            ],
    {
        proof {
            reveal_strlit("~");
            reveal_strlit(".bak");
            reveal_strlit(".old");
            reveal_strlit(".orig");
            reveal_strlit(".dpkg-dist");
            reveal_strlit(".dpkg-old");
            reveal_strlit(".ucf-dist");
            reveal_strlit(".ucf-new");
            reveal_strlit(".ucf-old");
            reveal_strlit(".rpmnew");
            reveal_strlit(".rpmorig");
            reveal_strlit(".rpmsave");
            reveal_strlit(".in");
        }
        let mut values: Vec<String> = Vec::new();
        push_suffix(&mut values, "~");
        push_suffix(&mut values, ".bak");
        push_suffix(&mut values, ".old");
        push_suffix(&mut values, ".orig");
        push_suffix(&mut values, ".dpkg-dist");
        push_suffix(&mut values, ".dpkg-old");
        push_suffix(&mut values, ".ucf-dist");
        push_suffix(&mut values, ".ucf-new");
        push_suffix(&mut values, ".ucf-old");
        push_suffix(&mut values, ".rpmnew");
        push_suffix(&mut values, ".rpmorig");
        push_suffix(&mut values, ".rpmsave");
        push_suffix(&mut values, ".in");
        assert(values@.map_values(|s: String| s@) =~= default_suffixes());
        IgnoredSuffixes { values }
    }
}

/// Whether the glob `pattern` matches `path` itself or its file name.
pub open spec fn rule_matches(pattern: Seq<char>, path: Seq<char>) -> bool {
    mapping_glob_matches(pattern, path) || (spec_file_name(path) matches Some(f) && mapping_glob_matches(pattern, f))
}

/// The target of the last rule of `rules` that matches `path`.
pub open spec fn last_matching_rule(rules: Seq<(Seq<char>, MappingTarget)>, path: Seq<char>) -> Option<
    MappingTarget,
>
    decreases rules.len(),
{
    if rules.len() == 0 {
        None
    } else if rule_matches(rules.last().0, path) {
        Some(rules.last().1)
    } else {
        last_matching_rule(rules.drop_last(), path)
    }
}

/// What a mapping with `rules` and ignored `suffixes` maps `path` to: the last
/// matching rule; failing that, the mapping of the file name stripped of an
/// ignored suffix.
pub open spec fn mapping_target_for(
    rules: Seq<(Seq<char>, MappingTarget)>,
    suffixes: Seq<Seq<char>>,
    path: Seq<char>,
) -> Option<MappingTarget>
    decreases path.len(),
{
    match last_matching_rule(rules, path) {
        Some(t) => Some(t),
        None => match spec_file_name(path) {
            None => None,
            Some(f) => match spec_strip_suffix(suffixes, f) {
                Some(s) => if s.len() < path.len() {
                    mapping_target_for(rules, suffixes, s)
                } else {
                    None
                },
                None => None,
            },
        },
    }
}

/// A rule added last takes precedence: a path that its glob matches is mapped
/// to its target, whatever the earlier rules say.
pub proof fn law_last_rule_wins(
    rules: Seq<(Seq<char>, MappingTarget)>,
    suffixes: Seq<Seq<char>>,
    pattern: Seq<char>,
    target: MappingTarget,
    path: Seq<char>,
)
    requires
        rule_matches(pattern, path),
    ensures
        mapping_target_for(rules.push((pattern, target)), suffixes, path) == Some(target),
{
    assert(rules.push((pattern, target)).last() == (pattern, target));
}

/// A rule added last changes nothing for paths that its glob does not match
/// (nor, after suffix stripping, their stripped file names).
pub proof fn law_unmatched_rule_is_inert(
    rules: Seq<(Seq<char>, MappingTarget)>,
    pattern: Seq<char>,
    target: MappingTarget,
    path: Seq<char>,
)
    requires
        !rule_matches(pattern, path),
    ensures
        last_matching_rule(rules.push((pattern, target)), path) == last_matching_rule(rules, path),
{
    assert(rules.push((pattern, target)).drop_last() == rules);
}

/// A rule whose glob matches the full path maps that path to its target,
/// even when the glob does not match the file name (`/etc/profile`).
pub proof fn law_full_path_match_maps(
    rules: Seq<(Seq<char>, MappingTarget)>,
    suffixes: Seq<Seq<char>>,
    pattern: Seq<char>,
    target: MappingTarget,
    path: Seq<char>,
)
    requires
        mapping_glob_matches(pattern, path),
    ensures
        last_matching_rule(rules.push((pattern, target)), path) == Some(target),
        mapping_target_for(rules.push((pattern, target)), suffixes, path) == Some(target),
{
    assert(rules.push((pattern, target)).last() == (pattern, target));
}

/// A rule whose glob matches the path's file name maps that path to its
/// target, whatever the directories (`*.rs` maps `src/main.rs`).
pub proof fn law_file_name_match_maps(
    rules: Seq<(Seq<char>, MappingTarget)>,
    suffixes: Seq<Seq<char>>,
    pattern: Seq<char>,
    target: MappingTarget,
    path: Seq<char>,
    name: Seq<char>,
)
    requires
        spec_file_name(path) == Some(name),
        mapping_glob_matches(pattern, name),
    ensures
        last_matching_rule(rules.push((pattern, target)), path) == Some(target),
        mapping_target_for(rules.push((pattern, target)), suffixes, path) == Some(target),
{
    assert(rules.push((pattern, target)).last() == (pattern, target));
}

/// A rule whose glob matches neither the path nor its file name changes
/// nothing that the rules give for the path.
pub proof fn law_rule_matching_neither_is_inert(
    rules: Seq<(Seq<char>, MappingTarget)>,
    pattern: Seq<char>,
    target: MappingTarget,
    path: Seq<char>,
)
    requires
        !mapping_glob_matches(pattern, path),
        forall|name: Seq<char>| spec_file_name(path) == Some(name) ==> !mapping_glob_matches(pattern, name),
    ensures
        last_matching_rule(rules.push((pattern, target)), path) == last_matching_rule(rules, path),
{
    assert(rules.push((pattern, target)).drop_last() == rules);
}

/// A path that no rule matches is mapped as its file name stripped of the
/// first ignored suffix it ends with (`profile.bak` as `profile`).
pub proof fn law_unmatched_path_retries_stripped_name(
    rules: Seq<(Seq<char>, MappingTarget)>,
    suffixes: Seq<Seq<char>>,
    path: Seq<char>,
    name: Seq<char>,
    stripped: Seq<char>,
)
    requires
        forall|i: int| 0 <= i < suffixes.len() ==> #[trigger] suffixes[i].len() > 0,
        forall|i: int| 0 <= i < rules.len() ==> !mapping_glob_matches(#[trigger] rules[i].0, path),
        forall|i: int| 0 <= i < rules.len() ==> !mapping_glob_matches(#[trigger] rules[i].0, name),
        spec_file_name(path) == Some(name),
        spec_strip_suffix(suffixes, name) == Some(stripped),
    ensures
        mapping_target_for(rules, suffixes, path) == mapping_target_for(rules, suffixes, stripped),
{
    lemma_no_rule_matches(rules, path, name);
    lemma_strip_shortens(suffixes, name);
    lemma_file_name_shorter(path);
}

proof fn lemma_no_rule_matches(rules: Seq<(Seq<char>, MappingTarget)>, path: Seq<char>, name: Seq<char>)
    requires
        forall|i: int| 0 <= i < rules.len() ==> !mapping_glob_matches(#[trigger] rules[i].0, path),
        forall|i: int| 0 <= i < rules.len() ==> !mapping_glob_matches(#[trigger] rules[i].0, name),
        spec_file_name(path) == Some(name),
    ensures
        last_matching_rule(rules, path) is None,
    decreases rules.len(),
{
    if rules.len() > 0 {
        let prefix = rules.drop_last();
        assert forall|i: int| 0 <= i < prefix.len() implies !mapping_glob_matches(#[trigger] prefix[i].0, path)
            && !mapping_glob_matches(prefix[i].0, name) by {
            assert(prefix[i] == rules[i]);
        }
        assert(rules.last() == rules[rules.len() - 1]);
        lemma_no_rule_matches(prefix, path, name);
    }
}

/// `s` ends with `suffix` exactly when it is some text followed by `suffix`.
pub proof fn law_has_suffix_means_ends_with(s: Seq<char>, suffix: Seq<char>)
    ensures
        has_suffix(s, suffix) <==> exists|p: Seq<char>| s == #[trigger] (p + suffix),
        has_suffix(s, suffix) ==> s == s.subrange(0, s.len() - suffix.len()) + suffix,
{
    if has_suffix(s, suffix) {
        assert(s =~= s.subrange(0, s.len() - suffix.len()) + suffix);
    }
    if exists|p: Seq<char>| s == #[trigger] (p + suffix) {
        let p = choose|p: Seq<char>| s == #[trigger] (p + suffix);
        assert(s.subrange(s.len() - suffix.len(), s.len() as int) =~= suffix);
    }
}

/// Stripping removes the first suffix, in the listed order, that the name
/// ends with, and nothing else: `name + suffix` gives back `name` when the
/// name with that suffix ends with no earlier-listed one.
pub proof fn law_strip_removes_first_listed_suffix(suffixes: Seq<Seq<char>>, name: Seq<char>, i: int)
    requires
        0 <= i < suffixes.len(),
        forall|j: int| 0 <= j < i ==> !has_suffix(name + suffixes[i], #[trigger] suffixes[j]),
    ensures
        spec_strip_suffix(suffixes, name + suffixes[i]) == Some(name),
    decreases i,
{
    let s = name + suffixes[i];
    if i == 0 {
        assert(s.subrange(s.len() - suffixes[0].len(), s.len() as int) =~= suffixes[0]);
        assert(s.subrange(0, s.len() - suffixes[0].len()) =~= name);
    } else {
        assert(!has_suffix(s, suffixes[0]));
        let rest = suffixes.drop_first();
        assert(rest[i - 1] == suffixes[i]);
        assert forall|j: int| 0 <= j < i - 1 implies !has_suffix(name + rest[i - 1], #[trigger] rest[j]) by {
            assert(rest[j] == suffixes[j + 1]);
        }
        law_strip_removes_first_listed_suffix(rest, name, i - 1);
    }
}

/// A name that ends with none of the suffixes is not stripped.
pub proof fn law_strip_needs_a_listed_suffix(suffixes: Seq<Seq<char>>, name: Seq<char>)
    requires
        forall|j: int| 0 <= j < suffixes.len() ==> !has_suffix(name, #[trigger] suffixes[j]),
    ensures
        spec_strip_suffix(suffixes, name) is None,
    decreases suffixes.len(),
{
    if suffixes.len() > 0 {
        let rest = suffixes.drop_first();
        assert forall|j: int| 0 <= j < rest.len() implies !has_suffix(name, #[trigger] rest[j]) by {
            assert(rest[j] == suffixes[j + 1]);
        }
        law_strip_needs_a_listed_suffix(rest, name);
    }
}

/// By default, editor and package backups are ignored: any name followed by
/// `.bak`, `.old` or `~` is looked up as the name itself.
pub proof fn law_default_suffixes_strip_backups(name: Seq<char>)
    ensures
        spec_strip_suffix(default_suffixes(), name + "~"@) == Some(name),
        spec_strip_suffix(default_suffixes(), name + ".bak"@) == Some(name),
        spec_strip_suffix(default_suffixes(), name + ".old"@) == Some(name),
{
    reveal_strlit("~");
    reveal_strlit(".bak");
    reveal_strlit(".old");
    let d = default_suffixes();
    law_strip_removes_first_listed_suffix(d, name, 0);
    let b = name + ".bak"@;
    assert(b[b.len() - 1] == 'k');
    assert(!has_suffix(b, d[0])) by {
        if has_suffix(b, d[0]) {
            assert(b.subrange(b.len() - 1, b.len() as int)[0] == b[b.len() - 1]);
        }
    }
    law_strip_removes_first_listed_suffix(d, name, 1);
    let o = name + ".old"@;
    assert(o[o.len() - 1] == 'd');
    assert(!has_suffix(o, d[0])) by {
        if has_suffix(o, d[0]) {
            assert(o.subrange(o.len() - 1, o.len() as int)[0] == o[o.len() - 1]);
        }
    }
    assert(!has_suffix(o, d[1])) by {
        if has_suffix(o, d[1]) {
            assert(o.subrange(o.len() - 4, o.len() as int)[1] == o[o.len() - 3]);
        }
    }
    law_strip_removes_first_listed_suffix(d, name, 2);
}

/// Glob rules that map paths to syntaxes, with the file name suffixes that are
/// ignored in lookups.
#[derive(Debug)]
pub struct SyntaxMapping {
    mappings: Vec<(String, MappingTarget)>,
    pub(crate) ignored_suffixes: IgnoredSuffixes,
}

impl SyntaxMapping {
    /// The rules in the order in which they were inserted: pattern and target.
    pub closed spec fn rules(&self) -> Seq<(Seq<char>, MappingTarget)> {
        self.mappings@.map_values(|m: (String, MappingTarget)| (m.0@, m.1))
    }

    /// The ignored suffixes, in order.
    pub closed spec fn suffixes(&self) -> Seq<Seq<char>> {
        self.ignored_suffixes.view()
    }

    /// Every pattern compiles as a glob.
    #[verifier::type_invariant]
    closed spec fn patterns_valid(self) -> bool {
        forall|i: int| 0 <= i < self.mappings@.len() ==> mapping_glob_valid(#[trigger] self.mappings@[i].0@)
    }

    /// What this mapping maps `path` to.
    pub open spec fn target_for(&self, path: Seq<char>) -> Option<MappingTarget> {
        mapping_target_for(self.rules(), self.suffixes(), path)
    }

    /// No rules, and the default ignored suffixes.
    pub fn empty() -> (r: Self)
        ensures
            r.rules() == Seq::<(Seq<char>, MappingTarget)>::empty(),
            r.suffixes() == default_suffixes(),
    {
        let r = SyntaxMapping { mappings: Vec::new(), ignored_suffixes: IgnoredSuffixes::default() };
        assert(r.rules() =~= Seq::<(Seq<char>, MappingTarget)>::empty());
        r
    }

    /// Adds the rule `from` → `to`, which takes precedence over the earlier
    /// ones. Fails, changing nothing, when `from` is not a valid glob.
    pub fn insert(&mut self, from: &str, to: MappingTarget) -> (r: core::result::Result<(), Error>)
        ensures
            r is Ok <==> mapping_glob_valid(from@),
            r is Ok ==> final(self).rules() == old(self).rules().push((from@, to)),
            r is Err ==> final(self).rules() == old(self).rules(),
            r matches Err(e) ==> e is GlobParsingError,
            final(self).suffixes() == old(self).suffixes(),
    {
        proof {
            use_type_invariant(&*self);
        }
        match compile_glob(from, GLOB_CASE_INSENSITIVE, GLOB_LITERAL_SEPARATOR) {
            Ok(()) => {
                let ghost old_mappings = self.mappings@;
                let mut mappings = Vec::new();
                std::mem::swap(&mut mappings, &mut self.mappings);
                mappings.push((String::from_str(from), to));
                assert(forall|i: int| 0 <= i < old_mappings.len() ==> mappings@[i] == old_mappings[i]);
                assert forall|i: int| 0 <= i < mappings@.len() implies mapping_glob_valid(#[trigger] mappings@[i].0@) by {
                    if i < old_mappings.len() {
                        assert(mappings@[i] == old_mappings[i]);
                    }
                }
                self.mappings = mappings;
                assert(self.rules() =~= old(self).rules().push((from@, to)));
                Ok(())
            },
            Err(message) => Err(Error::GlobParsingError(message)),
        }
    }

    /// The ignored suffixes.
    pub fn ignored_suffixes(&self) -> (r: &IgnoredSuffixes)
        ensures
            r.view() == self.suffixes(),
    {
        &self.ignored_suffixes
    }

    /// Adds an ignored suffix after the existing ones.
    pub fn insert_ignored_suffix(&mut self, suffix: &str)
        requires
            suffix@.len() > 0,
        ensures
            final(self).suffixes() == old(self).suffixes().push(suffix@),
            final(self).rules() == old(self).rules(),
    {
        proof {
            use_type_invariant(&*self);
        }
        let mut suffixes = IgnoredSuffixes::empty();
        std::mem::swap(&mut suffixes, &mut self.ignored_suffixes);
        suffixes.add_suffix(suffix);
        self.ignored_suffixes = suffixes;
    }

    /// The target of the last rule that matches `path` (or its file name).
    fn last_match(&self, path: &str) -> (r: Option<MappingTarget>)
        ensures
            r == last_matching_rule(self.rules(), path@),
    {
        proof {
            use_type_invariant(self);
        }
        let name = file_name(path);
        let mut k: usize = self.mappings.len();
        assert(self.rules().subrange(0, k as int) =~= self.rules());
        while k > 0
            invariant
                k <= self.mappings@.len(),
                name is Some <==> spec_file_name(path@) is Some,
                name matches Some(f) ==> spec_file_name(path@) == Some(f@),
                forall|i: int| 0 <= i < self.mappings@.len() ==> mapping_glob_valid(#[trigger] self.mappings@[i].0@),
                last_matching_rule(self.rules(), path@) == last_matching_rule(self.rules().subrange(0, k as int), path@),
            decreases k,
        {
            let ghost prefix = self.rules().subrange(0, k as int);
            let pattern = self.mappings[k - 1].0.as_str();
            assert(prefix.last() == (pattern@, self.mappings@[k - 1].1));
            assert(mapping_glob_valid(self.mappings@[k - 1].0@));
            let mut hit = glob_is_match(pattern, GLOB_CASE_INSENSITIVE, GLOB_LITERAL_SEPARATOR, path);
            if !hit {
                match name {
                    Some(f) => {
                        hit = glob_is_match(pattern, GLOB_CASE_INSENSITIVE, GLOB_LITERAL_SEPARATOR, f);
                    },
                    None => {},
                }
            }
            if hit {
                return Some(self.mappings[k - 1].1.clone());
            }
            assert(prefix.drop_last() =~= self.rules().subrange(0, k - 1));
            k = k - 1;
        }
        None
    }

    /// What this mapping maps `path` to: the target of the last rule that
    /// matches the path or its file name; failing that, what the file name
    /// without an ignored suffix maps to.
    pub fn get_syntax_for(&self, path: &str) -> (r: Option<MappingTarget>)
        ensures
            r == self.target_for(path@),
        decreases path@.len(),
    {
        match self.last_match(path) {
            Some(t) => Some(t),
            None => match file_name(path) {
                None => None,
                Some(f) => match self.ignored_suffixes.strip_suffix(f) {
                    Some(s) => {
                        proof {
                            use_type_invariant(&self.ignored_suffixes);
                            lemma_strip_shortens(self.suffixes(), f@);
                            lemma_file_name_shorter(path@);
                        }
                        self.get_syntax_for(s)
                    },
                    None => None,
                },
            },
        }
    }
}

} // verus!
