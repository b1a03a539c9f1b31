//! A set of themes, each kept serialized until it is first asked for.

use vstd::prelude::*;
use once_cell::unsync::OnceCell;
use syntect::highlighting::Theme;
use crate::assets::{theme_from_contents, theme_value, COMPRESS_LAZY_THEMES};
use crate::error::Error;
use crate::decode::{bincode_pairs, decode_pairs, theme_header, ThemeHeader};
use crate::foreign::{new_theme_cell, theme_cell_made_empty};
use crate::text::{seq_lt, str_eq, str_lt, lemma_seq_lt_irreflexive, lemma_seq_lt_total, lemma_seq_lt_transitive};

verus! {

/// The name and author of the theme that a lazy theme's serialized bytes hold.
pub open spec fn lazy_theme_value(serialized: Seq<u8>) -> Option<ThemeHeader> {
    theme_value(serialized, COMPRESS_LAZY_THEMES)
}

/// One theme, serialized, with a cell that keeps it once it is deserialized.
#[derive(Debug)]
pub struct LazyTheme {
    serialized: Vec<u8>,
    deserialized: OnceCell<Theme>,
}

impl LazyTheme {
    /// The serialized (compressed) theme.
    pub closed spec fn serialized(&self) -> Seq<u8> {
        self.serialized@
    }

    /// The cell that keeps the deserialized theme was made empty: nothing is
    /// deserialized until the theme is first asked for.
    pub closed spec fn cell_made_empty(&self) -> bool {
        theme_cell_made_empty(self.deserialized)
    }

    /// The theme cell was made empty.
    #[verifier::type_invariant]
    closed spec fn made_empty(self) -> bool {
        theme_cell_made_empty(self.deserialized)
    }

    /// A theme that is not deserialized yet.
    pub fn new(serialized: Vec<u8>) -> (r: Self)
        ensures
            r.serialized() == serialized@,
            r.cell_made_empty(),
    {
        LazyTheme { serialized, deserialized: new_theme_cell() }
    }

    /// Deserializes the theme.
    fn deserialize(&self) -> (r: Result<Theme, Error>)
        ensures
            r is Ok <==> lazy_theme_value(self.serialized()) is Some,
            r matches Ok(t) ==> theme_header(t) == lazy_theme_value(self.serialized())->0,
    {
        theme_from_contents(self.serialized.as_slice(), "lazy-loaded theme", COMPRESS_LAZY_THEMES)
    }
}

/// `OnceCell::get_or_try_init` on the theme's cell, which fills the cell with
/// `LazyTheme::deserialize` when it is empty. The cell was made empty
/// (required, and kept by the type invariant of `LazyTheme`); it is private to
/// `LazyTheme` and filled nowhere else, so it holds nothing or the theme that
/// the serialized bytes hold. Claimed: the result is that theme (stated by its
/// name and author), or `None` when the bytes do not deserialize. What the
/// cell holds after the call is left unsaid, for the reason given at
/// `theme_cell_made_empty`.
#[verifier::external_body]
fn cached_theme<'a>(theme: &'a LazyTheme) -> (r: Option<&'a Theme>)
    requires
        theme.cell_made_empty(),
    ensures
        r is Some <==> lazy_theme_value(theme.serialized()) is Some,
        r matches Some(t) ==> theme_header(*t) == lazy_theme_value(theme.serialized())->0,
{
    theme.deserialized.get_or_try_init(|| theme.deserialize()).ok()
}

/// Names sorted strictly: increasing, and so without repetition.
pub open spec fn strictly_sorted(names: Seq<Seq<char>>) -> bool {
    forall|i: int, j: int| 0 <= i < j < names.len() ==> seq_lt(#[trigger] names[i], #[trigger] names[j])
}

/// The map that `entries` give when they are inserted in order.
pub open spec fn entries_map(entries: Seq<(Seq<char>, Seq<u8>)>) -> Map<Seq<char>, Seq<u8>>
    decreases entries.len(),
{
    if entries.len() == 0 {
        Map::empty()
    } else {
        entries_map(entries.drop_last()).insert(entries.last().0, entries.last().1)
    }
}

proof fn lemma_entries_map(entries: Seq<(Seq<char>, Seq<u8>)>)
    requires
        forall|i: int, j: int| 0 <= i < j < entries.len() ==> #[trigger] entries[i].0 != #[trigger] entries[j].0,
    ensures
        forall|k: Seq<char>| #[trigger] entries_map(entries).contains_key(k) <==> exists|i: int| 0 <= i < entries.len() && entries[i].0 == k,
        forall|i: int| 0 <= i < entries.len() ==> entries_map(entries)[#[trigger] entries[i].0] == entries[i].1,
    decreases entries.len(),
{
    if entries.len() > 0 {
        let prefix = entries.drop_last();
        assert forall|i: int, j: int| 0 <= i < j < prefix.len() implies #[trigger] prefix[i].0 != #[trigger] prefix[j].0 by {
            assert(prefix[i] == entries[i] && prefix[j] == entries[j]);
        }
        lemma_entries_map(prefix);
        let m = entries_map(entries);
        assert forall|k: Seq<char>| #[trigger] m.contains_key(k) <==> exists|i: int| 0 <= i < entries.len() && entries[i].0 == k by {
            if m.contains_key(k) && k != entries.last().0 {
                assert(entries_map(prefix).contains_key(k));
                let i = choose|i: int| 0 <= i < prefix.len() && prefix[i].0 == k;
                assert(entries[i].0 == k);
            }
            if exists|i: int| 0 <= i < entries.len() && entries[i].0 == k {
                let i = choose|i: int| 0 <= i < entries.len() && entries[i].0 == k;
                if i < entries.len() - 1 {
                    assert(prefix[i].0 == k);
                }
            }
        }
        assert forall|i: int| 0 <= i < entries.len() implies m[#[trigger] entries[i].0] == entries[i].1 by {
            if i < entries.len() - 1 {
                assert(prefix[i] == entries[i]);
                assert(entries[i].0 != entries[entries.len() - 1].0);
            }
        }
    }
}

/// Of entries with one name, the last one counts: an entry that no later
/// entry renames gives its name's bytes, and only names of entries appear.
pub proof fn law_later_entry_wins(entries: Seq<(Seq<char>, Seq<u8>)>, i: int)
    requires
        0 <= i < entries.len(),
        forall|j: int| i < j < entries.len() ==> #[trigger] entries[j].0 != entries[i].0,
    ensures
        entries_map(entries).contains_key(entries[i].0),
        entries_map(entries)[entries[i].0] == entries[i].1,
        forall|k: Seq<char>| #[trigger] entries_map(entries).contains_key(k) ==> exists|j: int|
            0 <= j < entries.len() && entries[j].0 == k,
    decreases entries.len(),
{
    lemma_entries_map_keys(entries);
    if i < entries.len() - 1 {
        let prefix = entries.drop_last();
        assert(prefix[i] == entries[i]);
        assert forall|j: int| i < j < prefix.len() implies #[trigger] prefix[j].0 != prefix[i].0 by {
            assert(prefix[j] == entries[j]);
        }
        law_later_entry_wins(prefix, i);
        assert(entries[entries.len() - 1].0 != entries[i].0);
    }
}

proof fn lemma_entries_map_keys(entries: Seq<(Seq<char>, Seq<u8>)>)
    ensures
        forall|k: Seq<char>| #[trigger] entries_map(entries).contains_key(k) ==> exists|j: int|
            0 <= j < entries.len() && entries[j].0 == k,
    decreases entries.len(),
{
    if entries.len() > 0 {
        let prefix = entries.drop_last();
        lemma_entries_map_keys(prefix);
        assert forall|k: Seq<char>| #[trigger] entries_map(entries).contains_key(k) implies exists|j: int|
            0 <= j < entries.len() && entries[j].0 == k by {
            if k != entries.last().0 {
                assert(entries_map(prefix).contains_key(k));
                let j = choose|j: int| 0 <= j < prefix.len() && prefix[j].0 == k;
                assert(entries[j] == prefix[j]);
            } else {
                assert(entries[entries.len() - 1].0 == k);
            }
        }
    }
}

/// The themes, by name, that bincode's encoding of a theme set (a map from
/// names to serialized themes) holds: its entries inserted in order, so that a
/// later entry replaces an earlier one of the same name.
pub open spec fn bincode_theme_set(bytes: Seq<u8>) -> Option<Map<Seq<char>, Seq<u8>>> {
    match bincode_pairs(bytes) {
        Some(pairs) => Some(entries_map(pairs)),
        None => None,
    }
}

/// A set of themes by name, kept sorted by name, each deserialized on first use.
#[derive(Debug)]
pub struct LazyThemeSet {
    themes: Vec<(String, LazyTheme)>,
}

impl LazyThemeSet {
    /// The names of the themes, in the order in which they are kept.
    pub closed spec fn names(&self) -> Seq<Seq<char>> {
        self.themes@.map_values(|e: (String, LazyTheme)| e.0@)
    }

    closed spec fn entries(&self) -> Seq<(Seq<char>, Seq<u8>)> {
        self.themes@.map_values(|e: (String, LazyTheme)| (e.0@, e.1.serialized()))
    }

    /// Each theme's serialized bytes, by name.
    pub closed spec fn view(&self) -> Map<Seq<char>, Seq<u8>> {
        entries_map(self.entries())
    }

    /// The name and author of the theme that `get(name)` gives: `None` when
    /// there is no such theme or its bytes do not deserialize.
    pub open spec fn lookup(&self, name: Seq<char>) -> Option<ThemeHeader> {
        if self.view().contains_key(name) {
            lazy_theme_value(self.view()[name])
        } else {
            None
        }
    }

    /// The names are kept strictly sorted.
    #[verifier::type_invariant]
    closed spec fn names_sorted(self) -> bool {
        strictly_sorted(self.names())
    }

    proof fn lemma_view(&self)
        requires
            strictly_sorted(self.names()),
        ensures
            forall|k: Seq<char>| #[trigger] self.view().contains_key(k) <==> self.names().contains(k),
            forall|i: int| 0 <= i < self.themes@.len() ==> self.view()[#[trigger] self.themes@[i].0@] == self.themes@[i].1.serialized(),
    {
        let e = self.entries();
        assert forall|i: int, j: int| 0 <= i < j < e.len() implies #[trigger] e[i].0 != #[trigger] e[j].0 by {
            assert(e[i].0 == self.names()[i] && e[j].0 == self.names()[j]);
            lemma_seq_lt_irreflexive(e[i].0);
        }
        lemma_entries_map(e);
        assert forall|k: Seq<char>| #[trigger] self.view().contains_key(k) <==> self.names().contains(k) by {
            if self.view().contains_key(k) {
                let i = choose|i: int| 0 <= i < e.len() && e[i].0 == k;
                assert(self.names()[i] == k);
            }
            if self.names().contains(k) {
                let i = choose|i: int| 0 <= i < self.names().len() && self.names()[i] == k;
                assert(e[i].0 == k);
            }
        }
        assert forall|i: int| 0 <= i < self.themes@.len() implies self.view()[#[trigger] self.themes@[i].0@] == self.themes@[i].1.serialized() by {
            assert(e[i].0 == self.themes@[i].0@);
        }
    }

    /// No themes.
    pub fn new() -> (r: Self)
        ensures
            r.view() == Map::<Seq<char>, Seq<u8>>::empty(),
    {
        let r = LazyThemeSet { themes: Vec::new() };
        assert(r.entries() =~= Seq::<(Seq<char>, Seq<u8>)>::empty());
        r
    }

}

impl Default for LazyThemeSet {
    /// No themes.
    fn default() -> (r: Self)
        ensures
            r.view() == Map::<Seq<char>, Seq<u8>>::empty(),
    {
        LazyThemeSet::new()
    }
}

impl LazyThemeSet {
    /// The position of the first theme whose name does not sort before `name`.
    fn position(&self, name: &str) -> (p: usize)
        ensures
            p <= self.themes@.len(),
            forall|i: int| 0 <= i < p ==> seq_lt(#[trigger] self.names()[i], name@),
            p < self.themes@.len() ==> !seq_lt(self.names()[p as int], name@),
    {
        let mut p: usize = 0;
        while p < self.themes.len()
            invariant
                p <= self.themes@.len(),
                forall|i: int| 0 <= i < p ==> seq_lt(#[trigger] self.names()[i], name@),
            decreases self.themes.len() - p,
        {
            if !str_lt(self.themes[p].0.as_str(), name) {
                return p;
            }
            p = p + 1;
        }
        p
    }

    /// Adds the theme `name` with its serialized bytes, replacing a theme of
    /// that name. Reading `name` afterwards gives the theme that the bytes
    /// hold; reading another name gives what it gave before.
    pub fn insert(&mut self, name: String, serialized: Vec<u8>)
        ensures
            final(self).view() == old(self).view().insert(name@, serialized@),
            final(self).lookup(name@) == lazy_theme_value(serialized@),
            forall|other: Seq<char>| other != name@ ==> #[trigger] final(self).lookup(other) == old(self).lookup(other),
    {
        proof {
            use_type_invariant(&*self);
            self.lemma_view();
        }
        let p = self.position(name.as_str());
        let ghost old_names = self.names();
        let ghost old_entries = self.entries();
        let ghost n = name@;
        let ghost b = serialized@;
        let replace = p < self.themes.len() && str_eq(self.themes[p].0.as_str(), name.as_str());
        let mut themes = Vec::new();
        std::mem::swap(&mut themes, &mut self.themes);
        let entry = (name, LazyTheme::new(serialized));
        if replace {
            themes.remove(p);
            themes.insert(p, entry);
        } else {
            themes.insert(p, entry);
        }
        let ghost new_names = themes@.map_values(|e: (String, LazyTheme)| e.0@);
        let ghost new_entries = themes@.map_values(|e: (String, LazyTheme)| (e.0@, e.1.serialized()));
        proof {
            if replace {
                assert(new_names =~= old_names.update(p as int, n));
                assert(new_entries =~= old_entries.update(p as int, (n, b)));
            } else {
                assert(new_names =~= old_names.insert(p as int, n));
                assert(new_entries =~= old_entries.insert(p as int, (n, b)));
            }
            assert forall|i: int, j: int| 0 <= i < j < new_names.len() implies seq_lt(#[trigger] new_names[i], #[trigger] new_names[j]) by {
                if p < old_names.len() && !replace {
                    lemma_seq_lt_total(old_names[p as int], n);
                }
                if i < p && j < p {
                    assert(new_names[i] == old_names[i] && new_names[j] == old_names[j]);
                } else if i < p && j == p {
                } else if i < p && j > p {
                    if replace {
                        assert(new_names[j] == old_names[j]);
                        assert(seq_lt(old_names[p as int], old_names[j]));
                        lemma_seq_lt_transitive(old_names[i], old_names[p as int], old_names[j]);
                    } else {
                        assert(new_names[j] == old_names[j - 1]);
                        assert(new_names[i] == old_names[i]);
                    }
                } else if i == p {
                    if replace {
                        assert(new_names[j] == old_names[j]);
                        assert(seq_lt(old_names[p as int], old_names[j]));
                    } else {
                        assert(new_names[j] == old_names[j - 1]);
                        if j - 1 > p {
                            lemma_seq_lt_transitive(n, old_names[p as int], old_names[j - 1]);
                        }
                    }
                } else {
                    if replace {
                        assert(new_names[i] == old_names[i] && new_names[j] == old_names[j]);
                    } else {
                        assert(new_names[i] == old_names[i - 1] && new_names[j] == old_names[j - 1]);
                    }
                }
            }
        }
        self.themes = themes;
        proof {
            assert(self.names() == new_names);
            assert(self.entries() == new_entries);
            self.lemma_view();
            let m = old(self).view().insert(n, b);
            assert forall|k: Seq<char>| #[trigger] self.view().contains_key(k) <==> m.contains_key(k) by {
                if self.names().contains(k) && k != n {
                    let i = choose|i: int| 0 <= i < new_names.len() && new_names[i] == k;
                    if replace {
                        assert(old_names[i] == k);
                    } else if i < p {
                        assert(old_names[i] == k);
                    } else {
                        assert(old_names[i - 1] == k);
                    }
                }
                if old_names.contains(k) && k != n {
                    let i = choose|i: int| 0 <= i < old_names.len() && old_names[i] == k;
                    if replace || i < p {
                        assert(new_names[i] == k);
                    } else {
                        assert(new_names[i + 1] == k);
                    }
                }
                assert(new_names[p as int] == n);
            }
            assert forall|k: Seq<char>| #[trigger] self.view().contains_key(k) implies self.view()[k] == m[k] by {
                let i = choose|i: int| 0 <= i < new_names.len() && new_names[i] == k;
                assert(self.view()[self.themes@[i].0@] == self.themes@[i].1.serialized());
                if k == n {
                    lemma_seq_lt_irreflexive(n);
                    if i != p {
                        if i < p {
                            assert(seq_lt(new_names[i], new_names[p as int]));
                        } else {
                            assert(seq_lt(new_names[p as int], new_names[i]));
                        }
                    }
                    assert(new_entries[p as int] == (n, b));
                } else {
                    let oi = if replace || i < p { i } else { i - 1 };
                    assert(old_names[oi] == k);
                    assert(old(self).view()[old(self).themes@[oi].0@] == old(self).themes@[oi].1.serialized());
                    assert(new_entries[i] == old_entries[oi]);
                }
            }
            assert(self.view() =~= m);
        }
    }

    /// The theme called `name`, deserialized on first use: `None` when there
    /// is no such theme or its bytes do not deserialize.
    pub fn get(&self, name: &str) -> (r: Option<&Theme>)
        ensures
            r is Some <==> self.lookup(name@) is Some,
            r matches Some(t) ==> theme_header(*t) == self.lookup(name@)->0,
    {
        proof {
            use_type_invariant(self);
            self.lemma_view();
        }
        let mut i: usize = 0;
        while i < self.themes.len()
            invariant
                i <= self.themes@.len(),
                strictly_sorted(self.names()),
                forall|j: int| 0 <= j < i ==> #[trigger] self.names()[j] != name@,
            decreases self.themes.len() - i,
        {
            proof {
                self.lemma_view();
            }
            if str_eq(self.themes[i].0.as_str(), name) {
                assert(self.names()[i as int] == name@);
                assert(self.themes@[i as int].0@ == name@);
                assert(self.view()[self.themes@[i as int].0@] == self.themes@[i as int].1.serialized());
                assert(self.names().contains(name@));
                let theme = &self.themes[i].1;
                proof {
                    use_type_invariant(theme);
                }
                return cached_theme(theme);
            }
            i = i + 1;
        }
        assert(!self.names().contains(name@));
        None
    }

    /// Reads a theme set from bincode's encoding of it: `None` when the bytes
    /// do not hold one.
    pub fn from_bincode(contents: &[u8]) -> (r: Option<Self>)
        ensures
            r is Some <==> bincode_theme_set(contents@) is Some,
            r matches Some(s) ==> s.view() == bincode_theme_set(contents@)->0,
    {
        let pairs = match decode_pairs(contents) {
            Some(p) => p,
            None => return None,
        };
        let ghost spec_pairs = bincode_pairs(contents@)->0;
        let mut set = LazyThemeSet::new();
        let mut remaining = pairs;
        let n = remaining.len();
        let mut k: usize = 0;
        assert(spec_pairs.take(0) =~= Seq::<(Seq<char>, Seq<u8>)>::empty());
        while k < n
            invariant
                n == spec_pairs.len(),
                k <= n,
                remaining@.len() == n - k,
                forall|i: int| 0 <= i < remaining@.len() ==> {
                    &&& (#[trigger] remaining@[i]).0@ == spec_pairs[k + i].0
                    &&& remaining@[i].1@ == spec_pairs[k + i].1
                },
                set.view() == entries_map(spec_pairs.take(k as int)),
            decreases n - k,
        {
            let ghost before = remaining@;
            let (name, serialized) = remaining.remove(0);
            assert(name@ == spec_pairs[k as int].0 && serialized@ == spec_pairs[k as int].1) by {
                assert(before[0] == (name, serialized));
            }
            assert forall|i: int| 0 <= i < remaining@.len() implies {
                &&& (#[trigger] remaining@[i]).0@ == spec_pairs[k + 1 + i].0
                &&& remaining@[i].1@ == spec_pairs[k + 1 + i].1
            } by {
                assert(remaining@[i] == before[i + 1]);
            }
            set.insert(name, serialized);
            assert(spec_pairs.take(k + 1).drop_last() =~= spec_pairs.take(k as int));
            k = k + 1;
        }
        assert(spec_pairs.take(n as int) =~= spec_pairs);
        Some(set)
    }

    /// The names of the themes, sorted.
    pub fn themes(&self) -> (r: Vec<&str>)
        ensures
            r@.len() == self.names().len(),
            forall|i: int| 0 <= i < r@.len() ==> #[trigger] r@[i]@ == self.names()[i],
            strictly_sorted(self.names()),
            forall|k: Seq<char>| #[trigger] self.view().contains_key(k) <==> self.names().contains(k),
    {
        proof {
            use_type_invariant(self);
            self.lemma_view();
        }
        let mut r: Vec<&str> = Vec::new();
        let mut i: usize = 0;
        while i < self.themes.len()
            invariant
                i <= self.themes@.len(),
                r@.len() == i,
                forall|j: int| 0 <= j < i ==> #[trigger] r@[j]@ == self.names()[j],
            decreases self.themes.len() - i,
        {
            r.push(self.themes[i].0.as_str());
            i = i + 1;
        }
        r
    }
}

} // verus!
