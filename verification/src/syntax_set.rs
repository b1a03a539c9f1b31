//! What the library reads of a syntect `SyntaxSet`, and the syntect lookups it
//! makes on one.

use vstd::prelude::*;
use syntect::parsing::{SyntaxReference, SyntaxSet};
use crate::text::eq_ignore_ascii_case;

verus! {

/// What the library reads of a list of syntaxes: for each, in order, its name
/// and its file extensions.
pub type SyntaxEntries = Seq<(Seq<char>, Seq<Seq<char>>)>;

/// The syntaxes that a syntax set holds, in order: for each, its name and its
/// file extensions.
pub uninterp spec fn syntax_set_entries(set: SyntaxSet) -> Seq<(Seq<char>, Seq<Seq<char>>)>;

/// What the library reads of one syntax: its `name` and `file_extensions`
/// fields.
pub uninterp spec fn syntax_reference_entry(syntax: SyntaxReference) -> (Seq<char>, Seq<Seq<char>>);

/// The position of the last syntax of `entries` called `name`.
pub open spec fn last_named(entries: SyntaxEntries, name: Seq<char>) -> Option<int>
    decreases entries.len(),
{
    if entries.len() == 0 {
        None
    } else if entries.last().0 == name {
        Some(entries.len() - 1)
    } else {
        last_named(entries.drop_last(), name)
    }
}

/// `extensions` hold `extension`, compared without ASCII case.
pub open spec fn lists_extension(extensions: Seq<Seq<char>>, extension: Seq<char>) -> bool {
    exists|j: int| 0 <= j < extensions.len() && eq_ignore_ascii_case(#[trigger] extensions[j], extension)
}

/// The position of the last syntax of `entries` that lists `extension`.
pub open spec fn last_for_extension(entries: SyntaxEntries, extension: Seq<char>) -> Option<int>
    decreases entries.len(),
{
    if entries.len() == 0 {
        None
    } else if lists_extension(entries.last().1, extension) {
        Some(entries.len() - 1)
    } else {
        last_for_extension(entries.drop_last(), extension)
    }
}

/// Some syntax of `entries` is called `name`.
pub open spec fn has_syntax_named(entries: SyntaxEntries, name: Seq<char>) -> bool {
    last_named(entries, name) is Some
}

/// Some syntax of `entries` lists `extension` among its file extensions,
/// compared without ASCII case.
pub open spec fn has_syntax_for_extension(entries: SyntaxEntries, extension: Seq<char>) -> bool {
    last_for_extension(entries, extension) is Some
}

/// The syntax found by name is the last one of that name: a syntax is found
/// exactly when one has the name, and no later syntax has it.
pub proof fn law_found_by_name_is_last(entries: SyntaxEntries, name: Seq<char>)
    ensures
        has_syntax_named(entries, name) <==> exists|i: int| 0 <= i < entries.len() && #[trigger] entries[i].0 == name,
        last_named(entries, name) matches Some(i) ==> {
            &&& 0 <= i < entries.len()
            &&& entries[i].0 == name
            &&& forall|j: int| i < j < entries.len() ==> #[trigger] entries[j].0 != name
        },
    decreases entries.len(),
{
    if entries.len() > 0 {
        let prefix = entries.drop_last();
        law_found_by_name_is_last(prefix, name);
        if entries.last().0 != name {
            assert forall|i: int| 0 <= i < prefix.len() implies prefix[i] == entries[i] by {}
            if exists|i: int| 0 <= i < entries.len() && #[trigger] entries[i].0 == name {
                let i = choose|i: int| 0 <= i < entries.len() && #[trigger] entries[i].0 == name;
                assert(prefix[i].0 == name);
            }
        }
    }
}

/// The syntax found by extension is the last one that lists it: a syntax is
/// found exactly when one lists the extension, and no later syntax lists it.
pub proof fn law_found_by_extension_is_last(entries: SyntaxEntries, extension: Seq<char>)
    ensures
        has_syntax_for_extension(entries, extension) <==> exists|i: int|
            0 <= i < entries.len() && lists_extension(#[trigger] entries[i].1, extension),
        last_for_extension(entries, extension) matches Some(i) ==> {
            &&& 0 <= i < entries.len()
            &&& lists_extension(entries[i].1, extension)
            &&& forall|j: int| i < j < entries.len() ==> !lists_extension(#[trigger] entries[j].1, extension)
        },
    decreases entries.len(),
{
    if entries.len() > 0 {
        let prefix = entries.drop_last();
        law_found_by_extension_is_last(prefix, extension);
        if !lists_extension(entries.last().1, extension) {
            assert forall|i: int| 0 <= i < prefix.len() implies prefix[i] == entries[i] by {}
            if exists|i: int| 0 <= i < entries.len() && lists_extension(#[trigger] entries[i].1, extension) {
                let i = choose|i: int| 0 <= i < entries.len() && lists_extension(#[trigger] entries[i].1, extension);
                assert(prefix[i].1 == entries[i].1);
            }
        }
    }
}

/// `SyntaxSet::find_syntax_by_name`: the last syntax of the set whose name is
/// `name`. Claimed: it finds one exactly when some syntax has that name, and
/// what it finds is the last such syntax.
#[verifier::external_body]
pub(crate) fn find_syntax_by_name<'a>(set: &'a SyntaxSet, name: &str) -> (r: Option<&'a SyntaxReference>)
    ensures
        r is Some <==> last_named(syntax_set_entries(*set), name@) is Some,
        r matches Some(s) ==> syntax_reference_entry(*s) == syntax_set_entries(
            *set,
        )[last_named(syntax_set_entries(*set), name@)->0],
{
    set.find_syntax_by_name(name)
}

/// `SyntaxSet::find_syntax_by_extension`: the last syntax of the set that lists
/// `extension`, compared without ASCII case. Claimed: it finds one exactly when
/// some syntax lists it, and what it finds is the last such syntax.
#[verifier::external_body]
pub(crate) fn find_syntax_by_extension<'a>(set: &'a SyntaxSet, extension: &str) -> (r: Option<&'a SyntaxReference>)
    ensures
        r is Some <==> last_for_extension(syntax_set_entries(*set), extension@) is Some,
        r matches Some(s) ==> syntax_reference_entry(*s) == syntax_set_entries(
            *set,
        )[last_for_extension(syntax_set_entries(*set), extension@)->0],
{
    set.find_syntax_by_extension(extension)
}

/// `SyntaxSet::syntaxes`: the syntaxes of the set, in order, one per entry.
#[verifier::external_body]
pub(crate) fn syntaxes(set: &SyntaxSet) -> (r: &[SyntaxReference])
    ensures
        r@.len() == syntax_set_entries(*set).len(),
        forall|i: int| 0 <= i < r@.len() ==> syntax_reference_entry(#[trigger] r@[i]) == syntax_set_entries(*set)[i],
{
    set.syntaxes()
}

} // verus!
