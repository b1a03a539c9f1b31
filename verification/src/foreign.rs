//! Declarations of the outside types that the library carries through.

use vstd::prelude::*;
use once_cell::unsync::OnceCell;
use syntect::highlighting::Theme;
use syntect::parsing::SyntaxSet;

verus! {

/// `std::io::Error`, carried opaquely in `Error::Io`.
#[verifier::external_type_specification]
#[verifier::external_body]
pub struct ExIoError(std::io::Error);

/// `std::num::ParseIntError`, carried opaquely in `Error::ParseIntError`.
#[verifier::external_type_specification]
#[verifier::external_body]
pub struct ExParseIntError(std::num::ParseIntError);

/// `syntect::LoadingError`, carried opaquely in `Error::SyntectLoadingError`.
#[verifier::external_type_specification]
#[verifier::external_body]
pub struct ExSyntectLoadingError(syntect::LoadingError);

/// `syntect::parsing::SyntaxSet`: a collection of syntax definitions.
#[verifier::external_type_specification]
#[verifier::external_body]
pub struct ExSyntaxSet(syntect::parsing::SyntaxSet);

/// `syntect::parsing::SyntaxReference`: one syntax definition of a set.
#[verifier::external_type_specification]
#[verifier::external_body]
pub struct ExSyntaxReference(syntect::parsing::SyntaxReference);

/// `syntect::highlighting::Theme`: a color theme.
#[verifier::external_type_specification]
#[verifier::external_body]
pub struct ExTheme(syntect::highlighting::Theme);

/// `once_cell::unsync::OnceCell`: a cell that is written at most once.
#[verifier::external_type_specification]
#[verifier::external_body]
#[verifier::reject_recursive_types(T)]
pub struct ExOnceCell<T>(once_cell::unsync::OnceCell<T>);

/// Whether a syntax set cell was empty when it was made. It is a fact about
/// how the cell came to be, so it stays true after the cell is filled: Verus
/// takes a value behind a shared reference to be unchanging, so what a cell
/// holds at a later moment cannot be a function of the cell.
pub uninterp spec fn syntax_cell_made_empty(cell: OnceCell<SyntaxSet>) -> bool;

/// Whether a theme cell was empty when it was made; see
/// `syntax_cell_made_empty`.
pub uninterp spec fn theme_cell_made_empty(cell: OnceCell<Theme>) -> bool;

/// `OnceCell::new` for a syntax set: a cell that holds nothing. Claimed: the
/// cell is made empty.
#[verifier::external_body]
pub(crate) fn new_syntax_set_cell() -> (r: OnceCell<SyntaxSet>)
    ensures
        syntax_cell_made_empty(r),
{
    OnceCell::new()
}

/// `OnceCell::new` for a theme: a cell that holds nothing. Claimed: the cell
/// is made empty.
#[verifier::external_body]
pub(crate) fn new_theme_cell() -> (r: OnceCell<Theme>)
    ensures
        theme_cell_made_empty(r),
{
    OnceCell::new()
}

} // verus!
