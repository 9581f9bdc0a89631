//! Text helpers: equality of string slices, joining of names, and the
//! case conversions that carry a schema identifier into a target language.

use vstd::prelude::*;

verus! {

/// The naming conventions the target languages use.
#[derive(Clone, Copy, Debug, PartialEq, Eq, Structural)]
pub enum CaseStyle {
    /// `UpperCamelCase`: every word capitalised, no delimiter.
    UpperCamel,
    /// `snake_case`: every word lower case, joined by underscores.
    Snake,
}

/// The text that `convert_case` produces for `text` in the given style.
pub uninterp spec fn case_converted(text: Seq<char>, style: CaseStyle) -> Seq<char>;

/// Calls `convert_case::Casing::to_case`. The conversion splits `text` into
/// words at the crate's default boundaries and re-joins them in `style`; it
/// depends on `text` and `style` alone, which is all that is claimed here.
#[verifier::external_body]
pub(crate) fn to_case(text: &str, style: CaseStyle) -> (converted: String)
    ensures
        converted@ == case_converted(text@, style),
{
    let case = match style {
        CaseStyle::UpperCamel => convert_case::Case::UpperCamel,
        CaseStyle::Snake => convert_case::Case::Snake,
    };
    convert_case::Casing::to_case(&text, case)
}

/// Calls `str::eq` of std: two string slices are equal exactly when they
/// hold the same characters.
#[verifier::external_body]
pub(crate) fn str_eq(a: &str, b: &str) -> (same: bool)
    ensures
        same == (a@ == b@),
{
    a == b
}

/// The lower-case form of an ASCII capital; any other character is itself.
pub open spec fn ascii_lower(c: char) -> char {
    if 'A' <= c && c <= 'Z' {
        ((c as u32) + 32) as char
    } else {
        c
    }
}

/// `text` with every ASCII capital replaced by its lower-case form.
pub open spec fn ascii_lowered(text: Seq<char>) -> Seq<char> {
    text.map_values(|c: char| ascii_lower(c))
}

/// Calls `str::to_ascii_lowercase` of std, which maps `A` to `Z` onto `a` to
/// `z` and leaves every other character as it is.
#[verifier::external_body]
pub(crate) fn ascii_lowercase(text: &str) -> (lowered: String)
    ensures
        lowered@ == ascii_lowered(text@),
{
    text.to_ascii_lowercase()
}

/// The parts in order, with `separator` between each two neighbours.
pub open spec fn joined(parts: Seq<Seq<char>>, separator: Seq<char>) -> Seq<char>
    decreases parts.len(),
{
    if parts.len() == 0 {
        Seq::empty()
    } else if parts.len() == 1 {
        parts[0]
    } else {
        joined(parts.drop_last(), separator) + separator + parts.last()
    }
}

/// The characters of each of the slices.
pub open spec fn views_of(parts: Seq<&str>) -> Seq<Seq<char>> {
    parts.map_values(|part: &str| part@)
}

/// Calls `itertools::Itertools::join` on the slices: the result is the empty
/// string for no parts, and otherwise the parts in order with `separator`
/// written between each two of them.
#[verifier::external_body]
pub(crate) fn join(parts: &Vec<&str>, separator: &str) -> (text: String)
    ensures
        text@ == joined(views_of(parts@), separator@),
{
    itertools::Itertools::join(&mut parts.iter(), separator)
}

} // verus!
