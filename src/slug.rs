//! The file-safe name of a module, derived from its title.
use vstd::prelude::*;

verus! {

/// What `str::to_lowercase` returns for a string.
pub uninterp spec fn lower_of(s: Seq<char>) -> Seq<char>;

/// What `filenamify::filenamify` returns for a string.
pub uninterp spec fn filenamify_of(s: Seq<char>) -> Seq<char>;

/// `s` with each space replaced by an underscore.
pub open spec fn underscore_spaces(s: Seq<char>) -> Seq<char> {
    s.map_values(|c: char| if c == ' ' { '_' } else { c })
}

/// The slug of a module title: lower-cased, spaces turned to underscores,
/// then made safe as a file name.
pub open spec fn slug_of(title: Seq<char>) -> Seq<char> {
    filenamify_of(underscore_spaces(lower_of(title)))
}

/// Relies on `str::to_lowercase`: the result depends on the characters alone.
#[verifier::external_body]
fn lowercase(s: &str) -> (r: String)
    ensures
        r@ == lower_of(s@),
{
    s.to_lowercase()
}

/// Relies on `str::replace` with a `char` pattern: every space becomes `_`,
/// all other characters are kept in order.
#[verifier::external_body]
fn replace_spaces(s: &str) -> (r: String)
    ensures
        r@ == underscore_spaces(s@),
{
    s.replace(' ', "_")
}

/// Relies on `filenamify::filenamify`: a file-safe name that depends on the
/// characters of its input alone.
#[verifier::external_body]
fn filenamify_str(s: &str) -> (r: String)
    ensures
        r@ == filenamify_of(s@),
{
    filenamify::filenamify(s)
}

/// The slug of `title`.
pub fn slug(title: &str) -> (r: String)
    ensures
        r@ == slug_of(title@),
{
    let lower = lowercase(title);
    let spaced = replace_spaces(lower.as_str());
    filenamify_str(spaced.as_str())
}

} // verus!
