//! The text operations that the library takes from the standard library as
//! they are. Their results are named, not computed: what Unicode says about
//! case and white space is not restated here.

use vstd::prelude::*;

verus! {

/// The text that `str::to_lowercase` returns for `text`: its lowercase
/// equivalent under Unicode's default case conversion. The conversion knows
/// no locale, so a text has one lowercase form.
pub uninterp spec fn lowercase(text: Seq<char>) -> Seq<char>;

/// Calls `str::to_lowercase`. Nothing is proved of the call; the contract
/// only gives its result the name `lowercase`.
#[verifier::external_body]
pub(crate) fn to_lowercase(text: &str) -> (lowered: String)
    ensures
        lowered@ == lowercase(text@),
{
    text.to_lowercase()
}

/// The text that `str::trim` returns for `text`: the text without the white
/// space at its start and at its end, where white space is what Unicode's
/// property `White_Space` says.
pub uninterp spec fn trimmed(text: Seq<char>) -> Seq<char>;

/// Calls `str::trim`. Nothing is proved of the call; the contract only
/// gives its result the name `trimmed`.
#[verifier::external_body]
pub(crate) fn trim<'a>(text: &'a str) -> (inner: &'a str)
    ensures
        inner@ == trimmed(text@),
{
    text.trim()
}

} // verus!
