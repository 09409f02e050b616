use vstd::prelude::*;

verus! {

/// The characters that `str::to_lowercase` returns for a string that holds
/// `text`.
pub uninterp spec fn lowercase(text: Seq<char>) -> Seq<char>;

/// Lower-cases `text` with `str::to_lowercase` of the standard library.
///
/// Trusted: the result is named [`lowercase`] and nothing more is claimed of
/// it than that it depends on the characters of `text` alone.
#[verifier::external_body]
pub(crate) fn to_lowercase(text: &str) -> (lowered: String)
    ensures
        lowered@ == lowercase(text@),
{
    text.to_lowercase()
}

/// The integer that `hocon::Hocon::as_i64` returns for a string value that
/// holds `text`, or `None` where it reads no integer there.
pub uninterp spec fn parsed_i64(text: Seq<char>) -> Option<i64>;

/// Reads `text` as an integer with `hocon::Hocon::as_i64`, called on a
/// `hocon::Hocon::String` that holds a copy of `text`.
///
/// Trusted: the result is named [`parsed_i64`] and nothing more is claimed
/// of it than that it depends on the characters of `text` alone.
#[verifier::external_body]
pub(crate) fn string_as_i64(text: &str) -> (number: Option<i64>)
    ensures
        number == parsed_i64(text@),
{
    hocon::Hocon::String(text.to_string()).as_i64()
}

} // verus!
