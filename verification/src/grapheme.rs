//! The boundary to Unicode grapheme-cluster segmentation. Everything the
//! rest of the crate knows about segmentation it knows through the named
//! result `graphemes_of` and the facts stated on `split_graphemes`.

use unicode_segmentation::UnicodeSegmentation;
use vstd::prelude::*;

verus! {

/// The sequence of extended grapheme clusters of a string, in order, as
/// Unicode segmentation produces them.
pub uninterp spec fn graphemes_of(s: Seq<char>) -> Seq<Seq<char>>;

/// Relies on `unicode_segmentation::UnicodeSegmentation::graphemes` (with
/// extended clusters selected): it yields consecutive, non-empty substrings
/// of the input whose concatenation is exactly the input, split at grapheme
/// cluster boundaries.
#[verifier::external_body]
pub(crate) fn split_graphemes(s: &str) -> (r: Vec<String>)
    ensures
        r.deep_view() == graphemes_of(s@),
        r.deep_view().flatten() == s@,
        forall|i: int| 0 <= i < r.deep_view().len() ==> #[trigger] r.deep_view()[i].len() > 0,
{
    s.graphemes(true).map(|g| g.to_string()).collect()
}

/// Relies on `String::push`: appends exactly one character.
#[verifier::external_body]
pub(crate) fn push_char(s: &mut String, c: char)
    ensures
        final(s)@ == old(s)@.push(c),
{
    s.push(c);
}

} // verus!
