use vstd::prelude::*;

use unicode_segmentation::UnicodeSegmentation;
use unicode_width::UnicodeWidthStr;

verus! {

/// The extended grapheme clusters of a string, in order, as computed by
/// `unicode_segmentation` (UAX #29).
pub uninterp spec fn extended_graphemes(s: Seq<char>) -> Seq<Seq<char>>;

/// The displayed width in terminal columns of a string, as computed by
/// `unicode_width` (UAX #11, ambiguous characters one column wide).
pub uninterp spec fn display_width(s: Seq<char>) -> usize;

/// Calls `UnicodeSegmentation::graphemes(s, true)` and collects the clusters.
/// Trusted: the clusters returned are `extended_graphemes(s@)`, a function of
/// the string alone; what the clusters are is left to the crate.
#[verifier::external_body]
pub(crate) fn graphemes(s: &str) -> (clusters: Vec<String>)
    ensures
        clusters@.len() == extended_graphemes(s@).len(),
        forall|i: int| 0 <= i < clusters@.len() ==> #[trigger] clusters@[i]@ == extended_graphemes(s@)[i],
{
    UnicodeSegmentation::graphemes(s, true).map(|g| g.to_string()).collect()
}

/// Calls `UnicodeWidthStr::width(s)`.
/// Trusted: the width returned is `display_width(s@)`, a function of the
/// string alone; its value is left to the crate.
#[verifier::external_body]
pub(crate) fn str_width(s: &str) -> (width: usize)
    ensures
        width == display_width(s@),
{
    UnicodeWidthStr::width(s)
}

} // verus!
