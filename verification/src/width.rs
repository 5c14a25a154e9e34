//! Visible-width measurement. A dashboard line may be wrapped in ANSI SGR
//! escape sequences and may contain non-ASCII glyphs, so the number of
//! terminal columns it occupies is: strip the escape sequences, then measure
//! the remaining text by Unicode display-width rules. Both steps are done by
//! outside crates; their results are named and characterized here.

use vstd::prelude::*;

use crate::style::{all_simple, line_ansi, line_plain, line_wf, Frag};

verus! {

/// The number of terminal columns a plain (escape-free) text occupies, as
/// computed by `unicode_width::UnicodeWidthStr::width`.
pub uninterp spec fn display_width_of(s: Seq<char>) -> nat;

/// The text that remains after `strip_ansi_escapes::strip` removes ANSI
/// escape sequences (decoded back from UTF-8 bytes).
pub uninterp spec fn stripped_of(s: Seq<char>) -> Seq<char>;

/// The visible width of a possibly styled string: the display width of its
/// escape-stripped text.
pub open spec fn visible_width(s: Seq<char>) -> nat {
    display_width_of(stripped_of(s))
}

/// Relies on `unicode_width::UnicodeWidthStr::width`: the width of a string
/// is the sum of the widths of its characters except around a listed set of
/// ligature-forming sequences ("\r\n", emoji presentation, joiner and
/// modifier sequences, and some script-specific ligatures). Every such
/// sequence contains a character that is neither printable ASCII nor one of
/// the dashboard's drawing symbols, and each of those characters occupies
/// one column on its own, so a string of simple characters alone is as wide
/// as it is long.
#[verifier::external_body]
pub(crate) fn measure_width(s: &str) -> (r: usize)
    ensures
        r as nat == display_width_of(s@),
        all_simple(s@) ==> r as nat == s@.len(),
{
    unicode_width::UnicodeWidthStr::width(s)
}

/// Relies on `strip_ansi_escapes::strip`: a ground-state terminal-stream
/// parser that forwards printable characters and drops complete escape
/// sequences. A stream built from well-formed fragments — printable text,
/// each fragment either bare or wrapped in one complete SGR open sequence
/// and one complete reset sequence — is returned with exactly the fragment
/// texts remaining. The byte/text conversions at the edges are UTF-8.
#[verifier::external_body]
pub(crate) fn strip_styling(s: &str) -> (r: String)
    ensures
        r@ == stripped_of(s@),
        forall|frags: Seq<Frag>| line_wf(frags) && s@ == #[trigger] line_ansi(frags) ==> r@
            == line_plain(frags),
{
    let stripped = strip_ansi_escapes::strip(s.as_bytes());
    String::from_utf8_lossy(&stripped).into_owned()
}

/// The uppercase form of a text, as computed by `str::to_uppercase`
/// (full Unicode case mapping; the result depends on the characters alone).
pub uninterp spec fn upper_of(s: Seq<char>) -> Seq<char>;

/// Relies on `str::to_uppercase`: the Unicode uppercase mapping of the
/// input, a function of the input characters alone.
#[verifier::external_body]
pub(crate) fn to_upper(s: &str) -> (r: String)
    ensures
        r@ == upper_of(s@),
{
    s.to_uppercase()
}

/// The visible width of a possibly styled string: how many terminal columns
/// it occupies once its ANSI styling sequences are stripped. Styling never
/// changes the result: for any well-formed fragment decomposition of the
/// input, the answer is the display width of the fragment texts alone.
pub fn visible_len(s: &str) -> (r: usize)
    ensures
        r as nat == visible_width(s@),
        forall|frags: Seq<Frag>| line_wf(frags) && s@ == #[trigger] line_ansi(frags) ==> r as nat
            == display_width_of(line_plain(frags)),
        forall|frags: Seq<Frag>|
            line_wf(frags) && s@ == #[trigger] line_ansi(frags) && all_simple(line_plain(frags))
                ==> r as nat == line_plain(frags).len(),
{
    let stripped = strip_styling(s);
    measure_width(stripped.as_str())
}

} // verus!
