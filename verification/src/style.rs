//! Terminal styling: a fragment of text paired with one style, rendered by
//! wrapping the text in an SGR escape sequence. A whole dashboard line is a
//! sequence of fragments, and its "plain" form (what a terminal displays) is
//! the concatenation of the fragment texts alone.

use vstd::prelude::*;

verus! {

/// One rendering style: either no styling at all, or one SGR attribute
/// combination.
#[derive(Debug, Clone, Copy, PartialEq, Eq, Structural)]
pub enum Style {
    Plain,
    Bold,
    Dimmed,
    /// Bold bright cyan, used for the dashboard title.
    Title,
    Red,
    Green,
    Yellow,
    Cyan,
    Blue,
    Magenta,
    White,
}

/// The SGR parameter bytes for a style (empty for `Plain`).
pub open spec fn sgr_params(s: Style) -> Seq<char> {
    match s {
        Style::Plain => Seq::<char>::empty(),
        Style::Bold => "1"@,
        Style::Dimmed => "2"@,
        Style::Title => "1;96"@,
        Style::Red => "31"@,
        Style::Green => "32"@,
        Style::Yellow => "33"@,
        Style::Cyan => "36"@,
        Style::Blue => "34"@,
        Style::Magenta => "35"@,
        Style::White => "37"@,
    }
}

/// The opening escape sequence for a non-plain style.
pub open spec fn sgr_open(s: Style) -> Seq<char> {
    seq!['\u{1b}', '['] + sgr_params(s) + seq!['m']
}

/// The reset sequence that closes every styled fragment.
pub open spec fn sgr_close() -> Seq<char> {
    seq!['\u{1b}', '[', '0', 'm']
}

/// The mathematical model of one fragment: its text and its style.
#[verifier::ext_equal]
pub ghost struct Frag {
    pub text: Seq<char>,
    pub style: Style,
}

/// How one fragment appears in the byte stream sent to the terminal.
pub open spec fn frag_ansi(f: Frag) -> Seq<char> {
    if f.style == Style::Plain {
        f.text
    } else {
        sgr_open(f.style) + f.text + sgr_close()
    }
}

/// The stream form of a whole line of fragments.
pub open spec fn line_ansi(frags: Seq<Frag>) -> Seq<char>
    decreases frags.len(),
{
    if frags.len() == 0 {
        Seq::<char>::empty()
    } else {
        frag_ansi(frags[0]) + line_ansi(frags.drop_first())
    }
}

/// The plain (displayed) form of a whole line: the texts alone.
pub open spec fn line_plain(frags: Seq<Frag>) -> Seq<char>
    decreases frags.len(),
{
    if frags.len() == 0 {
        Seq::<char>::empty()
    } else {
        frags[0].text + line_plain(frags.drop_first())
    }
}

/// A character that passes through an ANSI stream untouched: at or above the
/// space, and not the delete or a C1 control.
pub open spec fn printable_char(c: char) -> bool {
    &&& c >= ' '
    &&& c != '\u{7f}'
    &&& !('\u{80}' <= c && c <= '\u{9f}')
}

/// Fragment text may hold only printable characters, so that rendered
/// fragments never interfere with the escape sequences around them.
pub open spec fn frag_wf(f: Frag) -> bool {
    forall|i: int| 0 <= i < f.text.len() ==> printable_char(#[trigger] f.text[i])
}

/// Every fragment of the line is well-formed.
pub open spec fn line_wf(frags: Seq<Frag>) -> bool {
    forall|i: int| 0 <= i < frags.len() ==> frag_wf(#[trigger] frags[i])
}

/// A character whose display width is one column in every context the
/// dashboard produces: printable ASCII, or one of the handful of symbols the
/// dashboard draws with. None of these characters can begin or extend a
/// multi-character width ligature.
pub open spec fn simple_char(c: char) -> bool {
    ||| (' ' <= c && c <= '~')
    ||| c == '█'
    ||| c == '░'
    ||| c == '●'
    ||| c == '✓'
    ||| c == '↑'
    ||| c == '↓'
    ||| c == '✦'
}

/// Every character of the sequence is simple.
pub open spec fn all_simple(s: Seq<char>) -> bool {
    forall|i: int| 0 <= i < s.len() ==> simple_char(#[trigger] s[i])
}

/// One styled fragment of a dashboard line.
pub struct Segment {
    pub text: String,
    pub style: Style,
}

impl View for Segment {
    type V = Frag;

    open spec fn view(&self) -> Frag {
        Frag { text: self.text@, style: self.style }
    }
}

/// The fragment models of a vector of segments.
pub open spec fn frags_of(segs: Seq<Segment>) -> Seq<Frag> {
    Seq::new(segs.len(), |i: int| segs[i]@)
}

impl Segment {
    /// A fragment with no styling.
    pub fn plain(text: String) -> (r: Segment)
        ensures
            r@ == (Frag { text: text@, style: Style::Plain }),
    {
        Segment { text, style: Style::Plain }
    }

    /// A fragment wrapped in the SGR sequence for `style`.
    pub fn styled(text: String, style: Style) -> (r: Segment)
        ensures
            r@ == (Frag { text: text@, style }),
    {
        Segment { text, style }
    }
}

fn sgr_open_str(style: Style) -> (r: &'static str)
    requires
        style != Style::Plain,
    ensures
        r@ == sgr_open(style),
{
    proof {
        reveal_strlit("\u{1b}[1m");
        reveal_strlit("\u{1b}[2m");
        reveal_strlit("\u{1b}[1;96m");
        reveal_strlit("\u{1b}[31m");
        reveal_strlit("\u{1b}[32m");
        reveal_strlit("\u{1b}[33m");
        reveal_strlit("\u{1b}[36m");
        reveal_strlit("\u{1b}[34m");
        reveal_strlit("\u{1b}[35m");
        reveal_strlit("\u{1b}[37m");
        reveal_strlit("1");
        reveal_strlit("2");
        reveal_strlit("1;96");
        reveal_strlit("31");
        reveal_strlit("32");
        reveal_strlit("33");
        reveal_strlit("36");
        reveal_strlit("34");
        reveal_strlit("35");
        reveal_strlit("37");
    }
    let r = match style {
        Style::Plain => "",
        Style::Bold => "\u{1b}[1m",
        Style::Dimmed => "\u{1b}[2m",
        Style::Title => "\u{1b}[1;96m",
        Style::Red => "\u{1b}[31m",
        Style::Green => "\u{1b}[32m",
        Style::Yellow => "\u{1b}[33m",
        Style::Cyan => "\u{1b}[36m",
        Style::Blue => "\u{1b}[34m",
        Style::Magenta => "\u{1b}[35m",
        Style::White => "\u{1b}[37m",
    };
    proof {
        assert(r@ =~= sgr_open(style));
    }
    r
}

/// Append the stream form of one segment to `out`.
pub fn push_segment(out: &mut String, seg: &Segment)
    ensures
        final(out)@ == old(out)@ + frag_ansi(seg@),
{
    match seg.style {
        Style::Plain => {
            out.append(seg.text.as_str());
        },
        _ => {
            out.append(sgr_open_str(seg.style));
            out.append(seg.text.as_str());
            out.append("\u{1b}[0m");
            proof {
                reveal_strlit("\u{1b}[0m");
                assert("\u{1b}[0m"@ =~= sgr_close());
                assert(out@ =~= old(out)@ + frag_ansi(seg@));
            }
        },
    }
}

} // verus!
