//! The layout engine: fixed-width dashboard lines. Every primitive takes the
//! total column width and produces a string whose visible width (after ANSI
//! stripping, by Unicode display-width rules) is exactly that width whenever
//! the content fits; content that is too wide is kept whole, never truncated.

use vstd::prelude::*;

use crate::api::{plan_tag, CreditDetails, PlanType, RateLimitDetails, UsageResponse, WindowSnapshot};
use crate::numfmt::{dec_digits, dec_signed, digit_char, i64_to_dec, money_text, money_to_dec, u64_to_dec};
use crate::pace::{
    clamped_used, delta_text, eta_text, projectable, projected_pace, stage_description_text,
    stage_emoji_text, Stage, UsagePace,
};
use crate::style::{
    all_simple, frag_ansi, frags_of, line_ansi, line_plain, line_wf, frag_wf, printable_char,
    push_segment, simple_char, Frag, Segment, Style,
};
use crate::width::{
    display_width_of, measure_width, to_upper, upper_of, visible_len, visible_width,
};

verus! {

/// The dashboard's total width in terminal columns.
pub const TOTAL_WIDTH: usize = 74;

/// `n` copies of one character.
pub open spec fn repeat_char(c: char, n: nat) -> Seq<char> {
    Seq::new(n, |i: int| c)
}

/// Saturating subtraction on mathematical integers.
pub open spec fn sat_sub(a: int, b: int) -> int {
    if a >= b {
        a - b
    } else {
        0
    }
}

pub proof fn lemma_line_ansi_push(frags: Seq<Frag>, f: Frag)
    ensures
        line_ansi(frags.push(f)) == line_ansi(frags) + frag_ansi(f),
        line_plain(frags.push(f)) == line_plain(frags) + f.text,
    decreases frags.len(),
{
    if frags.len() == 0 {
        assert(frags =~= Seq::<Frag>::empty());
        assert(line_ansi(Seq::<Frag>::empty()) =~= Seq::<char>::empty());
        assert(line_plain(Seq::<Frag>::empty()) =~= Seq::<char>::empty());
        assert(frags.push(f)[0] == f);
        assert(frags.push(f).drop_first() =~= Seq::<Frag>::empty());
        assert(line_ansi(frags.push(f)) =~= line_ansi(frags) + frag_ansi(f));
        assert(line_plain(frags.push(f)) =~= line_plain(frags) + f.text);
    } else {
        assert(frags.push(f).drop_first() =~= frags.drop_first().push(f));
        lemma_line_ansi_push(frags.drop_first(), f);
        assert(line_ansi(frags.push(f)) =~= line_ansi(frags) + frag_ansi(f));
        assert(line_plain(frags.push(f)) =~= line_plain(frags) + f.text);
    }
}

pub proof fn lemma_line_ansi_prepend(f: Frag, frags: Seq<Frag>)
    ensures
        line_ansi(seq![f] + frags) == frag_ansi(f) + line_ansi(frags),
        line_plain(seq![f] + frags) == f.text + line_plain(frags),
{
    assert((seq![f] + frags).drop_first() =~= frags);
    assert((seq![f] + frags)[0] == f);
}

pub proof fn lemma_line_wf_push(frags: Seq<Frag>, f: Frag)
    requires
        line_wf(frags),
        frag_wf(f),
    ensures
        line_wf(frags.push(f)),
{
    assert forall|i: int| 0 <= i < frags.push(f).len() implies frag_wf(#[trigger] frags.push(f)[i]) by {
        if i < frags.len() {
            assert(frags.push(f)[i] == frags[i]);
        }
    }
}

pub proof fn lemma_all_simple_concat(a: Seq<char>, b: Seq<char>)
    requires
        all_simple(a),
        all_simple(b),
    ensures
        all_simple(a + b),
{
    assert forall|i: int| 0 <= i < (a + b).len() implies simple_char(#[trigger] (a + b)[i]) by {
        if i < a.len() {
            assert((a + b)[i] == a[i]);
        } else {
            assert((a + b)[i] == b[i - a.len()]);
        }
    }
}

pub proof fn lemma_simple_is_printable(s: Seq<char>)
    requires
        all_simple(s),
    ensures
        forall|i: int| 0 <= i < s.len() ==> printable_char(#[trigger] s[i]),
{
    assert forall|i: int| 0 <= i < s.len() implies printable_char(#[trigger] s[i]) by {
        assert(simple_char(s[i]));
    }
}

/// `n` copies of a one-character glyph.
pub fn repeat_glyph(glyph: &str, n: usize) -> (r: String)
    requires
        glyph@.len() == 1,
    ensures
        r@ == repeat_char(glyph@[0], n as nat),
{
    let mut out = String::new();
    let mut i: usize = 0;
    proof {
        assert(out@ =~= repeat_char(glyph@[0], 0));
    }
    while i < n
        invariant
            i <= n,
            glyph@.len() == 1,
            out@ == repeat_char(glyph@[0], i as nat),
        decreases n - i,
    {
        out.append(glyph);
        i = i + 1;
        proof {
            assert(out@ =~= repeat_char(glyph@[0], i as nat));
        }
    }
    out
}

/// `n` spaces.
pub fn spaces(n: usize) -> (r: String)
    ensures
        r@ == repeat_char(' ', n as nat),
{
    proof {
        reveal_strlit(" ");
    }
    repeat_glyph(" ", n)
}

/// Concatenate a line of segments into its plain text and its styled stream.
fn compose(segs: &Vec<Segment>) -> (r: (String, String))
    ensures
        r.0@ == line_plain(frags_of(segs@)),
        r.1@ == line_ansi(frags_of(segs@)),
{
    let mut plain = String::new();
    let mut out = String::new();
    let mut i: usize = 0;
    proof {
        assert(frags_of(segs@).take(0) =~= Seq::<Frag>::empty());
    }
    while i < segs.len()
        invariant
            i <= segs.len(),
            plain@ == line_plain(frags_of(segs@).take(i as int)),
            out@ == line_ansi(frags_of(segs@).take(i as int)),
        decreases segs.len() - i,
    {
        let seg = &segs[i];
        plain.append(seg.text.as_str());
        push_segment(&mut out, seg);
        proof {
            assert(frags_of(segs@).take(i + 1) =~= frags_of(segs@).take(i as int).push(seg@));
            lemma_line_ansi_push(frags_of(segs@).take(i as int), seg@);
        }
        i = i + 1;
    }
    proof {
        assert(frags_of(segs@).take(segs@.len() as int) =~= frags_of(segs@));
    }
    (plain, out)
}

/// The number of padding columns a left-justified line of content width
/// `display_width_of(line_plain(frags))` needs to reach width `w`.
pub open spec fn pad_cols(frags: Seq<Frag>, w: nat) -> nat {
    sat_sub(w as int, display_width_of(line_plain(frags)) as int) as nat
}

/// What a left-justified padded line looks like.
pub open spec fn padded_text(frags: Seq<Frag>, w: nat) -> Seq<char> {
    line_ansi(frags) + repeat_char(' ', pad_cols(frags, w))
}

/// The visible width every primitive guarantees: the full line width, unless
/// the content alone is already wider.
pub open spec fn target_width(content_cols: nat, w: nat) -> nat {
    if content_cols >= w {
        content_cols
    } else {
        w
    }
}

/// A line of styled segments, padded on the right with spaces to `width`
/// visible columns.
pub fn line_padded(segs: &Vec<Segment>, width: usize) -> (r: String)
    ensures
        r@ == padded_text(frags_of(segs@), width as nat),
        line_wf(frags_of(segs@)) && all_simple(line_plain(frags_of(segs@))) ==> visible_width(r@)
            == target_width(line_plain(frags_of(segs@)).len(), width as nat),
{
    let ghost frags = frags_of(segs@);
    let (plain, mut out) = compose(segs);
    let cw = measure_width(plain.as_str());
    let pad = if cw >= width {
        0
    } else {
        width - cw
    };
    let padstr = spaces(pad);
    out.append(padstr.as_str());
    let ghost padfrag = Frag { text: repeat_char(' ', pad as nat), style: Style::Plain };
    let ghost m = frags.push(padfrag);
    proof {
        lemma_line_ansi_push(frags, padfrag);
        assert(out@ == line_ansi(m));
        assert(out@ =~= padded_text(frags, width as nat));
    }
    // Measuring the finished line is what grounds the visible-width claim.
    let _w = visible_len(out.as_str());
    proof {
        if line_wf(frags) && all_simple(line_plain(frags)) {
            assert forall|i: int| 0 <= i < padfrag.text.len() implies printable_char(
                #[trigger] padfrag.text[i],
            ) by {}
            lemma_line_wf_push(frags, padfrag);
            lemma_all_simple_concat(line_plain(frags), padfrag.text);
            assert(line_plain(m) == line_plain(frags) + padfrag.text);
            assert(_w as nat == line_plain(m).len());
            assert(_w as nat == visible_width(out@));
        }
    }
    out
}

/// The left and right padding of a centered line.
pub open spec fn center_pads(frags: Seq<Frag>, w: nat) -> (nat, nat) {
    let c = display_width_of(line_plain(frags)) as int;
    let left = sat_sub(w as int, c) / 2;
    (left as nat, sat_sub(sat_sub(w as int, c), left) as nat)
}

/// What a centered line looks like.
pub open spec fn centered_text(frags: Seq<Frag>, w: nat) -> Seq<char> {
    repeat_char(' ', center_pads(frags, w).0) + line_ansi(frags) + repeat_char(
        ' ',
        center_pads(frags, w).1,
    )
}

/// A line of styled segments, centered within `width` visible columns:
/// the left padding is half the slack rounded down, the right padding the
/// rest; content wider than the line gets no padding at all.
pub fn line_centered(segs: &Vec<Segment>, width: usize) -> (r: String)
    ensures
        r@ == centered_text(frags_of(segs@), width as nat),
        line_wf(frags_of(segs@)) && all_simple(line_plain(frags_of(segs@))) ==> visible_width(r@)
            == target_width(line_plain(frags_of(segs@)).len(), width as nat),
{
    let ghost frags = frags_of(segs@);
    let (plain, ansi) = compose(segs);
    let cw = measure_width(plain.as_str());
    let slack = if cw >= width {
        0
    } else {
        width - cw
    };
    let left = slack / 2;
    let right = slack - left;
    let mut out = spaces(left);
    out.append(ansi.as_str());
    let rightstr = spaces(right);
    out.append(rightstr.as_str());
    let ghost lf = Frag { text: repeat_char(' ', left as nat), style: Style::Plain };
    let ghost rf = Frag { text: repeat_char(' ', right as nat), style: Style::Plain };
    let ghost m = (seq![lf] + frags).push(rf);
    proof {
        lemma_line_ansi_prepend(lf, frags);
        lemma_line_ansi_push(seq![lf] + frags, rf);
        assert(out@ =~= line_ansi(m));
        assert(out@ =~= centered_text(frags, width as nat));
    }
    // Measuring the finished line is what grounds the visible-width claim.
    let _w = visible_len(out.as_str());
    proof {
        if line_wf(frags) && all_simple(line_plain(frags)) {
            assert forall|i: int| 0 <= i < lf.text.len() implies printable_char(
                #[trigger] lf.text[i],
            ) by {}
            assert forall|i: int| 0 <= i < rf.text.len() implies printable_char(
                #[trigger] rf.text[i],
            ) by {}
            assert forall|i: int| 0 <= i < (seq![lf] + frags).len() implies frag_wf(
                #[trigger] (seq![lf] + frags)[i],
            ) by {
                if i > 0 {
                    assert((seq![lf] + frags)[i] == frags[i - 1]);
                }
            }
            lemma_line_wf_push(seq![lf] + frags, rf);
            lemma_all_simple_concat(lf.text, line_plain(frags));
            lemma_all_simple_concat(lf.text + line_plain(frags), rf.text);
            assert(line_plain(m) == (lf.text + line_plain(frags)) + rf.text);
            assert(_w as nat == line_plain(m).len());
            assert(_w as nat == visible_width(out@));
        }
    }
    out
}

/// Division truncating toward zero (for `b > 0`), as machine division does.
pub open spec fn trunc_div(a: int, b: int) -> int {
    if a >= 0 {
        a / b
    } else {
        -((-a) / b)
    }
}

/// How a reset instant reads relative to now: day/hour form beyond a day,
/// hour/minute form beyond an hour, minutes otherwise (possibly negative for
/// a reset already past).
pub open spec fn reset_time_text(ts: int, now: int) -> Seq<char> {
    let d = ts - now;
    let hours = trunc_div(d, 3600);
    let minutes = trunc_div(d, 60);
    if hours > 24 {
        let days = trunc_div(d, 86400);
        let h = hours % 24;
        if h > 0 {
            dec_digits(days as nat) + "d "@ + dec_digits(h as nat) + "h"@
        } else {
            dec_digits(days as nat) + "d"@
        }
    } else if minutes > 60 {
        let m = minutes % 60;
        if m > 0 {
            dec_digits(hours as nat) + "h "@ + dec_digits(m as nat) + "m"@
        } else {
            dec_digits(hours as nat) + "h"@
        }
    } else {
        dec_signed(minutes) + "m"@
    }
}

/// Render the time from `now` until `timestamp` for a reset label.
pub fn format_reset_time(timestamp: i64, now: i64) -> (r: String)
    ensures
        r@ == reset_time_text(timestamp as int, now as int),
{
    proof {
        reveal_strlit("d ");
        reveal_strlit("d");
        reveal_strlit("h ");
        reveal_strlit("h");
        reveal_strlit("m");
    }
    let d: i128 = timestamp as i128 - now as i128;
    let neg = d < 0;
    let mag: u128 = if neg {
        (-d) as u128
    } else {
        d as u128
    };
    if !neg && mag / 3600 > 24 {
        let days = (mag / 86400) as u64;
        let h = ((mag / 3600) % 24) as u64;
        let mut s = u64_to_dec(days);
        if h > 0 {
            s.append("d ");
            s.append(u64_to_dec(h).as_str());
            s.append("h");
        } else {
            s.append("d");
        }
        proof {
            assert(s@ =~= reset_time_text(timestamp as int, now as int));
        }
        s
    } else if !neg && mag / 60 > 60 {
        let hours = (mag / 3600) as u64;
        let m = ((mag / 60) % 60) as u64;
        let mut s = u64_to_dec(hours);
        if m > 0 {
            s.append("h ");
            s.append(u64_to_dec(m).as_str());
            s.append("m");
        } else {
            s.append("h");
        }
        proof {
            assert(s@ =~= reset_time_text(timestamp as int, now as int));
        }
        s
    } else {
        let minutes: i64 = if neg {
            -((mag / 60) as i64)
        } else {
            (mag / 60) as i64
        };
        let mut s = i64_to_dec(minutes);
        s.append("m");
        proof {
            assert(s@ =~= reset_time_text(timestamp as int, now as int));
        }
        s
    }
}

/// How a window length reads inside a window label: hour/minute form from an
/// hour up, minutes otherwise.
pub open spec fn label_minutes_text(limit_window_seconds: int) -> Seq<char> {
    let m = trunc_div(limit_window_seconds, 60);
    if m >= 60 {
        let h = m / 60;
        let mm = m % 60;
        if mm > 0 {
            dec_digits(h as nat) + "h "@ + dec_digits(mm as nat) + "m"@
        } else {
            dec_digits(h as nat) + "h"@
        }
    } else {
        dec_signed(m) + "m"@
    }
}

/// Render the nominal window length for a window label.
pub fn format_label_minutes(window: &WindowSnapshot) -> (r: String)
    ensures
        r@ == label_minutes_text(window.limit_window_seconds as int),
{
    proof {
        reveal_strlit("h ");
        reveal_strlit("h");
        reveal_strlit("m");
    }
    let lws = window.limit_window_seconds;
    if lws >= 3600 {
        let m = (lws as u64) / 60;
        let h = m / 60;
        let mm = m % 60;
        let mut s = u64_to_dec(h);
        if mm > 0 {
            s.append("h ");
            s.append(u64_to_dec(mm).as_str());
            s.append("m");
        } else {
            s.append("h");
        }
        proof {
            assert(s@ =~= label_minutes_text(lws as int));
        }
        s
    } else {
        let minutes: i64 = if lws >= 0 {
            ((lws as u64) / 60) as i64
        } else {
            -((((-(lws as i128)) as u128) / 60) as i64)
        };
        let mut s = i64_to_dec(minutes);
        s.append("m");
        proof {
            assert(s@ =~= label_minutes_text(lws as int));
        }
        s
    }
}

/// A percentage readout, right-aligned to three columns, with a '%' sign.
pub open spec fn percent3(n: nat) -> Seq<char> {
    let pad = if n < 10 {
        seq![' ', ' ']
    } else if n < 100 {
        seq![' ']
    } else {
        Seq::<char>::empty()
    };
    pad + dec_digits(n) + seq!['%']
}

/// Render a right-aligned three-column percentage readout.
pub fn percent3_str(n: u64) -> (r: String)
    ensures
        r@ == percent3(n as nat),
{
    proof {
        reveal_strlit("  ");
        reveal_strlit(" ");
        reveal_strlit("%");
    }
    let mut s: String = if n < 10 {
        "  ".to_owned()
    } else if n < 100 {
        " ".to_owned()
    } else {
        "".to_owned()
    };
    s.append(u64_to_dec(n).as_str());
    s.append("%");
    proof {
        reveal_strlit("");
        assert(s@ =~= percent3(n as nat));
    }
    s
}

/// Every character of a non-negative decimal rendering is simple.
pub proof fn lemma_dec_digits_simple(n: nat)
    ensures
        all_simple(dec_digits(n)),
    decreases n,
{
    if n < 10 {
        assert(all_simple(dec_digits(n)));
    } else {
        lemma_dec_digits_simple(n / 10);
        assert forall|i: int| 0 <= i < dec_digits(n).len() implies simple_char(
            #[trigger] dec_digits(n)[i],
        ) by {
            if i < dec_digits(n / 10).len() {
                assert(dec_digits(n)[i] == dec_digits(n / 10)[i]);
            } else {
                assert(dec_digits(n)[i] == digit_char(n % 10));
            }
        }
    }
}

/// Every character of a signed decimal rendering is simple.
pub proof fn lemma_dec_signed_simple(n: int)
    ensures
        all_simple(dec_signed(n)),
{
    if n < 0 {
        lemma_dec_digits_simple((-n) as nat);
        lemma_all_simple_concat(seq!['-'], dec_digits((-n) as nat));
    } else {
        lemma_dec_digits_simple(n as nat);
    }
}

/// Every character of a reset-time rendering is simple.
pub proof fn lemma_reset_text_simple(ts: int, now: int)
    ensures
        all_simple(reset_time_text(ts, now)),
{
    reveal_strlit("d ");
    reveal_strlit("d");
    reveal_strlit("h ");
    reveal_strlit("h");
    reveal_strlit("m");
    let d = ts - now;
    let hours = trunc_div(d, 3600);
    let minutes = trunc_div(d, 60);
    if hours > 24 {
        let days = trunc_div(d, 86400);
        let h = hours % 24;
        lemma_dec_digits_simple(days as nat);
        lemma_dec_digits_simple(h as nat);
        lemma_all_simple_concat(dec_digits(days as nat), "d "@);
        lemma_all_simple_concat(dec_digits(days as nat) + "d "@, dec_digits(h as nat));
        lemma_all_simple_concat(dec_digits(days as nat) + "d "@ + dec_digits(h as nat), "h"@);
        lemma_all_simple_concat(dec_digits(days as nat), "d"@);
    } else if minutes > 60 {
        let m = minutes % 60;
        lemma_dec_digits_simple(hours as nat);
        lemma_dec_digits_simple(m as nat);
        lemma_all_simple_concat(dec_digits(hours as nat), "h "@);
        lemma_all_simple_concat(dec_digits(hours as nat) + "h "@, dec_digits(m as nat));
        lemma_all_simple_concat(dec_digits(hours as nat) + "h "@ + dec_digits(m as nat), "m"@);
        lemma_all_simple_concat(dec_digits(hours as nat), "h"@);
    } else {
        lemma_dec_signed_simple(minutes);
        lemma_all_simple_concat(dec_signed(minutes), "m"@);
    }
}

/// Every character of a window-length rendering is simple.
pub proof fn lemma_label_minutes_simple(lws: int)
    ensures
        all_simple(label_minutes_text(lws)),
{
    reveal_strlit("h ");
    reveal_strlit("h");
    reveal_strlit("m");
    let m = trunc_div(lws, 60);
    if m >= 60 {
        let h = m / 60;
        let mm = m % 60;
        lemma_dec_digits_simple(h as nat);
        lemma_dec_digits_simple(mm as nat);
        lemma_all_simple_concat(dec_digits(h as nat), "h "@);
        lemma_all_simple_concat(dec_digits(h as nat) + "h "@, dec_digits(mm as nat));
        lemma_all_simple_concat(dec_digits(h as nat) + "h "@ + dec_digits(mm as nat), "m"@);
        lemma_all_simple_concat(dec_digits(h as nat), "h"@);
    } else {
        lemma_dec_signed_simple(m);
        lemma_all_simple_concat(dec_signed(m), "m"@);
    }
}

/// Every character of a money rendering is simple.
pub proof fn lemma_money_simple(cents: int)
    ensures
        all_simple(money_text(cents)),
{
    let mag = if cents < 0 {
        -cents
    } else {
        cents
    };
    let sign = if cents < 0 {
        seq!['-']
    } else {
        Seq::<char>::empty()
    };
    lemma_dec_digits_simple((mag / 100) as nat);
    lemma_all_simple_concat(seq!['$'], sign);
    lemma_all_simple_concat(seq!['$'] + sign, dec_digits((mag / 100) as nat));
    lemma_all_simple_concat(seq!['$'] + sign + dec_digits((mag / 100) as nat), seq!['.']);
    lemma_all_simple_concat(
        seq!['$'] + sign + dec_digits((mag / 100) as nat) + seq!['.'],
        seq![digit_char(((mag % 100) / 10) as nat), digit_char((mag % 10) as nat)],
    );
}

/// Every character of a percentage readout is simple.
pub proof fn lemma_percent3_simple(n: nat)
    ensures
        all_simple(percent3(n)),
{
    lemma_dec_digits_simple(n);
    let pad = if n < 10 {
        seq![' ', ' ']
    } else if n < 100 {
        seq![' ']
    } else {
        Seq::<char>::empty()
    };
    lemma_all_simple_concat(pad, dec_digits(n));
    lemma_all_simple_concat(pad + dec_digits(n), seq!['%']);
}

/// A line whose fragment texts are all simple is well-formed and has a
/// simple plain form.
pub proof fn lemma_simple_line(frags: Seq<Frag>)
    requires
        forall|i: int| 0 <= i < frags.len() ==> all_simple(#[trigger] frags[i].text),
    ensures
        line_wf(frags),
        all_simple(line_plain(frags)),
    decreases frags.len(),
{
    assert forall|i: int| 0 <= i < frags.len() implies frag_wf(#[trigger] frags[i]) by {
        assert(all_simple(frags[i].text));
        lemma_simple_is_printable(frags[i].text);
    }
    if frags.len() == 0 {
        assert(all_simple(line_plain(frags)));
    } else {
        assert forall|i: int| 0 <= i < frags.drop_first().len() implies all_simple(
            #[trigger] frags.drop_first()[i].text,
        ) by {
            assert(frags.drop_first()[i] == frags[i + 1]);
        }
        lemma_simple_line(frags.drop_first());
        assert(all_simple(frags[0].text));
        lemma_all_simple_concat(frags[0].text, line_plain(frags.drop_first()));
    }
}

/// The severity band for a remaining percentage: severe at 10% or less,
/// warning at 30% or less, nominal above.
pub open spec fn band_style(remaining: int) -> Style {
    if remaining <= 10 {
        Style::Red
    } else if remaining <= 30 {
        Style::Yellow
    } else {
        Style::Green
    }
}

fn band_style_exec(remaining: i64) -> (r: Style)
    ensures
        r == band_style(remaining as int),
{
    if remaining <= 10 {
        Style::Red
    } else if remaining <= 30 {
        Style::Yellow
    } else {
        Style::Green
    }
}

/// The bar's column budget: the width left over beside the label part, the
/// percentage readout and the reset label with one separating space each,
/// floored at ten columns.
pub open spec fn bar_cols(width: nat, label: Seq<char>, pct: Seq<char>, reset: Seq<char>) -> nat {
    let b = sat_sub(
        sat_sub(
            sat_sub(
                sat_sub(
                    sat_sub(
                        sat_sub(width as int, display_width_of(seq!['●', ' '] + label) as int),
                        1,
                    ),
                    display_width_of(pct) as int,
                ),
                1,
            ),
            display_width_of(reset) as int,
        ),
        1,
    );
    if b < 10 {
        10
    } else {
        b as nat
    }
}

/// One window's dashboard line, before padding: a colored status dot, the
/// bold label, a bar of filled and empty glyphs proportional to the
/// remaining percentage, the percentage readout, and the dimmed reset label.
/// Everything percentage-derived uses the clamped usage reading.
pub open spec fn window_line_frags(w: WindowSnapshot, label: Seq<char>, now: int, width: nat) -> Seq<
    Frag,
> {
    let remaining = 100 - clamped_used(w);
    let band = band_style(remaining);
    let pct = percent3(remaining as nat);
    let reset = "reset "@ + reset_time_text(w.reset_at as int, now);
    let bw = bar_cols(width, label, pct, reset);
    let fill = remaining * bw / 100;
    seq![
        Frag { text: seq!['●'], style: band },
        Frag { text: seq![' '], style: Style::Plain },
        Frag { text: label, style: Style::Bold },
        Frag { text: seq![' '], style: Style::Plain },
        Frag { text: repeat_char('█', fill as nat), style: band },
        Frag { text: repeat_char('░', (bw - fill) as nat), style: Style::White },
        Frag { text: seq![' '], style: Style::Plain },
        Frag { text: pct, style: band },
        Frag { text: seq![' '], style: Style::Plain },
        Frag { text: reset, style: Style::Dimmed },
    ]
}

/// Render one window's line, padded to `width` visible columns.
pub fn display_window_line(window: &WindowSnapshot, label: &str, now: i64, width: usize) -> (r:
    String)
    ensures
        r@ == padded_text(
            window_line_frags(*window, label@, now as int, width as nat),
            width as nat,
        ),
        all_simple(label@) ==> visible_width(r@) == target_width(
            line_plain(window_line_frags(*window, label@, now as int, width as nat)).len(),
            width as nat,
        ),
{
    proof {
        reveal_strlit("●");
        reveal_strlit("● ");
        reveal_strlit(" ");
        reveal_strlit("█");
        reveal_strlit("░");
        reveal_strlit("reset ");
    }
    let ghost wlf = window_line_frags(*window, label@, now as int, width as nat);
    let used: i64 = if window.used_percent < 0 {
        0
    } else if window.used_percent > 100 {
        100
    } else {
        window.used_percent
    };
    let remaining: i64 = 100 - used;
    let band = band_style_exec(remaining);

    let mut reset_str = "reset ".to_owned();
    reset_str.append(format_reset_time(window.reset_at, now).as_str());
    let pct_str = percent3_str(remaining as u64);
    let mut label_part = "● ".to_owned();
    label_part.append(label);
    proof {
        assert(label_part@ =~= seq!['●', ' '] + label@);
    }
    let lp_w = measure_width(label_part.as_str());
    let pct_w = measure_width(pct_str.as_str());
    let reset_w = measure_width(reset_str.as_str());
    let b0 = width.saturating_sub(lp_w).saturating_sub(1).saturating_sub(pct_w).saturating_sub(
        1,
    ).saturating_sub(reset_w).saturating_sub(1);
    let bw = if b0 < 10 {
        10
    } else {
        b0
    };
    assert(bw as nat == bar_cols(width as nat, label@, pct_str@, reset_str@));
    assert((remaining as u128) * (bw as u128) <= 100 * (usize::MAX as u128)) by (nonlinear_arith)
        requires
            0 <= remaining <= 100,
            bw <= usize::MAX,
    ;
    let fill_wide: u128 = (remaining as u128) * (bw as u128) / 100;
    assert(fill_wide <= bw) by (nonlinear_arith)
        requires
            fill_wide == (remaining as u128) * (bw as u128) / 100,
            0 <= remaining <= 100,
    ;
    let fill = fill_wide as usize;

    let mut segs: Vec<Segment> = Vec::new();
    segs.push(Segment::styled("●".to_owned(), band));
    segs.push(Segment::plain(" ".to_owned()));
    segs.push(Segment::styled(label.to_owned(), Style::Bold));
    segs.push(Segment::plain(" ".to_owned()));
    segs.push(Segment::styled(repeat_glyph("█", fill), band));
    segs.push(Segment::styled(repeat_glyph("░", bw - fill), Style::White));
    segs.push(Segment::plain(" ".to_owned()));
    segs.push(Segment::styled(pct_str, band));
    segs.push(Segment::plain(" ".to_owned()));
    segs.push(Segment::styled(reset_str, Style::Dimmed));
    proof {
        assert(frags_of(segs@) =~~= wlf);
    }
    let out = line_padded(&segs, width);
    proof {
        if all_simple(label@) {
            assert forall|i: int| 0 <= i < wlf.len() implies all_simple(#[trigger] wlf[i].text) by {
                lemma_percent3_simple((100 - clamped_used(*window)) as nat);
                lemma_reset_text_simple(window.reset_at as int, now as int);
                lemma_all_simple_concat(
                    "reset "@,
                    reset_time_text(window.reset_at as int, now as int),
                );
            }
            lemma_simple_line(wlf);
        }
    }
    out
}

/// The visible width of a window's dimmed reset label.
pub fn reset_label_width(window: &WindowSnapshot, now: i64) -> (r: usize)
    ensures
        r as nat == display_width_of(
            "reset "@ + reset_time_text(window.reset_at as int, now as int),
        ),
{
    proof {
        reveal_strlit("reset ");
    }
    let mut reset_str = "reset ".to_owned();
    reset_str.append(format_reset_time(window.reset_at, now).as_str());
    measure_width(reset_str.as_str())
}

/// The color a pace stage is shown in: nominal when on track, informational
/// for the ahead stages, warning for slightly behind, severe further behind.
pub open spec fn stage_style(s: Stage) -> Style {
    match s {
        Stage::OnTrack => Style::Green,
        Stage::SlightlyAhead => Style::Cyan,
        Stage::Ahead => Style::Cyan,
        Stage::FarAhead => Style::Cyan,
        Stage::SlightlyBehind => Style::Yellow,
        Stage::Behind => Style::Red,
        Stage::FarBehind => Style::Red,
    }
}

fn stage_style_exec(s: Stage) -> (r: Style)
    ensures
        r == stage_style(s),
{
    match s {
        Stage::OnTrack => Style::Green,
        Stage::SlightlyAhead => Style::Cyan,
        Stage::Ahead => Style::Cyan,
        Stage::FarAhead => Style::Cyan,
        Stage::SlightlyBehind => Style::Yellow,
        Stage::Behind => Style::Red,
        Stage::FarBehind => Style::Red,
    }
}

/// The plain text of the pace fragment of a pace line.
pub open spec fn pace_part1_plain(p: UsagePace) -> Seq<char> {
    "Pace: "@ + stage_emoji_text(p.stage) + seq![' '] + stage_description_text(p.stage) + " ("@
        + delta_text(p.delta_tenths as int) + ")"@
}

/// The plain text of the ETA fragment of a pace line.
pub open spec fn pace_part2_plain(p: UsagePace) -> Seq<char> {
    "ETA: "@ + eta_text(p)
}

/// How many columns separate the pace fragment from the ETA fragment: the
/// ETA's right edge aims at the column where the reset labels start, clipped
/// so it never runs past the line width and never overlaps the pace fragment
/// (at least one column of gap whenever anything fits at all).
pub open spec fn pace_gap(p: UsagePace, width: nat, reset_label_cols: nat) -> nat {
    let v1 = display_width_of(pace_part1_plain(p)) as int;
    let v2 = display_width_of(pace_part2_plain(p)) as int;
    let reset_start = sat_sub(width as int, reset_label_cols as int);
    let max_start = sat_sub(width as int, v2);
    let min_start = v1 + 1;
    let lo = if reset_start < max_start {
        reset_start
    } else {
        max_start
    };
    let hi = if min_start < max_start {
        min_start
    } else {
        max_start
    };
    let start = if lo > hi {
        lo
    } else {
        hi
    };
    sat_sub(start, v1) as nat
}

/// One pace line, before padding: the stage marker, description and delta in
/// the stage's color, then the gap, then the ETA in white.
pub open spec fn pace_line_frags(p: UsagePace, width: nat, reset_label_cols: nat) -> Seq<Frag> {
    seq![
        Frag { text: "Pace: "@, style: Style::Plain },
        Frag { text: stage_emoji_text(p.stage), style: Style::Plain },
        Frag { text: seq![' '], style: Style::Plain },
        Frag { text: stage_description_text(p.stage), style: stage_style(p.stage) },
        Frag { text: " ("@, style: Style::Plain },
        Frag { text: delta_text(p.delta_tenths as int), style: stage_style(p.stage) },
        Frag { text: ")"@, style: Style::Plain },
        Frag { text: repeat_char(' ', pace_gap(p, width, reset_label_cols)), style: Style::Plain },
        Frag { text: pace_part2_plain(p), style: Style::White },
    ]
}

/// Every character of a stage marker or description is simple.
pub proof fn lemma_stage_text_simple(s: Stage)
    ensures
        all_simple(stage_emoji_text(s)),
        all_simple(stage_description_text(s)),
{
    reveal_strlit("✓");
    reveal_strlit("↑");
    reveal_strlit("↑↑");
    reveal_strlit("↑↑↑");
    reveal_strlit("↓");
    reveal_strlit("↓↓");
    reveal_strlit("↓↓↓");
    reveal_strlit("on track");
    reveal_strlit("slightly ahead");
    reveal_strlit("ahead");
    reveal_strlit("far ahead");
    reveal_strlit("slightly behind");
    reveal_strlit("behind");
    reveal_strlit("far behind");
}

/// Every character of a delta rendering is simple.
pub proof fn lemma_delta_text_simple(t: int)
    ensures
        all_simple(delta_text(t)),
{
    let mag = if t < 0 {
        -t
    } else {
        t
    };
    let sign = if t >= 0 {
        seq!['+']
    } else {
        seq!['-']
    };
    lemma_dec_digits_simple((mag / 10) as nat);
    lemma_all_simple_concat(sign, dec_digits((mag / 10) as nat));
    lemma_all_simple_concat(sign + dec_digits((mag / 10) as nat), seq!['.']);
    lemma_all_simple_concat(
        sign + dec_digits((mag / 10) as nat) + seq!['.'],
        seq![digit_char((mag % 10) as nat)],
    );
    lemma_all_simple_concat(
        sign + dec_digits((mag / 10) as nat) + seq!['.'] + seq![digit_char((mag % 10) as nat)],
        seq!['%'],
    );
}

/// Every character of an ETA rendering is simple.
pub proof fn lemma_eta_text_simple(p: UsagePace)
    ensures
        all_simple(eta_text(p)),
{
    reveal_strlit("until reset");
    reveal_strlit("unknown");
    reveal_strlit("d ");
    reveal_strlit("h ");
    reveal_strlit("h");
    reveal_strlit("m");
    if !p.will_last_to_reset {
        match p.eta_seconds {
            Some(e) => {
                if e > 86400 {
                    lemma_dec_digits_simple((e as int / 86400) as nat);
                    lemma_dec_digits_simple(((e as int % 86400) / 3600) as nat);
                    lemma_all_simple_concat(dec_digits((e as int / 86400) as nat), "d "@);
                    lemma_all_simple_concat(
                        dec_digits((e as int / 86400) as nat) + "d "@,
                        dec_digits(((e as int % 86400) / 3600) as nat),
                    );
                    lemma_all_simple_concat(
                        dec_digits((e as int / 86400) as nat) + "d "@ + dec_digits(
                            ((e as int % 86400) / 3600) as nat,
                        ),
                        "h"@,
                    );
                } else if e > 3600 {
                    lemma_dec_digits_simple((e as int / 3600) as nat);
                    lemma_dec_digits_simple(((e as int % 3600) / 60) as nat);
                    lemma_all_simple_concat(dec_digits((e as int / 3600) as nat), "h "@);
                    lemma_all_simple_concat(
                        dec_digits((e as int / 3600) as nat) + "h "@,
                        dec_digits(((e as int % 3600) / 60) as nat),
                    );
                    lemma_all_simple_concat(
                        dec_digits((e as int / 3600) as nat) + "h "@ + dec_digits(
                            ((e as int % 3600) / 60) as nat,
                        ),
                        "m"@,
                    );
                } else {
                    lemma_dec_digits_simple((e as int / 60) as nat);
                    lemma_all_simple_concat(dec_digits((e as int / 60) as nat), "m"@);
                }
            },
            None => {},
        }
    }
}

/// Render one pace line, padded to `width` visible columns: the verdict's
/// stage and delta at the left, the ETA aligned toward the reset-label
/// column at the right.
pub fn display_pace_line(pace: &UsagePace, width: usize, reset_label_cols: usize) -> (r: String)
    requires
        pace.wf(),
    ensures
        r@ == padded_text(
            pace_line_frags(*pace, width as nat, reset_label_cols as nat),
            width as nat,
        ),
        visible_width(r@) == target_width(
            line_plain(pace_line_frags(*pace, width as nat, reset_label_cols as nat)).len(),
            width as nat,
        ),
{
    proof {
        reveal_strlit("Pace: ");
        reveal_strlit(" ");
        reveal_strlit(" (");
        reveal_strlit(")");
        reveal_strlit("ETA: ");
    }
    let ghost plf = pace_line_frags(*pace, width as nat, reset_label_cols as nat);
    let color = stage_style_exec(pace.stage);
    let emoji = pace.stage_emoji();
    let desc = pace.stage_description();
    let delta = pace.format_delta();
    let eta = pace.format_eta();

    let mut part1 = "Pace: ".to_owned();
    part1.append(emoji);
    part1.append(" ");
    part1.append(desc);
    part1.append(" (");
    part1.append(delta.as_str());
    part1.append(")");
    proof {
        assert(part1@ =~= pace_part1_plain(*pace));
    }
    let mut part2 = "ETA: ".to_owned();
    part2.append(eta.as_str());
    proof {
        assert(part2@ =~= pace_part2_plain(*pace));
    }
    let v1 = measure_width(part1.as_str());
    let v2 = measure_width(part2.as_str());
    let reset_start = width.saturating_sub(reset_label_cols);
    let max_start = width.saturating_sub(v2);
    let min_start = v1.saturating_add(1);
    let lo = if reset_start < max_start {
        reset_start
    } else {
        max_start
    };
    let hi = if min_start < max_start {
        min_start
    } else {
        max_start
    };
    let start = if lo > hi {
        lo
    } else {
        hi
    };
    let gap = start.saturating_sub(v1);
    assert(gap as nat == pace_gap(*pace, width as nat, reset_label_cols as nat));

    let mut segs: Vec<Segment> = Vec::new();
    segs.push(Segment::plain("Pace: ".to_owned()));
    segs.push(Segment::plain(emoji.to_owned()));
    segs.push(Segment::plain(" ".to_owned()));
    segs.push(Segment::styled(desc.to_owned(), color));
    segs.push(Segment::plain(" (".to_owned()));
    segs.push(Segment::styled(delta, color));
    segs.push(Segment::plain(")".to_owned()));
    segs.push(Segment::plain(spaces(gap)));
    segs.push(Segment::styled(part2, Style::White));
    proof {
        assert(frags_of(segs@) =~~= plf);
    }
    let out = line_padded(&segs, width);
    proof {
        assert forall|i: int| 0 <= i < plf.len() implies all_simple(#[trigger] plf[i].text) by {
            lemma_stage_text_simple(pace.stage);
            lemma_delta_text_simple(pace.delta_tenths as int);
            lemma_eta_text_simple(*pace);
            lemma_all_simple_concat("ETA: "@, eta_text(*pace));
        }
        lemma_simple_line(plf);
    }
    out
}

/// A rule: one glyph repeated across the full line width.
pub fn rule_line(glyph: &str, width: usize) -> (r: String)
    requires
        glyph@.len() == 1,
    ensures
        r@ == repeat_char(glyph@[0], width as nat),
        simple_char(glyph@[0]) ==> visible_width(r@) == width as nat,
{
    let out = repeat_glyph(glyph, width);
    // Measuring the finished line is what grounds the visible-width claim.
    let _w = visible_len(out.as_str());
    proof {
        if simple_char(glyph@[0]) {
            let m = seq![Frag { text: out@, style: Style::Plain }];
            assert(m.drop_first() =~= Seq::<Frag>::empty());
            assert(line_ansi(Seq::<Frag>::empty()) =~= Seq::<char>::empty());
            assert(line_plain(Seq::<Frag>::empty()) =~= Seq::<char>::empty());
            assert(line_ansi(m) =~= out@);
            assert(line_plain(m) =~= out@);
            assert(all_simple(out@));
            lemma_simple_is_printable(out@);
            assert(line_wf(m));
            assert(_w as nat == visible_width(out@));
        }
    }
    out
}

/// A window line is computed from the clamped usage reading alone: two
/// snapshots that clamp to the same usage render identically, however far
/// outside 0..=100 the raw readings lie.
pub proof fn lemma_rendering_uses_clamped(
    w1: WindowSnapshot,
    w2: WindowSnapshot,
    label: Seq<char>,
    now: int,
    width: nat,
)
    requires
        clamped_used(w1) == clamped_used(w2),
        w1.reset_at == w2.reset_at,
        w1.limit_window_seconds == w2.limit_window_seconds,
    ensures
        window_line_frags(w1, label, now, width) == window_line_frags(w2, label, now, width),
{
    assert(window_line_frags(w1, label, now, width) =~~= window_line_frags(
        w2,
        label,
        now,
        width,
    ));
}

/// The credit readout: "Unlimited" for an unlimited account with credits,
/// the balance when one is known, "None" otherwise.
pub open spec fn credit_text(c: CreditDetails) -> Seq<char> {
    if c.has_credits == Some(true) {
        if c.unlimited == Some(true) {
            "Unlimited"@
        } else {
            match c.balance_cents {
                Some(b) => money_text(b as int),
                None => "None"@,
            }
        }
    } else {
        "None"@
    }
}

fn credit_text_exec(c: &CreditDetails) -> (r: String)
    ensures
        r@ == credit_text(*c),
{
    match c.has_credits {
        Some(true) => {
            match c.unlimited {
                Some(true) => "Unlimited".to_owned(),
                _ => {
                    match c.balance_cents {
                        Some(b) => money_to_dec(b),
                        None => "None".to_owned(),
                    }
                },
            }
        },
        _ => "None".to_owned(),
    }
}

/// The plan half of the metadata line.
pub open spec fn plan_part_text(p: PlanType) -> Seq<char> {
    "plan: "@ + upper_of(plan_tag(p))
}

/// The credits half of the metadata line.
pub open spec fn credit_part_text(c: CreditDetails) -> Seq<char> {
    "credits: "@ + credit_text(c)
}

/// Whether the payload carries anything for a metadata line.
pub open spec fn has_meta(r: UsageResponse) -> bool {
    r.plan_type is Some || r.credits is Some
}

/// The metadata line: the present parts, each in green, separated by a bar,
/// inside brackets; empty when neither part is present.
pub open spec fn meta_frags(r: UsageResponse) -> Seq<Frag> {
    let open = seq![Frag { text: "[ "@, style: Style::Plain }];
    let close = seq![Frag { text: " ]"@, style: Style::Plain }];
    match r.plan_type {
        Some(p) => match r.credits {
            Some(c) => open + seq![
                Frag { text: plan_part_text(p), style: Style::Green },
                Frag { text: " | "@, style: Style::Plain },
                Frag { text: credit_part_text(c), style: Style::Green },
            ] + close,
            None => open + seq![Frag { text: plan_part_text(p), style: Style::Green }] + close,
        },
        None => match r.credits {
            Some(c) => open + seq![Frag { text: credit_part_text(c), style: Style::Green }]
                + close,
            None => Seq::<Frag>::empty(),
        },
    }
}

/// The metadata line's segments, present exactly when the payload has a plan
/// tier or credit information.
pub fn meta_segments(response: &UsageResponse) -> (r: Option<Vec<Segment>>)
    ensures
        (r is Some) == has_meta(*response),
        r is Some ==> frags_of(r.unwrap()@) == meta_frags(*response),
{
    if response.plan_type.is_none() && response.credits.is_none() {
        return None;
    }
    let mut v: Vec<Segment> = Vec::new();
    v.push(Segment::plain("[ ".to_owned()));
    match &response.plan_type {
        Some(p) => {
            let mut t = "plan: ".to_owned();
            t.append(to_upper(p.as_tag().as_str()).as_str());
            v.push(Segment::styled(t, Style::Green));
            if response.credits.is_some() {
                v.push(Segment::plain(" | ".to_owned()));
            }
        },
        None => {},
    }
    match &response.credits {
        Some(c) => {
            let mut t = "credits: ".to_owned();
            t.append(credit_text_exec(c).as_str());
            v.push(Segment::styled(t, Style::Green));
        },
        None => {},
    }
    v.push(Segment::plain(" ]".to_owned()));
    proof {
        assert(frags_of(v@) =~~= meta_frags(*response));
    }
    Some(v)
}

/// Render the metadata line's styled text, when there is one.
pub fn format_meta_line(response: &UsageResponse) -> (r: Option<String>)
    ensures
        (r is Some) == has_meta(*response),
        r is Some ==> r.unwrap()@ == line_ansi(meta_frags(*response)),
{
    match meta_segments(response) {
        Some(v) => {
            let (_, ansi) = compose(&v);
            Some(ansi)
        },
        None => None,
    }
}

/// The dashboard title.
pub open spec fn title_frags() -> Seq<Frag> {
    seq![Frag { text: "✦ ✦ ✦ CODEX USAGE MONITOR ✦ ✦ ✦"@, style: Style::Title }]
}

/// The section heading above the window bars.
pub open spec fn section_frags() -> Seq<Frag> {
    seq![Frag { text: "Session-Based Usage Limits"@, style: Style::Bold }]
}

/// The subtitle under the section heading.
pub open spec fn subtitle_frags() -> Seq<Frag> {
    seq![Frag { text: "Based on rate-limit windows from the API"@, style: Style::Dimmed }]
}

/// The line shown when the payload has no rate-limit data at all.
pub open spec fn no_data_frags() -> Seq<Frag> {
    seq![Frag { text: "No rate-limit data available."@, style: Style::Plain }]
}

/// A window's label: a fixed prefix, the window length, a closing paren.
pub open spec fn window_label_text(prefix: Seq<char>, w: WindowSnapshot) -> Seq<char> {
    prefix + label_minutes_text(w.limit_window_seconds as int) + ")"@
}

/// The visible width of a window's reset label.
pub open spec fn rlw_of(w: WindowSnapshot, now: int) -> nat {
    display_width_of("reset "@ + reset_time_text(w.reset_at as int, now))
}

/// The pace line of the dashboard: the long window's projection when it has
/// one, else the short window's with its own default duration, else nothing
/// (and nothing at all when there is no long window).
pub open spec fn pace_lines(rl: RateLimitDetails, now: int) -> Seq<Seq<char>> {
    match rl.secondary_window {
        Some(sw) => if projectable(sw, now, 10080) {
            seq![
                padded_text(pace_line_frags(projected_pace(sw, now, 10080), 74, rlw_of(sw, now)), 74),
            ]
        } else {
            match rl.primary_window {
                Some(pw) => if projectable(pw, now, 300) {
                    seq![
                        padded_text(
                            pace_line_frags(projected_pace(pw, now, 300), 74, rlw_of(pw, now)),
                            74,
                        ),
                    ]
                } else {
                    Seq::<Seq<char>>::empty()
                },
                None => Seq::<Seq<char>>::empty(),
            }
        },
        None => Seq::<Seq<char>>::empty(),
    }
}

/// The window section of the dashboard: each present window's bar line, a
/// rule after each slot, then the pace line when one projects.
pub open spec fn window_lines(rl: RateLimitDetails, now: int) -> Seq<Seq<char>> {
    (match rl.primary_window {
        Some(w) => seq![
            padded_text(window_line_frags(w, window_label_text("5h Window ("@, w), now, 74), 74),
        ],
        None => Seq::<Seq<char>>::empty(),
    }) + seq![repeat_char('-', 74)] + (match rl.secondary_window {
        Some(w) => seq![
            padded_text(
                window_line_frags(w, window_label_text("Weekly Window ("@, w), now, 74),
                74,
            ),
        ],
        None => Seq::<Seq<char>>::empty(),
    }) + seq![repeat_char('-', 74)] + pace_lines(rl, now)
}

/// Every line of one dashboard render, top to bottom.
pub open spec fn usage_lines(resp: UsageResponse, now: int) -> Seq<Seq<char>> {
    seq![centered_text(title_frags(), 74), repeat_char('=', 74)] + (if has_meta(resp) {
        seq![centered_text(meta_frags(resp), 74), repeat_char('-', 74)]
    } else {
        Seq::<Seq<char>>::empty()
    }) + seq![
        padded_text(section_frags(), 74),
        padded_text(subtitle_frags(), 74),
        repeat_char('-', 74),
    ] + (match resp.rate_limit {
        Some(rl) => window_lines(rl, now),
        None => seq![padded_text(no_data_frags(), 74)],
    }) + seq![repeat_char('=', 74)]
}

/// Every line occupies at least the full dashboard width.
pub open spec fn wide_lines(ls: Seq<Seq<char>>) -> bool {
    forall|i: int| 0 <= i < ls.len() ==> visible_width(#[trigger] ls[i]) >= 74
}

/// Whether the plan tag's uppercase form stays within the simple character
/// set; with an exotic tag the metadata line's width is not pinned down.
pub open spec fn plan_tag_simple(r: UsageResponse) -> bool {
    match r.plan_type {
        Some(p) => all_simple(upper_of(plan_tag(p))),
        None => true,
    }
}

proof fn lemma_wide_push(ls: Seq<Seq<char>>, l: Seq<char>)
    requires
        wide_lines(ls),
        visible_width(l) >= 74,
    ensures
        wide_lines(ls.push(l)),
{
    assert forall|i: int| 0 <= i < ls.push(l).len() implies visible_width(
        #[trigger] ls.push(l)[i],
    ) >= 74 by {
        if i < ls.len() {
            assert(ls.push(l)[i] == ls[i]);
        }
    }
}


/// Render the window section: each present window's bar line, a rule after
/// each slot, the pace line when one projects. No line falls below the
/// dashboard width.
fn render_windows(rl: &RateLimitDetails, now: i64) -> (r: Vec<String>)
    ensures
        r.deep_view() == window_lines(*rl, now as int),
        wide_lines(r.deep_view()),
{
    proof {
        reveal_strlit("-");
    }
    let mut out: Vec<String> = Vec::new();
    proof {
        assert(wide_lines(out.deep_view()));
    }
    match &rl.primary_window {
        Some(w) => {
            let mut label = "5h Window (".to_owned();
            label.append(format_label_minutes(w).as_str());
            label.append(")");
            proof {
                reveal_strlit("5h Window (");
                reveal_strlit(")");
                assert(label@ =~= window_label_text("5h Window ("@, *w));
            }
            let ghost dv0 = out.deep_view();
            let l = display_window_line(w, label.as_str(), now, TOTAL_WIDTH);
            out.push(l);
            proof {
                lemma_label_minutes_simple(w.limit_window_seconds as int);
                lemma_all_simple_concat(
                    "5h Window ("@,
                    label_minutes_text(w.limit_window_seconds as int),
                );
                lemma_all_simple_concat(
                    "5h Window ("@ + label_minutes_text(w.limit_window_seconds as int),
                    ")"@,
                );
                assert(out.deep_view() =~~= dv0.push(l@));
                lemma_wide_push(dv0, l@);
            }
        },
        None => {},
    }
    let ghost dv0 = out.deep_view();
    let l = rule_line("-", TOTAL_WIDTH);
    out.push(l);
    proof {
        assert(out.deep_view() =~~= dv0.push(l@));
        lemma_wide_push(dv0, l@);
    }
    match &rl.secondary_window {
        Some(w) => {
            let mut label = "Weekly Window (".to_owned();
            label.append(format_label_minutes(w).as_str());
            label.append(")");
            proof {
                reveal_strlit("Weekly Window (");
                reveal_strlit(")");
                assert(label@ =~= window_label_text("Weekly Window ("@, *w));
            }
            let ghost dv0 = out.deep_view();
            let l = display_window_line(w, label.as_str(), now, TOTAL_WIDTH);
            out.push(l);
            proof {
                lemma_label_minutes_simple(w.limit_window_seconds as int);
                lemma_all_simple_concat(
                    "Weekly Window ("@,
                    label_minutes_text(w.limit_window_seconds as int),
                );
                lemma_all_simple_concat(
                    "Weekly Window ("@ + label_minutes_text(w.limit_window_seconds as int),
                    ")"@,
                );
                assert(out.deep_view() =~~= dv0.push(l@));
                lemma_wide_push(dv0, l@);
            }
        },
        None => {},
    }
    let ghost dv0 = out.deep_view();
    let l = rule_line("-", TOTAL_WIDTH);
    out.push(l);
    proof {
        assert(out.deep_view() =~~= dv0.push(l@));
        lemma_wide_push(dv0, l@);
    }
    match &rl.secondary_window {
        Some(sw) => {
            match UsagePace::from_window(sw, now, 10080) {
                Some(pace) => {
                    let rlw = reset_label_width(sw, now);
                    let ghost dv0 = out.deep_view();
                    let l = display_pace_line(&pace, TOTAL_WIDTH, rlw);
                    out.push(l);
                    proof {
                        assert(out.deep_view() =~~= dv0.push(l@));
                        lemma_wide_push(dv0, l@);
                    }
                },
                None => {
                    match &rl.primary_window {
                        Some(pw) => {
                            match UsagePace::from_window(pw, now, 300) {
                                Some(pace) => {
                                    let rlw = reset_label_width(pw, now);
                                    let ghost dv0 = out.deep_view();
                                    let l = display_pace_line(&pace, TOTAL_WIDTH, rlw);
                                    out.push(l);
                                    proof {
                                        assert(out.deep_view() =~~= dv0.push(l@));
                                        lemma_wide_push(dv0, l@);
                                    }
                                },
                                None => {},
                            }
                        },
                        None => {},
                    }
                },
            }
        },
        None => {},
    }
    proof {
        assert(out.deep_view() =~~= window_lines(*rl, now as int));
    }
    out
}

/// Render one full dashboard: title, optional metadata, section heading,
/// window bars, pace line, rules between — every line exactly as
/// `usage_lines` lays it out, each padded to the dashboard width. Short of
/// an exotic plan tag, no line falls below the dashboard width.
#[verifier::rlimit(100)]
pub fn render_usage(response: &UsageResponse, now: i64) -> (r: Vec<String>)
    ensures
        r.deep_view() == usage_lines(*response, now as int),
        plan_tag_simple(*response) ==> wide_lines(r.deep_view()),
{
    proof {
        reveal_strlit("=");
        reveal_strlit("-");
    }
    let ghost pok = plan_tag_simple(*response);
    let mut lines: Vec<String> = Vec::new();
    proof {
        assert(wide_lines(lines.deep_view()));
    }

    let mut title_segs: Vec<Segment> = Vec::new();
    title_segs.push(Segment::styled("✦ ✦ ✦ CODEX USAGE MONITOR ✦ ✦ ✦".to_owned(), Style::Title));
    proof {
        assert(frags_of(title_segs@) =~~= title_frags());
    }
    let ghost dv0 = lines.deep_view();
    let l = line_centered(&title_segs, TOTAL_WIDTH);
    lines.push(l);
    proof {
        reveal_strlit("✦ ✦ ✦ CODEX USAGE MONITOR ✦ ✦ ✦");
        assert(all_simple(title_frags()[0].text));
        lemma_simple_line(title_frags());
        assert(lines.deep_view() =~~= dv0.push(l@));
        lemma_wide_push(dv0, l@);
    }
    let ghost dv0 = lines.deep_view();
    let l = rule_line("=", TOTAL_WIDTH);
    lines.push(l);
    proof {
        assert(lines.deep_view() =~~= dv0.push(l@));
        lemma_wide_push(dv0, l@);
    }

    match meta_segments(response) {
        Some(m) => {
            let ghost dv0 = lines.deep_view();
            let l = line_centered(&m, TOTAL_WIDTH);
            lines.push(l);
            proof {
                reveal_strlit("[ ");
                reveal_strlit(" | ");
                reveal_strlit(" ]");
                reveal_strlit("plan: ");
                reveal_strlit("credits: ");
                reveal_strlit("Unlimited");
                reveal_strlit("None");
                assert(lines.deep_view() =~~= dv0.push(l@));
                if pok {
                    let mf = meta_frags(*response);
                    assert forall|i: int| 0 <= i < mf.len() implies all_simple(
                        #[trigger] mf[i].text,
                    ) by {
                        match response.credits {
                            Some(c) => {
                                if c.has_credits == Some(true) && c.unlimited != Some(true) {
                                    match c.balance_cents {
                                        Some(b) => lemma_money_simple(b as int),
                                        None => {},
                                    }
                                }
                                lemma_all_simple_concat("credits: "@, credit_text(c));
                            },
                            None => {},
                        }
                        match response.plan_type {
                            Some(p) => {
                                lemma_all_simple_concat("plan: "@, upper_of(plan_tag(p)));
                            },
                            None => {},
                        }
                    }
                    lemma_simple_line(mf);
                    lemma_wide_push(dv0, l@);
                }
            }
            let ghost dv0 = lines.deep_view();
            let l = rule_line("-", TOTAL_WIDTH);
            lines.push(l);
            proof {
                assert(lines.deep_view() =~~= dv0.push(l@));
                if pok {
                    lemma_wide_push(dv0, l@);
                }
            }
        },
        None => {},
    }

    let mut section_segs: Vec<Segment> = Vec::new();
    section_segs.push(Segment::styled("Session-Based Usage Limits".to_owned(), Style::Bold));
    proof {
        assert(frags_of(section_segs@) =~~= section_frags());
    }
    let ghost dv0 = lines.deep_view();
    let l = line_padded(&section_segs, TOTAL_WIDTH);
    lines.push(l);
    proof {
        reveal_strlit("Session-Based Usage Limits");
        assert(all_simple(section_frags()[0].text));
        lemma_simple_line(section_frags());
        assert(lines.deep_view() =~~= dv0.push(l@));
        if pok {
            lemma_wide_push(dv0, l@);
        }
    }

    let mut subtitle_segs: Vec<Segment> = Vec::new();
    subtitle_segs.push(
        Segment::styled("Based on rate-limit windows from the API".to_owned(), Style::Dimmed),
    );
    proof {
        assert(frags_of(subtitle_segs@) =~~= subtitle_frags());
    }
    let ghost dv0 = lines.deep_view();
    let l = line_padded(&subtitle_segs, TOTAL_WIDTH);
    lines.push(l);
    proof {
        reveal_strlit("Based on rate-limit windows from the API");
        assert(all_simple(subtitle_frags()[0].text));
        lemma_simple_line(subtitle_frags());
        assert(lines.deep_view() =~~= dv0.push(l@));
        if pok {
            lemma_wide_push(dv0, l@);
        }
    }
    let ghost dv0 = lines.deep_view();
    let l = rule_line("-", TOTAL_WIDTH);
    lines.push(l);
    proof {
        assert(lines.deep_view() =~~= dv0.push(l@));
        if pok {
            lemma_wide_push(dv0, l@);
        }
    }

    match &response.rate_limit {
        Some(rl) => {
            let ghost dv0 = lines.deep_view();
            let mut section = render_windows(rl, now);
            let ghost sec = section.deep_view();
            lines.append(&mut section);
            proof {
                assert(lines.deep_view() =~~= dv0 + sec);
                if pok {
                    assert forall|i: int| 0 <= i < (dv0 + sec).len() implies visible_width(
                        #[trigger] (dv0 + sec)[i],
                    ) >= 74 by {
                        if i < dv0.len() {
                            assert((dv0 + sec)[i] == dv0[i]);
                        } else {
                            assert((dv0 + sec)[i] == sec[i - dv0.len()]);
                        }
                    }
                }
            }
        },
        None => {
            let mut nd: Vec<Segment> = Vec::new();
            nd.push(Segment::plain("No rate-limit data available.".to_owned()));
            proof {
                assert(frags_of(nd@) =~~= no_data_frags());
            }
            let ghost dv0 = lines.deep_view();
            let l = line_padded(&nd, TOTAL_WIDTH);
            lines.push(l);
            proof {
                reveal_strlit("No rate-limit data available.");
                assert(all_simple(no_data_frags()[0].text));
                lemma_simple_line(no_data_frags());
                assert(lines.deep_view() =~~= dv0.push(l@));
                if pok {
                    lemma_wide_push(dv0, l@);
                }
            }
        },
    }
    let ghost dv0 = lines.deep_view();
    let l = rule_line("=", TOTAL_WIDTH);
    lines.push(l);
    proof {
        assert(lines.deep_view() =~~= dv0.push(l@));
        if pok {
            lemma_wide_push(dv0, l@);
        }
        assert(lines.deep_view() =~~= usage_lines(*response, now as int));
    }
    lines
}

} // verus!
