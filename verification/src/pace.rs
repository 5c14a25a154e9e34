//! The pace projector: given one window snapshot and the current time, decide
//! whether consumption is ahead of, behind, or on the pace that would exactly
//! exhaust the quota at the reset boundary, and estimate time to exhaustion.
//!
//! All percentage arithmetic is exact: deviations are compared as integer
//! rationals (a numerator scaled by the window duration), and the stored
//! fields carry tenths of a percentage point.

use vstd::prelude::*;

use crate::api::WindowSnapshot;
use crate::numfmt::{dec_digits, digit_char, u64_to_dec};

verus! {

/// How far actual consumption deviates from the uniform-consumption pace,
/// in seven ordered categories.
#[derive(Debug, Clone, Copy, PartialEq, Eq, Structural)]
pub enum Stage {
    OnTrack,
    SlightlyAhead,
    Ahead,
    FarAhead,
    SlightlyBehind,
    Behind,
    FarBehind,
}

/// The verdict of projecting one window against wall-clock time.
///
/// `delta_tenths` and `expected_used_tenths` are in tenths of a percentage
/// point; `actual_used_percent` is the clamped whole-percent reading.
/// `eta_seconds` is the projected time to 100% usage, absent when the quota
/// is projected to survive to the reset (or no projection is possible).
#[derive(Debug, Clone)]
pub struct UsagePace {
    pub stage: Stage,
    pub delta_tenths: i64,
    pub expected_used_tenths: i64,
    pub actual_used_percent: i64,
    pub eta_seconds: Option<i64>,
    pub will_last_to_reset: bool,
}

/// The window length in minutes that a projection uses: the reported window
/// if it spans at least one whole minute, else the caller's default.
pub open spec fn resolved_window_minutes(w: WindowSnapshot, default_window_minutes: int) -> int {
    if w.limit_window_seconds >= 60 {
        w.limit_window_seconds as int / 60
    } else {
        default_window_minutes
    }
}

/// The projection window length in seconds.
pub open spec fn window_duration_sec(w: WindowSnapshot, default_window_minutes: int) -> int {
    resolved_window_minutes(w, default_window_minutes) * 60
}

/// Seconds until the reported reset, floored at zero.
pub open spec fn seconds_until_reset(w: WindowSnapshot, now: int) -> int {
    if w.reset_at - now > 0 {
        w.reset_at - now
    } else {
        0
    }
}

/// Seconds of the window that have already elapsed.
pub open spec fn elapsed_sec(w: WindowSnapshot, now: int, default_window_minutes: int) -> int {
    window_duration_sec(w, default_window_minutes) - seconds_until_reset(w, now)
}

/// The reported usage percentage clamped into 0..=100.
pub open spec fn clamped_used(w: WindowSnapshot) -> int {
    if w.used_percent < 0 {
        0
    } else if w.used_percent > 100 {
        100
    } else {
        w.used_percent as int
    }
}

/// A window admits a verdict exactly when the reported reset lies inside one
/// window length, is not at the boundary itself, and usage has not been
/// reported before any window time elapsed.
pub open spec fn projectable(w: WindowSnapshot, now: int, default_window_minutes: int) -> bool {
    let dur = window_duration_sec(w, default_window_minutes);
    let tur = seconds_until_reset(w, now);
    &&& tur <= dur
    &&& tur != 0
    &&& !(dur - tur == 0 && clamped_used(w) > 0)
}

/// `a / b` rounded to the nearest integer, halves away from zero,
/// for `a >= 0 < b`.
pub open spec fn round_div(a: int, b: int) -> int {
    (2 * a + b) / (2 * b)
}

/// Expected usage under uniform consumption, in tenths of a percent.
pub open spec fn expected_used_tenths(w: WindowSnapshot, now: int, default_window_minutes: int) -> int {
    round_div(1000 * elapsed_sec(w, now, default_window_minutes), window_duration_sec(w, default_window_minutes))
}

/// The deviation of actual from expected usage, in percentage points scaled
/// by the window duration: `delta_percent == delta_scaled / duration`.
pub open spec fn delta_scaled(w: WindowSnapshot, now: int, default_window_minutes: int) -> int {
    clamped_used(w) * window_duration_sec(w, default_window_minutes) - 100 * elapsed_sec(
        w,
        now,
        default_window_minutes,
    )
}

/// The stage for a deviation of `num / den` percentage points (`den > 0`).
/// Magnitudes up to 2 points are on track, up to 6 slight, up to 12 plain,
/// beyond that far; every boundary belongs to the lower-magnitude stage.
pub open spec fn stage_of_scaled(num: int, den: int) -> Stage {
    let mag = if num < 0 {
        -num
    } else {
        num
    };
    if mag <= 2 * den {
        Stage::OnTrack
    } else if mag <= 6 * den {
        if num >= 0 {
            Stage::SlightlyAhead
        } else {
            Stage::SlightlyBehind
        }
    } else if mag <= 12 * den {
        if num >= 0 {
            Stage::Ahead
        } else {
            Stage::Behind
        }
    } else {
        if num >= 0 {
            Stage::FarAhead
        } else {
            Stage::FarBehind
        }
    }
}

/// Projected seconds until usage reaches 100%, present exactly when usage is
/// positive, time has elapsed, and the projection falls short of the reset.
pub open spec fn projected_eta(w: WindowSnapshot, now: int, default_window_minutes: int) -> Option<
    int,
> {
    let e = elapsed_sec(w, now, default_window_minutes);
    let a = clamped_used(w);
    let tur = seconds_until_reset(w, now);
    if e > 0 && a > 0 && (100 - a) * e < tur * a {
        Some((100 - a) * e / a)
    } else {
        None
    }
}

/// Whether the projection predicts the quota survives to the reset boundary.
pub open spec fn projected_survives(w: WindowSnapshot, now: int, default_window_minutes: int) -> bool {
    let e = elapsed_sec(w, now, default_window_minutes);
    let a = clamped_used(w);
    let tur = seconds_until_reset(w, now);
    if e > 0 && a > 0 {
        (100 - a) * e >= tur * a
    } else {
        e > 0
    }
}

/// The verdict that `UsagePace::from_window` returns on a projectable window.
pub open spec fn projected_pace(w: WindowSnapshot, now: int, default_window_minutes: int) -> UsagePace {
    UsagePace {
        stage: stage_of_scaled(
            delta_scaled(w, now, default_window_minutes),
            window_duration_sec(w, default_window_minutes),
        ),
        delta_tenths: (clamped_used(w) * 10 - expected_used_tenths(w, now, default_window_minutes)) as i64,
        expected_used_tenths: expected_used_tenths(w, now, default_window_minutes) as i64,
        actual_used_percent: clamped_used(w) as i64,
        eta_seconds: match projected_eta(w, now, default_window_minutes) {
            Some(x) => Some(x as i64),
            None => None,
        },
        will_last_to_reset: projected_survives(w, now, default_window_minutes),
    }
}

impl UsagePace {
    /// Field sanity that every verdict produced by `from_window` satisfies.
    pub open spec fn wf(self) -> bool {
        &&& -1000 <= self.delta_tenths <= 1000
        &&& 0 <= self.expected_used_tenths <= 1000
        &&& 0 <= self.actual_used_percent <= 100
        &&& match self.eta_seconds {
            Some(e) => e >= 0,
            None => true,
        }
    }

    /// Project one window snapshot against the current time, substituting
    /// `default_window_minutes` when the snapshot reports no positive window
    /// length. Returns no verdict when the reset lies beyond a full window,
    /// exactly at the boundary, or usage is reported before any time elapsed.
    pub fn from_window(window: &WindowSnapshot, now: i64, default_window_minutes: i64) -> (r: Option<
        UsagePace,
    >)
        requires
            -((i64::MAX as int) / 60) <= default_window_minutes as int,
            default_window_minutes as int <= (i64::MAX as int) / 60,
        ensures
            r is Some <==> projectable(*window, now as int, default_window_minutes as int),
            projectable(*window, now as int, default_window_minutes as int) ==> r == Some(
                projected_pace(*window, now as int, default_window_minutes as int),
            ),
            r is Some ==> r.unwrap().wf(),
    {
        let window_minutes: i64 = if window.limit_window_seconds >= 60 {
            let wm = (window.limit_window_seconds as u64) / 60;
            proof {
                vstd::arithmetic::div_mod::lemma_div_is_ordered(
                    window.limit_window_seconds as int,
                    i64::MAX as int,
                    60,
                );
            }
            wm as i64
        } else {
            default_window_minutes
        };
        assert(-((i64::MAX as int) / 60) <= window_minutes as int <= (i64::MAX as int) / 60);
        let duration_i64: i64 = window_minutes * 60;
        let duration: i128 = duration_i64 as i128;
        let diff: i128 = window.reset_at as i128 - now as i128;
        let tur: i128 = if diff > 0 {
            diff
        } else {
            0
        };
        if tur > duration || tur == 0 {
            return None;
        }
        let ghost gw = *window;
        let ghost gnow = now as int;
        let ghost gd = default_window_minutes as int;
        assert(duration == window_duration_sec(gw, gd));
        assert(tur == seconds_until_reset(gw, gnow));
        let dur_u: u128 = duration as u128;
        let tur_u: u128 = tur as u128;
        let elapsed: u128 = dur_u - tur_u;
        let actual: i64 = if window.used_percent < 0 {
            0
        } else if window.used_percent > 100 {
            100
        } else {
            window.used_percent
        };
        if elapsed == 0 && actual > 0 {
            return None;
        }
        assert(projectable(gw, gnow, gd));
        let a: u128 = actual as u128;

        let exp_tenths_u: u128 = (2000 * elapsed + dur_u) / (2 * dur_u);
        assert(exp_tenths_u == expected_used_tenths(gw, gnow, gd));
        assert(exp_tenths_u <= 1000) by {
            assert(2000 * elapsed + dur_u < 1001 * (2 * dur_u)) by (nonlinear_arith)
                requires
                    elapsed < dur_u,
                    dur_u > 0,
            ;
            assert((2000 * elapsed + dur_u) / (2 * dur_u) < 1001) by (nonlinear_arith)
                requires
                    2000 * elapsed + dur_u < 1001 * (2 * dur_u),
                    dur_u > 0,
            ;
        }
        let exp_tenths: i64 = exp_tenths_u as i64;
        let delta_tenths: i64 = actual * 10 - exp_tenths;

        assert(0 <= (actual as i128) * duration <= 100 * duration) by (nonlinear_arith)
            requires
                0 <= actual <= 100,
                duration > 0,
        ;
        let num: i128 = (actual as i128) * duration - 100 * (elapsed as i128);
        assert(num == delta_scaled(gw, gnow, gd));
        assert(-100 * duration <= num <= 100 * duration) by (nonlinear_arith)
            requires
                num == (actual as i128) * duration - 100 * (elapsed as i128),
                0 <= actual <= 100,
                0 <= elapsed < duration,
        ;
        let stage = stage_from_scaled(num, duration);

        let (eta_seconds, will_last_to_reset): (Option<i64>, bool) = if elapsed > 0 && actual > 0 {
            assert((100 - a) * elapsed <= 100 * dur_u && tur_u * a <= 100 * dur_u)
                by (nonlinear_arith)
                requires
                    0 < a <= 100,
                    0 < elapsed < dur_u,
                    0 < tur_u <= dur_u,
            ;
            let cand: u128 = (100 - a) * elapsed;
            let thresh: u128 = tur_u * a;
            if cand >= thresh {
                (None, true)
            } else {
                let eta: u128 = cand / a;
                assert(eta < tur_u) by (nonlinear_arith)
                    requires
                        eta == cand / a,
                        cand < tur_u * a,
                        a > 0,
                ;
                (Some(eta as i64), false)
            }
        } else if elapsed > 0 {
            (None, true)
        } else {
            (None, false)
        };

        Some(
            UsagePace {
                stage,
                delta_tenths,
                expected_used_tenths: exp_tenths,
                actual_used_percent: actual,
                eta_seconds,
                will_last_to_reset,
            },
        )
    }
}

/// Classify a deviation of `num / den` percentage points into its stage.
fn stage_from_scaled(num: i128, den: i128) -> (r: Stage)
    requires
        0 < den,
        den as int <= (i128::MAX as int) / 12,
        (i128::MIN as int) < num as int,
    ensures
        r == stage_of_scaled(num as int, den as int),
{
    let mag: i128 = if num < 0 {
        -num
    } else {
        num
    };
    if mag <= 2 * den {
        Stage::OnTrack
    } else if mag <= 6 * den {
        if num >= 0 {
            Stage::SlightlyAhead
        } else {
            Stage::SlightlyBehind
        }
    } else if mag <= 12 * den {
        if num >= 0 {
            Stage::Ahead
        } else {
            Stage::Behind
        }
    } else {
        if num >= 0 {
            Stage::FarAhead
        } else {
            Stage::FarBehind
        }
    }
}

/// The stage for a deviation given in tenths of a percentage point.
pub fn stage_from_delta(delta_tenths: i64) -> (r: Stage)
    ensures
        r == stage_of_scaled(delta_tenths as int, 10),
{
    stage_from_scaled(delta_tenths as i128, 10)
}

/// The arrow marker shown for a stage.
pub open spec fn stage_emoji_text(s: Stage) -> Seq<char> {
    match s {
        Stage::OnTrack => "✓"@,
        Stage::SlightlyAhead => "↑"@,
        Stage::Ahead => "↑↑"@,
        Stage::FarAhead => "↑↑↑"@,
        Stage::SlightlyBehind => "↓"@,
        Stage::Behind => "↓↓"@,
        Stage::FarBehind => "↓↓↓"@,
    }
}

/// The short description shown for a stage.
pub open spec fn stage_description_text(s: Stage) -> Seq<char> {
    match s {
        Stage::OnTrack => "on track"@,
        Stage::SlightlyAhead => "slightly ahead"@,
        Stage::Ahead => "ahead"@,
        Stage::FarAhead => "far ahead"@,
        Stage::SlightlyBehind => "slightly behind"@,
        Stage::Behind => "behind"@,
        Stage::FarBehind => "far behind"@,
    }
}

/// How a verdict's time-to-exhaustion reads: "until reset" when the quota is
/// projected to survive, a day/hour, hour/minute or minute rendering of the
/// projected seconds otherwise, and "unknown" when there is no projection.
pub open spec fn eta_text(p: UsagePace) -> Seq<char> {
    if p.will_last_to_reset {
        "until reset"@
    } else {
        match p.eta_seconds {
            Some(e) => {
                if e > 86400 {
                    dec_digits((e as int / 86400) as nat) + "d "@ + dec_digits(
                        ((e as int % 86400) / 3600) as nat,
                    ) + "h"@
                } else if e > 3600 {
                    dec_digits((e as int / 3600) as nat) + "h "@ + dec_digits(
                        ((e as int % 3600) / 60) as nat,
                    ) + "m"@
                } else {
                    dec_digits((e as int / 60) as nat) + "m"@
                }
            },
            None => "unknown"@,
        }
    }
}

/// A deviation in tenths of a percentage point, rendered with an explicit
/// sign and one decimal place, e.g. "+2.0%" or "-4.5%".
pub open spec fn delta_text(t: int) -> Seq<char> {
    let mag = if t < 0 {
        -t
    } else {
        t
    };
    let sign = if t >= 0 {
        seq!['+']
    } else {
        seq!['-']
    };
    sign + dec_digits((mag / 10) as nat) + seq!['.'] + seq![digit_char((mag % 10) as nat)] + seq![
        '%',
    ]
}

impl UsagePace {
    /// The arrow marker for this verdict's stage.
    pub fn stage_emoji(&self) -> (r: &'static str)
        ensures
            r@ == stage_emoji_text(self.stage),
    {
        match self.stage {
            Stage::OnTrack => "✓",
            Stage::SlightlyAhead => "↑",
            Stage::Ahead => "↑↑",
            Stage::FarAhead => "↑↑↑",
            Stage::SlightlyBehind => "↓",
            Stage::Behind => "↓↓",
            Stage::FarBehind => "↓↓↓",
        }
    }

    /// The short description of this verdict's stage.
    pub fn stage_description(&self) -> (r: &'static str)
        ensures
            r@ == stage_description_text(self.stage),
    {
        match self.stage {
            Stage::OnTrack => "on track",
            Stage::SlightlyAhead => "slightly ahead",
            Stage::Ahead => "ahead",
            Stage::FarAhead => "far ahead",
            Stage::SlightlyBehind => "slightly behind",
            Stage::Behind => "behind",
            Stage::FarBehind => "far behind",
        }
    }

    /// Render the time-to-exhaustion projection.
    pub fn format_eta(&self) -> (r: String)
        requires
            self.wf(),
        ensures
            r@ == eta_text(*self),
    {
        if self.will_last_to_reset {
            "until reset".to_owned()
        } else {
            match self.eta_seconds {
                Some(eta) => {
                    let e = eta as u64;
                    if e > 86400 {
                        let mut s = u64_to_dec(e / 86400);
                        s.append("d ");
                        s.append(u64_to_dec((e % 86400) / 3600).as_str());
                        s.append("h");
                        proof {
                            assert(s@ =~= eta_text(*self));
                        }
                        s
                    } else if e > 3600 {
                        let mut s = u64_to_dec(e / 3600);
                        s.append("h ");
                        s.append(u64_to_dec((e % 3600) / 60).as_str());
                        s.append("m");
                        proof {
                            assert(s@ =~= eta_text(*self));
                        }
                        s
                    } else {
                        let mut s = u64_to_dec(e / 60);
                        s.append("m");
                        proof {
                            assert(s@ =~= eta_text(*self));
                        }
                        s
                    }
                },
                None => "unknown".to_owned(),
            }
        }
    }

    /// Render the deviation with an explicit sign and one decimal place.
    pub fn format_delta(&self) -> (r: String)
        ensures
            r@ == delta_text(self.delta_tenths as int),
    {
        let t = self.delta_tenths;
        let mut s: String;
        let m: u64;
        if t >= 0 {
            s = "+".to_owned();
            m = t as u64;
        } else {
            s = "-".to_owned();
            m = (-(t as i128)) as u64;
        }
        s.append(u64_to_dec(m / 10).as_str());
        s.append(".");
        s.append(u64_to_dec(m % 10).as_str());
        s.append("%");
        proof {
            reveal_strlit("+");
            reveal_strlit("-");
            reveal_strlit(".");
            reveal_strlit("%");
            assert(s@ =~= delta_text(t as int));
        }
        s
    }
}

/// A verdict never carries a projected exhaustion time and at the same time
/// predicts that the quota survives to the reset.
pub proof fn lemma_eta_excludes_survival(w: WindowSnapshot, now: int, default_window_minutes: int)
    ensures
        !(projected_pace(w, now, default_window_minutes).eta_seconds is Some
            && projected_pace(w, now, default_window_minutes).will_last_to_reset),
{
}

/// No verdict exists when the reported reset lies further out than one full
/// window, or exactly at the reset boundary.
pub proof fn lemma_no_verdict_outside_window(w: WindowSnapshot, now: int, default_window_minutes: int)
    requires
        seconds_until_reset(w, now) > window_duration_sec(w, default_window_minutes)
            || seconds_until_reset(w, now) == 0,
    ensures
        !projectable(w, now, default_window_minutes),
{
}

} // verus!
