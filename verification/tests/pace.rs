use codex_usage::api::WindowSnapshot;
use codex_usage::pace::{stage_from_delta, Stage, UsagePace};

fn window(used_percent: i64, reset_at: i64, limit_window_seconds: i64) -> WindowSnapshot {
    WindowSnapshot { used_percent, reset_at, limit_window_seconds, reset_after_seconds: None }
}

#[test]
fn test_stage_from_delta() {
    assert_eq!(stage_from_delta(0), Stage::OnTrack);
    assert_eq!(stage_from_delta(20), Stage::OnTrack);
    assert_eq!(stage_from_delta(-20), Stage::OnTrack);
    assert_eq!(stage_from_delta(40), Stage::SlightlyAhead);
    assert_eq!(stage_from_delta(-40), Stage::SlightlyBehind);
    assert_eq!(stage_from_delta(100), Stage::Ahead);
    assert_eq!(stage_from_delta(-100), Stage::Behind);
    assert_eq!(stage_from_delta(200), Stage::FarAhead);
    assert_eq!(stage_from_delta(-200), Stage::FarBehind);
}

#[test]
fn test_stage_boundaries_inclusive_below() {
    assert_eq!(stage_from_delta(60), Stage::SlightlyAhead);
    assert_eq!(stage_from_delta(-60), Stage::SlightlyBehind);
    assert_eq!(stage_from_delta(120), Stage::Ahead);
    assert_eq!(stage_from_delta(-120), Stage::Behind);
    assert_eq!(stage_from_delta(21), Stage::SlightlyAhead);
    assert_eq!(stage_from_delta(-21), Stage::SlightlyBehind);
    assert_eq!(stage_from_delta(61), Stage::Ahead);
    assert_eq!(stage_from_delta(121), Stage::FarAhead);
}

#[test]
fn test_no_verdict_beyond_window_or_at_boundary() {
    let now = 1_700_000_000;
    // Reported reset further out than one full window: stale data.
    let w = window(50, now + 999_999, 18_000);
    assert!(UsagePace::from_window(&w, now, 300).is_none());
    // Reset exactly now: boundary, nothing to project from.
    let w = window(50, now, 18_000);
    assert!(UsagePace::from_window(&w, now, 300).is_none());
    // Reset in the past also clamps to the boundary.
    let w = window(50, now - 50, 18_000);
    assert!(UsagePace::from_window(&w, now, 300).is_none());
}

#[test]
fn test_eta_never_coexists_with_survival() {
    let now = 1_700_000_000;
    for used in [-20i64, 0, 10, 45, 80, 100, 140] {
        for tur in [1i64, 3600, 7200, 17_999] {
            let w = window(used, now + tur, 18_000);
            if let Some(p) = UsagePace::from_window(&w, now, 300) {
                assert!(!(p.eta_seconds.is_some() && p.will_last_to_reset));
            }
        }
    }
}

#[test]
fn test_weekly_window_behind_pace() {
    // A 7-day window, 90% elapsed, with only 80% used: expected 90%,
    // delta -10 points, stage Behind.
    let now = 1_700_000_000;
    let week = 604_800;
    let tur = week / 10;
    let w = window(80, now + tur, week);
    let p = UsagePace::from_window(&w, now, 10_080).unwrap();
    assert_eq!(p.expected_used_tenths, 900);
    assert_eq!(p.actual_used_percent, 80);
    assert_eq!(p.delta_tenths, -100);
    assert_eq!(p.stage, Stage::Behind);
}

#[test]
fn test_zero_usage_survives_to_reset() {
    let now = 1_700_000_000;
    // Two of five hours left, nothing used yet.
    let w = window(0, now + 7_200, 18_000);
    let p = UsagePace::from_window(&w, now, 300).unwrap();
    assert!(p.will_last_to_reset);
    assert_eq!(p.eta_seconds, None);
    assert_eq!(p.actual_used_percent, 0);
}

#[test]
fn test_projection_eta_when_pace_exhausts_early() {
    let now = 1_700_000_000;
    // Half the window gone, 90% used: the quota dies well before the reset.
    let w = window(90, now + 9_000, 18_000);
    let p = UsagePace::from_window(&w, now, 300).unwrap();
    assert!(!p.will_last_to_reset);
    // rate = 90% per 9000s, 10% left: 1000 seconds to exhaustion.
    assert_eq!(p.eta_seconds, Some(1_000));
    assert_eq!(p.stage, Stage::FarAhead);
}

#[test]
fn test_default_window_used_when_unreported() {
    let now = 1_700_000_000;
    // No window length reported: the caller's default (300 minutes) rules.
    let w = window(50, now + 9_000, 0);
    let p = UsagePace::from_window(&w, now, 300).unwrap();
    assert_eq!(p.expected_used_tenths, 500);
    assert_eq!(p.delta_tenths, 0);
    assert_eq!(p.stage, Stage::OnTrack);
}

#[test]
fn test_usage_clamped_before_projection() {
    let now = 1_700_000_000;
    let over = window(150, now + 9_000, 18_000);
    let capped = window(100, now + 9_000, 18_000);
    let p_over = UsagePace::from_window(&over, now, 300).unwrap();
    let p_capped = UsagePace::from_window(&capped, now, 300).unwrap();
    assert_eq!(p_over.actual_used_percent, 100);
    assert_eq!(p_over.delta_tenths, p_capped.delta_tenths);
    assert_eq!(p_over.stage, p_capped.stage);
}

#[test]
fn test_boundary_elapsed_zero() {
    let now = 1_700_000_000;
    // Reset one full window away: no time has elapsed yet. With usage
    // already reported, the state is inconsistent and nothing is projected.
    let w = window(10, now + 18_000, 18_000);
    assert!(UsagePace::from_window(&w, now, 300).is_none());
    // With zero usage, a verdict exists but carries no projection at all.
    let w = window(0, now + 18_000, 18_000);
    let p = UsagePace::from_window(&w, now, 300).unwrap();
    assert!(!p.will_last_to_reset);
    assert_eq!(p.eta_seconds, None);
    assert_eq!(p.expected_used_tenths, 0);
}

#[test]
fn test_degenerate_window_never_projects() {
    let now = 1_700_000_000;
    // No reported window length and a zero default: nothing can project.
    let w = window(50, now + 100, 0);
    assert!(UsagePace::from_window(&w, now, 0).is_none());
    assert!(UsagePace::from_window(&w, now, -5).is_none());
}

#[test]
fn test_format_eta_buckets() {
    let base = UsagePace::from_window(
        &window(90, 1_700_000_000 + 9_000, 18_000),
        1_700_000_000,
        300,
    )
    .unwrap();
    let mut p = base.clone();
    p.will_last_to_reset = true;
    assert_eq!(p.format_eta(), "until reset");
    let mut p = base.clone();
    p.will_last_to_reset = false;
    p.eta_seconds = Some(90_000);
    assert_eq!(p.format_eta(), "1d 1h");
    p.eta_seconds = Some(7_200);
    assert_eq!(p.format_eta(), "2h 0m");
    p.eta_seconds = Some(150);
    assert_eq!(p.format_eta(), "2m");
    p.eta_seconds = None;
    assert_eq!(p.format_eta(), "unknown");
}

#[test]
fn test_format_delta_sign_and_decimal() {
    let base = UsagePace::from_window(
        &window(50, 1_700_000_000 + 9_000, 18_000),
        1_700_000_000,
        300,
    )
    .unwrap();
    let mut p = base.clone();
    p.delta_tenths = 20;
    assert_eq!(p.format_delta(), "+2.0%");
    p.delta_tenths = -45;
    assert_eq!(p.format_delta(), "-4.5%");
    p.delta_tenths = 0;
    assert_eq!(p.format_delta(), "+0.0%");
    p.delta_tenths = 1000;
    assert_eq!(p.format_delta(), "+100.0%");
}

#[test]
fn test_stage_markers() {
    let base = UsagePace::from_window(
        &window(50, 1_700_000_000 + 9_000, 18_000),
        1_700_000_000,
        300,
    )
    .unwrap();
    let mut p = base.clone();
    p.stage = Stage::OnTrack;
    assert_eq!(p.stage_emoji(), "✓");
    assert_eq!(p.stage_description(), "on track");
    p.stage = Stage::FarBehind;
    assert_eq!(p.stage_emoji(), "↓↓↓");
    assert_eq!(p.stage_description(), "far behind");
    p.stage = Stage::Ahead;
    assert_eq!(p.stage_emoji(), "↑↑");
    assert_eq!(p.stage_description(), "ahead");
}
