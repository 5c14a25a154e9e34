use codex_usage::api::{CreditDetails, PlanType, RateLimitDetails, UsageResponse, WindowSnapshot};
use codex_usage::display::{
    display_pace_line, display_window_line, format_label_minutes, format_meta_line,
    format_reset_time, line_centered, line_padded, render_usage, reset_label_width, rule_line,
    TOTAL_WIDTH,
};
use codex_usage::pace::UsagePace;
use codex_usage::style::{Segment, Style};
use codex_usage::width::visible_len;
use colored::Colorize;
use unicode_width::UnicodeWidthStr;

fn window(used_percent: i64, reset_at: i64, limit_window_seconds: i64) -> WindowSnapshot {
    WindowSnapshot { used_percent, reset_at, limit_window_seconds, reset_after_seconds: None }
}

fn stripped(s: &str) -> String {
    String::from_utf8(strip_ansi_escapes::strip(s.as_bytes())).unwrap()
}

#[test]
fn test_visible_len_ignores_styling() {
    colored::control::set_override(true);
    let plain = "5h Window (5h)";
    let styled = plain.bold().bright_cyan().to_string();
    assert_ne!(styled, plain);
    assert_eq!(visible_len(&styled), visible_len(plain));
    assert_eq!(visible_len(plain), 14);
    let red = "● 55%".red().to_string();
    assert_eq!(visible_len(&red), 5);
}

#[test]
fn test_rule_line_width() {
    let r = rule_line("=", TOTAL_WIDTH);
    assert_eq!(visible_len(&r), TOTAL_WIDTH);
    assert_eq!(r, "=".repeat(TOTAL_WIDTH));
    let r = rule_line("-", 10);
    assert_eq!(r, "----------");
}

#[test]
fn test_padded_line_widths() {
    // Empty content.
    let segs: Vec<Segment> = vec![];
    assert_eq!(visible_len(&line_padded(&segs, TOTAL_WIDTH)), TOTAL_WIDTH);
    // Styled content.
    let segs = vec![
        Segment::styled("hello".to_string(), Style::Bold),
        Segment::plain(" world".to_string()),
    ];
    let line = line_padded(&segs, TOTAL_WIDTH);
    assert_eq!(visible_len(&line), TOTAL_WIDTH);
    assert_eq!(stripped(&line), format!("hello world{}", " ".repeat(TOTAL_WIDTH - 11)));
    // Content that exactly fills the line.
    let segs = vec![Segment::plain("x".repeat(TOTAL_WIDTH))];
    assert_eq!(visible_len(&line_padded(&segs, TOTAL_WIDTH)), TOTAL_WIDTH);
    // Content too wide is kept whole, not truncated.
    let segs = vec![Segment::plain("x".repeat(TOTAL_WIDTH + 7))];
    assert_eq!(visible_len(&line_padded(&segs, TOTAL_WIDTH)), TOTAL_WIDTH + 7);
}

#[test]
fn test_centered_line_widths() {
    let segs = vec![Segment::styled("TITLE".to_string(), Style::Title)];
    let line = line_centered(&segs, TOTAL_WIDTH);
    assert_eq!(visible_len(&line), TOTAL_WIDTH);
    let plain = stripped(&line);
    // 69 columns of slack: 34 left, 35 right.
    assert_eq!(plain, format!("{}TITLE{}", " ".repeat(34), " ".repeat(35)));
    // Empty content centers to all spaces.
    let segs: Vec<Segment> = vec![];
    assert_eq!(stripped(&line_centered(&segs, 8)), " ".repeat(8));
    // Oversized content gets no padding at all.
    let segs = vec![Segment::plain("y".repeat(80))];
    assert_eq!(stripped(&line_centered(&segs, TOTAL_WIDTH)), "y".repeat(80));
}

#[test]
fn test_window_line_bar_proportional() {
    // used 45% of a 5h window, 2h to reset: remaining 55, nominal band.
    let now = 1_700_000_000;
    let w = window(45, now + 7_200, 18_000);
    let label = format!("5h Window ({})", format_label_minutes(&w));
    assert_eq!(label, "5h Window (5h)");
    let line = display_window_line(&w, &label, now, TOTAL_WIDTH);
    assert_eq!(visible_len(&line), TOTAL_WIDTH);
    let plain = stripped(&line);
    // label part "● 5h Window (5h)" is 16 columns, " 55%" is 4,
    // "reset 2h" is 8; 74 - 16 - 1 - 4 - 1 - 8 - 1 = 43 bar columns.
    let fills = plain.chars().filter(|c| *c == '█').count();
    let empties = plain.chars().filter(|c| *c == '░').count();
    assert_eq!(fills + empties, 43);
    assert_eq!(fills, 55 * 43 / 100);
    assert!(plain.contains(" 55%"));
    assert!(plain.contains("reset 2h"));
    // Nominal band: the dot and the readout are green.
    assert!(line.contains("\u{1b}[32m●\u{1b}[0m"));
    assert!(line.contains("\u{1b}[32m 55%\u{1b}[0m"));
}

#[test]
fn test_window_line_clamps_out_of_range_usage() {
    let now = 1_700_000_000;
    // Usage above 100 renders as zero remaining, severe band, empty bar.
    let over = display_window_line(&window(150, now + 7_200, 18_000), "w", now, TOTAL_WIDTH);
    let plain = stripped(&over);
    assert!(plain.contains("  0%"));
    assert_eq!(plain.chars().filter(|c| *c == '█').count(), 0);
    assert!(over.contains("\u{1b}[31m"));
    assert_eq!(visible_len(&over), TOTAL_WIDTH);
    // Usage below 0 renders as all remaining.
    let under = display_window_line(&window(-5, now + 7_200, 18_000), "w", now, TOTAL_WIDTH);
    let plain = stripped(&under);
    assert!(plain.contains("100%"));
    assert_eq!(plain.chars().filter(|c| *c == '░').count(), 0);
    assert_eq!(visible_len(&under), TOTAL_WIDTH);
}

#[test]
fn test_window_line_edge_fills() {
    let now = 1_700_000_000;
    // Zero remaining: no filled glyphs; severity red.
    let line = display_window_line(&window(100, now + 7_200, 18_000), "w", now, TOTAL_WIDTH);
    assert_eq!(visible_len(&line), TOTAL_WIDTH);
    assert_eq!(stripped(&line).chars().filter(|c| *c == '█').count(), 0);
    // Full remaining: the whole bar is filled.
    let line = display_window_line(&window(0, now + 7_200, 18_000), "w", now, TOTAL_WIDTH);
    assert_eq!(visible_len(&line), TOTAL_WIDTH);
    assert_eq!(stripped(&line).chars().filter(|c| *c == '░').count(), 0);
    // A long label squeezes the bar but the line still measures out.
    let label = "w".repeat(40);
    let line = display_window_line(&window(45, now + 7_200, 18_000), &label, now, TOTAL_WIDTH);
    assert_eq!(visible_len(&line), TOTAL_WIDTH);
}

#[test]
fn test_pace_line_alignment() {
    let now = 1_700_000_000;
    let w = window(80, now + 60_480, 604_800);
    let pace = UsagePace::from_window(&w, now, 10_080).unwrap();
    let rlw = reset_label_width(&w, now);
    let line = display_pace_line(&pace, TOTAL_WIDTH, rlw);
    assert_eq!(visible_len(&line), TOTAL_WIDTH);
    let plain = stripped(&line);
    assert!(plain.starts_with("Pace: ↓↓ behind (-10.0%)"));
    assert!(plain.contains("ETA: "));
    // The ETA column aims at where the reset labels start.
    let eta_start = plain.find("ETA:").unwrap();
    let plain_cols: Vec<char> = plain.chars().collect();
    let eta_char_start = plain_cols.len() - plain[eta_start..].chars().count();
    let eta_cols = UnicodeWidthStr::width(&plain[eta_start..]);
    assert_eq!(eta_char_start + eta_cols, TOTAL_WIDTH);
    assert_eq!(TOTAL_WIDTH - eta_cols, TOTAL_WIDTH - rlw.max(eta_cols));
}

#[test]
fn test_format_reset_time_buckets() {
    let now = 1_700_000_000;
    assert_eq!(format_reset_time(now + 183_600, now), "2d 3h");
    assert_eq!(format_reset_time(now + 2 * 86_400, now), "2d");
    assert_eq!(format_reset_time(now + 3_660, now), "1h 1m");
    assert_eq!(format_reset_time(now + 7_200, now), "2h");
    assert_eq!(format_reset_time(now + 3_600, now), "60m");
    assert_eq!(format_reset_time(now + 150, now), "2m");
    assert_eq!(format_reset_time(now - 300, now), "-5m");
}

#[test]
fn test_format_label_minutes_forms() {
    let now = 0;
    assert_eq!(format_label_minutes(&window(0, now, 18_000)), "5h");
    assert_eq!(format_label_minutes(&window(0, now, 19_800)), "5h 30m");
    assert_eq!(format_label_minutes(&window(0, now, 1_800)), "30m");
    assert_eq!(format_label_minutes(&window(0, now, 0)), "0m");
}

#[test]
fn test_meta_line_contents() {
    let resp = UsageResponse {
        plan_type: Some(PlanType::Plus),
        rate_limit: None,
        credits: Some(CreditDetails {
            has_credits: Some(true),
            unlimited: Some(false),
            balance_cents: Some(1_234),
        }),
    };
    let meta = format_meta_line(&resp).unwrap();
    assert_eq!(stripped(&meta), "[ plan: PLUS | credits: $12.34 ]");

    let no_credit = UsageResponse {
        plan_type: Some(PlanType::Unknown("beta tier".to_string())),
        rate_limit: None,
        credits: None,
    };
    assert_eq!(stripped(&format_meta_line(&no_credit).unwrap()), "[ plan: BETA TIER ]");

    let unlimited = UsageResponse {
        plan_type: None,
        rate_limit: None,
        credits: Some(CreditDetails {
            has_credits: Some(true),
            unlimited: Some(true),
            balance_cents: None,
        }),
    };
    assert_eq!(stripped(&format_meta_line(&unlimited).unwrap()), "[ credits: Unlimited ]");

    let none = UsageResponse { plan_type: None, rate_limit: None, credits: None };
    assert!(format_meta_line(&none).is_none());

    let negative = UsageResponse {
        plan_type: None,
        rate_limit: None,
        credits: Some(CreditDetails {
            has_credits: Some(true),
            unlimited: None,
            balance_cents: Some(-305),
        }),
    };
    assert_eq!(stripped(&format_meta_line(&negative).unwrap()), "[ credits: $-3.05 ]");

    let no_flag = UsageResponse {
        plan_type: None,
        rate_limit: None,
        credits: Some(CreditDetails {
            has_credits: Some(false),
            unlimited: Some(true),
            balance_cents: Some(100),
        }),
    };
    assert_eq!(stripped(&format_meta_line(&no_flag).unwrap()), "[ credits: None ]");
}

#[test]
fn test_render_usage_full_dashboard() {
    let now = 1_700_000_000;
    let resp = UsageResponse {
        plan_type: Some(PlanType::Pro),
        rate_limit: Some(RateLimitDetails {
            primary_window: Some(window(45, now + 7_200, 18_000)),
            secondary_window: Some(window(80, now + 60_480, 604_800)),
            allowed: Some(true),
            limit_reached: Some(false),
        }),
        credits: None,
    };
    let lines = render_usage(&resp, now);
    // title, rule, meta, rule, heading, subtitle, rule, primary, rule,
    // secondary, rule, pace, rule.
    assert_eq!(lines.len(), 13);
    for line in &lines {
        assert_eq!(visible_len(line), TOTAL_WIDTH, "line: {:?}", line);
    }
    assert!(stripped(&lines[0]).contains("✦ ✦ ✦ CODEX USAGE MONITOR ✦ ✦ ✦"));
    assert_eq!(lines[1], "=".repeat(TOTAL_WIDTH));
    assert!(stripped(&lines[2]).contains("[ plan: PRO ]"));
    assert!(stripped(&lines[7]).contains("5h Window (5h)"));
    assert!(stripped(&lines[9]).contains("Weekly Window (168h)"));
    assert!(stripped(&lines[11]).starts_with("Pace: ↓↓ behind (-10.0%)"));
    assert_eq!(lines[12], "=".repeat(TOTAL_WIDTH));
}

#[test]
fn test_render_usage_without_rate_limit() {
    let resp = UsageResponse { plan_type: None, rate_limit: None, credits: None };
    let lines = render_usage(&resp, 1_700_000_000);
    // title, rule, heading, subtitle, rule, no-data notice, rule.
    assert_eq!(lines.len(), 7);
    assert!(stripped(&lines[5]).starts_with("No rate-limit data available."));
    for line in &lines {
        assert_eq!(visible_len(line), TOTAL_WIDTH);
    }
}

#[test]
fn test_render_usage_pace_falls_back_to_primary() {
    let now = 1_700_000_000;
    // The weekly window reports a reset beyond a full window (stale), the
    // 5h window projects fine: the pace line uses the 5h window.
    let resp = UsageResponse {
        plan_type: None,
        rate_limit: Some(RateLimitDetails {
            primary_window: Some(window(45, now + 7_200, 18_000)),
            secondary_window: Some(window(80, now + 999_999_999, 604_800)),
            allowed: None,
            limit_reached: None,
        }),
        credits: None,
    };
    let lines = render_usage(&resp, now);
    let pace_lines: Vec<String> =
        lines.iter().map(|l| stripped(l)).filter(|l| l.starts_with("Pace:")).collect();
    assert_eq!(pace_lines.len(), 1);
    // 45% used at 60% elapsed of 5h: delta -15, far behind.
    assert!(pace_lines[0].starts_with("Pace: ↓↓↓ far behind (-15.0%)"));
}
