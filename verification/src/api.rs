//! Data shapes for one usage payload: per-window snapshots, the pair of
//! windows, credit information and the plan tier.

use vstd::prelude::*;

use vstd::string::StrSliceExecFns;

use crate::auth::is_space_char;

verus! {

/// A point-in-time read of one rate-limit window, as reported by the API.
///
/// `used_percent` may arrive outside 0..=100 and is clamped before any
/// arithmetic; `reset_at` is an absolute Unix timestamp in seconds and may lie
/// in the past; `limit_window_seconds` may be zero or negative, in which case
/// callers substitute a default duration.
#[derive(Debug, Clone)]
pub struct WindowSnapshot {
    pub used_percent: i64,
    pub reset_at: i64,
    pub limit_window_seconds: i64,
    pub reset_after_seconds: Option<i64>,
}

/// The pair of optional windows: a short "primary" one and a long "secondary"
/// one. Either may be absent; nothing ties the two together.
#[derive(Debug, Clone)]
pub struct RateLimitDetails {
    pub primary_window: Option<WindowSnapshot>,
    pub secondary_window: Option<WindowSnapshot>,
    pub allowed: Option<bool>,
    pub limit_reached: Option<bool>,
}

/// Credit information. The balance is carried in cents so that money
/// arithmetic and rendering stay exact.
#[derive(Debug, Clone)]
pub struct CreditDetails {
    pub has_credits: Option<bool>,
    pub unlimited: Option<bool>,
    pub balance_cents: Option<i64>,
}

/// The plan tier attached to a usage payload: the known tiers, plus a
/// fallback that carries an unrecognized tag through unchanged.
#[derive(Debug, Clone)]
pub enum PlanType {
    Guest,
    Free,
    Go,
    Plus,
    Pro,
    FreeWorkspace,
    Team,
    Business,
    Education,
    Quorum,
    K12,
    Enterprise,
    Edu,
    Unknown(String),
}

/// The wire tag of a plan tier.
pub open spec fn plan_tag(p: PlanType) -> Seq<char> {
    match p {
        PlanType::Guest => "guest"@,
        PlanType::Free => "free"@,
        PlanType::Go => "go"@,
        PlanType::Plus => "plus"@,
        PlanType::Pro => "pro"@,
        PlanType::FreeWorkspace => "free_workspace"@,
        PlanType::Team => "team"@,
        PlanType::Business => "business"@,
        PlanType::Education => "education"@,
        PlanType::Quorum => "quorum"@,
        PlanType::K12 => "k12"@,
        PlanType::Enterprise => "enterprise"@,
        PlanType::Edu => "edu"@,
        PlanType::Unknown(s) => s@,
    }
}

/// Whether a tag names one of the known plan tiers.
pub open spec fn known_tag(t: Seq<char>) -> bool {
    ||| t == "guest"@
    ||| t == "free"@
    ||| t == "go"@
    ||| t == "plus"@
    ||| t == "pro"@
    ||| t == "free_workspace"@
    ||| t == "team"@
    ||| t == "business"@
    ||| t == "education"@
    ||| t == "quorum"@
    ||| t == "k12"@
    ||| t == "enterprise"@
    ||| t == "edu"@
}

fn tag_eq(s: &String, lit: &str) -> (r: bool)
    ensures
        r == (s@ == lit@),
{
    let other = lit.to_owned();
    *s == other
}

impl PlanType {
    /// Decode a wire tag, passing an unrecognized one through as `Unknown`.
    pub fn from_tag(s: String) -> (r: PlanType)
        ensures
            plan_tag(r) == s@,
            (r is Unknown) <==> !known_tag(s@),
    {
        if tag_eq(&s, "guest") {
            PlanType::Guest
        } else if tag_eq(&s, "free") {
            PlanType::Free
        } else if tag_eq(&s, "go") {
            PlanType::Go
        } else if tag_eq(&s, "plus") {
            PlanType::Plus
        } else if tag_eq(&s, "pro") {
            PlanType::Pro
        } else if tag_eq(&s, "free_workspace") {
            PlanType::FreeWorkspace
        } else if tag_eq(&s, "team") {
            PlanType::Team
        } else if tag_eq(&s, "business") {
            PlanType::Business
        } else if tag_eq(&s, "education") {
            PlanType::Education
        } else if tag_eq(&s, "quorum") {
            PlanType::Quorum
        } else if tag_eq(&s, "k12") {
            PlanType::K12
        } else if tag_eq(&s, "enterprise") {
            PlanType::Enterprise
        } else if tag_eq(&s, "edu") {
            PlanType::Edu
        } else {
            PlanType::Unknown(s)
        }
    }

    /// The wire tag of this plan tier.
    pub fn as_tag(&self) -> (r: String)
        ensures
            r@ == plan_tag(*self),
    {
        match self {
            PlanType::Guest => "guest".to_owned(),
            PlanType::Free => "free".to_owned(),
            PlanType::Go => "go".to_owned(),
            PlanType::Plus => "plus".to_owned(),
            PlanType::Pro => "pro".to_owned(),
            PlanType::FreeWorkspace => "free_workspace".to_owned(),
            PlanType::Team => "team".to_owned(),
            PlanType::Business => "business".to_owned(),
            PlanType::Education => "education".to_owned(),
            PlanType::Quorum => "quorum".to_owned(),
            PlanType::K12 => "k12".to_owned(),
            PlanType::Enterprise => "enterprise".to_owned(),
            PlanType::Edu => "edu".to_owned(),
            PlanType::Unknown(s) => s.clone(),
        }
    }
}

/// One usage payload: an optional plan tier, optional rate-limit windows,
/// and optional credit information. Absent sections are simply omitted from
/// the rendered dashboard.
#[derive(Debug, Clone)]
pub struct UsageResponse {
    pub plan_type: Option<PlanType>,
    pub rate_limit: Option<RateLimitDetails>,
    pub credits: Option<CreditDetails>,
}

/// How a usage request's HTTP status is handled: a success body is parsed,
/// 401 and 403 mean the token is expired or invalid, anything else is a
/// generic API failure.
#[derive(Debug, Clone, Copy, PartialEq, Eq, Structural)]
pub enum StatusClass {
    Success,
    Unauthorized,
    Failure,
}

/// The handling class of an HTTP status code.
pub open spec fn status_class(code: u16) -> StatusClass {
    if 200 <= code && code <= 299 {
        StatusClass::Success
    } else if code == 401 || code == 403 {
        StatusClass::Unauthorized
    } else {
        StatusClass::Failure
    }
}

/// Classify an HTTP status code from the usage endpoint.
pub fn classify_status(code: u16) -> (r: StatusClass)
    ensures
        r == status_class(code),
{
    if 200 <= code && code <= 299 {
        StatusClass::Success
    } else if code == 401 || code == 403 {
        StatusClass::Unauthorized
    } else {
        StatusClass::Failure
    }
}

/// `p` is a prefix of `s`.
pub open spec fn is_prefix(p: Seq<char>, s: Seq<char>) -> bool {
    p.len() <= s.len() && forall|i: int| 0 <= i < p.len() ==> s[i] == #[trigger] p[i]
}

/// `p` occurs in `s` starting at `k`.
pub open spec fn match_at(s: Seq<char>, p: Seq<char>, k: int) -> bool {
    0 <= k && k + p.len() <= s.len() && forall|i: int| 0 <= i < p.len() ==> s[k + i] == #[trigger] p[
        i
    ]
}

/// `p` occurs somewhere in `s`.
pub open spec fn contains_seq(s: Seq<char>, p: Seq<char>) -> bool {
    exists|k: int| match_at(s, p, k)
}

fn starts_with_str(s: &str, p: &str) -> (r: bool)
    ensures
        r == is_prefix(p@, s@),
{
    let n = s.unicode_len();
    let m = p.unicode_len();
    if m > n {
        return false;
    }
    let mut i: usize = 0;
    while i < m
        invariant
            i <= m,
            m <= n,
            n == s@.len(),
            m == p@.len(),
            forall|j: int| 0 <= j < i ==> s@[j] == #[trigger] p@[j],
        decreases m - i,
    {
        if s.get_char(i) != p.get_char(i) {
            return false;
        }
        i = i + 1;
    }
    true
}

fn match_at_exec(s: &str, p: &str, k: usize) -> (r: bool)
    requires
        k + p@.len() <= s@.len(),
        s@.len() <= usize::MAX,
    ensures
        r == match_at(s@, p@, k as int),
{
    let m = p.unicode_len();
    let mut i: usize = 0;
    while i < m
        invariant
            i <= m,
            m == p@.len(),
            k + m <= s@.len(),
            s@.len() <= usize::MAX,
            forall|j: int| 0 <= j < i ==> s@[k + j] == #[trigger] p@[j],
        decreases m - i,
    {
        if s.get_char(k + i) != p.get_char(i) {
            return false;
        }
        i = i + 1;
    }
    true
}

fn contains_str(s: &str, p: &str) -> (r: bool)
    ensures
        r == contains_seq(s@, p@),
{
    let n = s.unicode_len();
    let m = p.unicode_len();
    if m > n {
        assert(forall|k: int| !match_at(s@, p@, k));
        return false;
    }
    let mut k: usize = 0;
    while k <= n - m
        invariant
            m <= n,
            n == s@.len(),
            m == p@.len(),
            k <= n - m + 1,
            forall|j: int| 0 <= j < k ==> !match_at(s@, p@, j),
        decreases n + 1 - k,
    {
        if match_at_exec(s, p, k) {
            return true;
        }
        k = k + 1;
    }
    assert(forall|j: int| !match_at(s@, p@, j));
    false
}

/// `s` with every trailing `c` removed.
pub open spec fn trim_end_ch(s: Seq<char>, c: char) -> Seq<char>
    decreases s.len(),
{
    if s.len() > 0 && s.last() == c {
        trim_end_ch(s.drop_last(), c)
    } else {
        s
    }
}

proof fn lemma_trim_end_subrange(s: Seq<char>, c: char, e: int)
    requires
        0 <= e <= s.len(),
        forall|j: int| e <= j < s.len() ==> s[j] == c,
        e > 0 ==> s[e - 1] != c,
    ensures
        trim_end_ch(s, c) == s.subrange(0, e),
    decreases s.len(),
{
    if s.len() == 0 {
        assert(trim_end_ch(s, c) =~= s.subrange(0, e));
    } else if e == s.len() {
        assert(s.last() != c);
        assert(trim_end_ch(s, c) =~= s.subrange(0, e));
    } else {
        assert(s.last() == c);
        assert(s.drop_last() =~= s.subrange(0, s.len() - 1));
        lemma_trim_end_subrange(s.drop_last(), c, e);
        assert(s.drop_last().subrange(0, e) =~= s.subrange(0, e));
    }
}

fn trim_end_slashes(s: &str) -> (r: String)
    ensures
        r@ == trim_end_ch(s@, '/'),
{
    let n = s.unicode_len();
    let mut e: usize = n;
    while e > 0 && s.get_char(e - 1) == '/'
        invariant
            e <= n,
            n == s@.len(),
            forall|j: int| e <= j < n ==> s@[j] == '/',
        decreases e,
    {
        e = e - 1;
    }
    let cut = s.substring_char(0, e);
    proof {
        lemma_trim_end_subrange(s@, '/', e as int);
    }
    cut.to_owned()
}

/// `s` without its leading whitespace.
pub open spec fn trim_start_sp(s: Seq<char>) -> Seq<char>
    decreases s.len(),
{
    if s.len() > 0 && is_space_char(s.first()) {
        trim_start_sp(s.drop_first())
    } else {
        s
    }
}

/// `s` without its trailing whitespace.
pub open spec fn trim_end_sp(s: Seq<char>) -> Seq<char>
    decreases s.len(),
{
    if s.len() > 0 && is_space_char(s.last()) {
        trim_end_sp(s.drop_last())
    } else {
        s
    }
}

/// `s` with leading and trailing whitespace removed.
pub open spec fn trimmed(s: Seq<char>) -> Seq<char> {
    trim_end_sp(trim_start_sp(s))
}

proof fn lemma_trim_start_sp(s: Seq<char>, b: int)
    requires
        0 <= b <= s.len(),
        forall|j: int| 0 <= j < b ==> is_space_char(#[trigger] s[j]),
        b < s.len() ==> !is_space_char(s[b]),
    ensures
        trim_start_sp(s) == s.subrange(b, s.len() as int),
    decreases b,
{
    if b == 0 {
        assert(trim_start_sp(s) =~= s.subrange(0, s.len() as int));
    } else {
        assert(is_space_char(s[0]));
        assert(s.drop_first() =~= s.subrange(1, s.len() as int));
        lemma_trim_start_sp(s.drop_first(), b - 1);
        assert(s.drop_first().subrange(b - 1, s.drop_first().len() as int) =~= s.subrange(
            b,
            s.len() as int,
        ));
    }
}

proof fn lemma_trim_end_sp(s: Seq<char>, e: int)
    requires
        0 <= e <= s.len(),
        forall|j: int| e <= j < s.len() ==> is_space_char(#[trigger] s[j]),
        e > 0 ==> !is_space_char(s[e - 1]),
    ensures
        trim_end_sp(s) == s.subrange(0, e),
    decreases s.len(),
{
    if s.len() == 0 || e == s.len() {
        assert(trim_end_sp(s) =~= s.subrange(0, e));
    } else {
        assert(is_space_char(s.last()));
        assert(s.drop_last() =~= s.subrange(0, s.len() - 1));
        lemma_trim_end_sp(s.drop_last(), e);
        assert(s.drop_last().subrange(0, e) =~= s.subrange(0, e));
    }
}

fn trim_str(s: &str) -> (r: String)
    ensures
        r@ == trimmed(s@),
{
    let n = s.unicode_len();
    let mut b: usize = 0;
    while b < n && is_space_exec(s.get_char(b))
        invariant
            b <= n,
            n == s@.len(),
            forall|j: int| 0 <= j < b ==> is_space_char(#[trigger] s@[j]),
        decreases n - b,
    {
        b = b + 1;
    }
    if b == n {
        proof {
            lemma_trim_start_sp(s@, n as int);
            assert(s@.subrange(n as int, n as int) =~= Seq::<char>::empty());
            lemma_trim_end_sp(Seq::<char>::empty(), 0);
            assert(trimmed(s@) =~= Seq::<char>::empty());
        }
        return String::new();
    }
    let mut e: usize = n;
    while e > b + 1 && is_space_exec(s.get_char(e - 1))
        invariant
            b < e <= n,
            n == s@.len(),
            forall|j: int| e <= j < n ==> is_space_char(#[trigger] s@[j]),
        decreases e,
    {
        e = e - 1;
    }
    proof {
        lemma_trim_start_sp(s@, b as int);
        let mid = s@.subrange(b as int, n as int);
        assert(!is_space_char(s@[e - 1])) by {
            if e == b + 1 {
                assert(!is_space_char(s@[b as int]));
            }
        }
        assert(forall|j: int|
            e - b <= j < mid.len() ==> is_space_char(#[trigger] mid[j]));
        lemma_trim_end_sp(mid, e - b);
        assert(mid.subrange(0, e - b) =~= s@.subrange(b as int, e as int));
    }
    let cut = s.substring_char(b, e);
    cut.to_owned()
}

fn is_space_exec(c: char) -> (r: bool)
    ensures
        r == is_space_char(c),
{
    c == ' ' || ('\u{9}' <= c && c <= '\u{d}') || c == '\u{85}' || c == '\u{a0}' || c == '\u{1680}'
        || ('\u{2000}' <= c && c <= '\u{200a}') || c == '\u{2028}' || c == '\u{2029}' || c
        == '\u{202f}' || c == '\u{205f}' || c == '\u{3000}'
}

/// The position of the first `c` in `s`, or `s.len()` when there is none.
pub open spec fn find_ch(s: Seq<char>, c: char) -> nat
    decreases s.len(),
{
    if s.len() == 0 {
        0
    } else if s.first() == c {
        0
    } else {
        1 + find_ch(s.drop_first(), c)
    }
}

proof fn lemma_find_ch(s: Seq<char>, c: char, k: int)
    requires
        0 <= k <= s.len(),
        forall|j: int| 0 <= j < k ==> s[j] != c,
        k < s.len() ==> s[k] == c,
    ensures
        find_ch(s, c) == k,
    decreases k,
{
    if k == 0 {
    } else {
        assert(s[0] != c);
        assert(s.drop_first() =~= s.subrange(1, s.len() as int));
        lemma_find_ch(s.drop_first(), c, k - 1);
    }
}

/// A line with one trailing carriage return removed, as line splitting does.
pub open spec fn strip_cr(line: Seq<char>) -> Seq<char> {
    if line.len() > 0 && line.last() == '\r' {
        line.drop_last()
    } else {
        line
    }
}

/// A value with one level of matching single or double quotes removed.
pub open spec fn unquoted(v: Seq<char>) -> Seq<char> {
    if v.len() >= 2 && ((v.first() == '"' && v.last() == '"') || (v.first() == '\'' && v.last()
        == '\'')) {
        v.subrange(1, v.len() - 1)
    } else {
        v
    }
}

/// What one configuration line contributes: with comments cut away, a line
/// of the form `chatgpt_base_url = <value>` yields the value, trimmed and
/// unquoted; every other line yields nothing.
pub open spec fn line_base_url(line: Seq<char>) -> Option<Seq<char>> {
    let cut = line.subrange(0, find_ch(line, '#') as int);
    let t = trimmed(cut);
    if t.len() == 0 {
        None
    } else {
        let eq = find_ch(t, '=');
        if eq >= t.len() {
            None
        } else {
            let key = trimmed(t.subrange(0, eq as int));
            let value = trimmed(t.subrange(eq as int + 1, t.len() as int));
            if key == "chatgpt_base_url"@ {
                Some(trimmed(unquoted(value)))
            } else {
                None
            }
        }
    }
}

/// The base URL configured in a TOML-style configuration text: the value of
/// the first line that sets `chatgpt_base_url`.
pub open spec fn config_base_url(s: Seq<char>) -> Option<Seq<char>>
    decreases s.len(),
{
    let k = find_ch(s, '\n');
    let line = strip_cr(s.subrange(0, k as int));
    match line_base_url(line) {
        Some(v) => Some(v),
        None => {
            if k >= s.len() {
                None
            } else {
                config_base_url(s.subrange(k as int + 1, s.len() as int))
            }
        },
    }
}

fn line_base_url_exec(line: &str) -> (r: Option<String>)
    ensures
        (r is Some) == (line_base_url(line@) is Some),
        r is Some ==> r.unwrap()@ == line_base_url(line@).unwrap(),
{
    proof {
        reveal_strlit("chatgpt_base_url");
    }
    let n = line.unicode_len();
    let mut h: usize = 0;
    while h < n && line.get_char(h) != '#'
        invariant
            h <= n,
            n == line@.len(),
            forall|j: int| 0 <= j < h ==> line@[j] != '#',
        decreases n - h,
    {
        h = h + 1;
    }
    proof {
        lemma_find_ch(line@, '#', h as int);
    }
    let cut = line.substring_char(0, h);
    let t = trim_str(cut);
    let tn = t.as_str().unicode_len();
    if tn == 0 {
        return None;
    }
    let mut eq: usize = 0;
    while eq < tn && t.as_str().get_char(eq) != '='
        invariant
            eq <= tn,
            tn == t@.len(),
            forall|j: int| 0 <= j < eq ==> t@[j] != '=',
        decreases tn - eq,
    {
        eq = eq + 1;
    }
    proof {
        lemma_find_ch(t@, '=', eq as int);
    }
    if eq == tn {
        return None;
    }
    let key = trim_str(t.as_str().substring_char(0, eq));
    if !tag_eq(&key, "chatgpt_base_url") {
        return None;
    }
    let value = trim_str(t.as_str().substring_char(eq + 1, tn));
    let vn = value.as_str().unicode_len();
    let inner: String;
    if vn >= 2 {
        let first = value.as_str().get_char(0);
        let last = value.as_str().get_char(vn - 1);
        if (first == '"' && last == '"') || (first == '\'' && last == '\'') {
            inner = value.as_str().substring_char(1, vn - 1).to_owned();
        } else {
            inner = value;
        }
    } else {
        inner = value;
    }
    proof {
        assert(inner@ == unquoted(trimmed(t@.subrange(eq as int + 1, tn as int))));
    }
    Some(trim_str(inner.as_str()))
}

/// Find the configured base URL in a configuration text: the value of the
/// first line that sets `chatgpt_base_url`, if any does.
pub fn parse_chatgpt_base_url(contents: &str) -> (r: Option<String>)
    ensures
        (r is Some) == (config_base_url(contents@) is Some),
        r is Some ==> r.unwrap()@ == config_base_url(contents@).unwrap(),
    decreases contents@.len(),
{
    let n = contents.unicode_len();
    let mut k: usize = 0;
    while k < n && contents.get_char(k) != '\n'
        invariant
            k <= n,
            n == contents@.len(),
            forall|j: int| 0 <= j < k ==> contents@[j] != '\n',
        decreases n - k,
    {
        k = k + 1;
    }
    proof {
        lemma_find_ch(contents@, '\n', k as int);
    }
    let line_end: usize = if k > 0 && contents.get_char(k - 1) == '\r' {
        k - 1
    } else {
        k
    };
    let line = contents.substring_char(0, line_end);
    proof {
        if k > 0 && contents@[k as int - 1] == '\r' {
            assert(line@ =~= strip_cr(contents@.subrange(0, k as int)));
        } else {
            assert(line@ =~= strip_cr(contents@.subrange(0, k as int)));
        }
    }
    match line_base_url_exec(line) {
        Some(v) => Some(v),
        None => {
            if k >= n {
                None
            } else {
                let rest = contents.substring_char(k + 1, n);
                parse_chatgpt_base_url(rest)
            }
        },
    }
}

/// The base URL assumed when none is configured.
pub open spec fn default_base_url_text() -> Seq<char> {
    "https://chatgpt.com/backend-api/"@
}

/// The configured base URL, cleaned up: trimmed of whitespace and trailing
/// slashes, the default when that leaves nothing, and with "/backend-api"
/// appended for the first-party hosts when it is missing.
pub open spec fn normalized_base_url(url: Seq<char>) -> Seq<char> {
    let t = trim_end_ch(trimmed(url), '/');
    if t.len() == 0 {
        default_base_url_text()
    } else if (is_prefix("https://chatgpt.com"@, t) || is_prefix("https://chat.openai.com"@, t))
        && !contains_seq(t, "/backend-api"@) {
        t + "/backend-api"@
    } else {
        t
    }
}

/// Clean up a configured base URL.
pub fn normalize_base_url(url: &str) -> (r: String)
    ensures
        r@ == normalized_base_url(url@),
{
    let t = trim_str(url);
    let mut normalized = trim_end_slashes(t.as_str());
    if normalized.as_str().unicode_len() == 0 {
        proof {
            assert(normalized@.len() == 0);
        }
        return "https://chatgpt.com/backend-api/".to_owned();
    }
    if (starts_with_str(normalized.as_str(), "https://chatgpt.com") || starts_with_str(
        normalized.as_str(),
        "https://chat.openai.com",
    )) && !contains_str(normalized.as_str(), "/backend-api") {
        normalized.append("/backend-api");
    }
    normalized
}

/// The usage endpoint for a base URL: the first-party backend path when the
/// base already points at "/backend-api", the public API path otherwise,
/// appended to the base with trailing slashes removed.
pub open spec fn usage_url_text(base_url: Seq<char>) -> Seq<char> {
    let path = if contains_seq(base_url, "/backend-api"@) {
        "/wham/usage"@
    } else {
        "/api/codex/usage"@
    };
    trim_end_ch(base_url, '/') + path
}

/// Build the usage endpoint URL for a base URL.
pub fn build_usage_url(base_url: &str) -> (r: String)
    ensures
        r@ == usage_url_text(base_url@),
{
    let path = if contains_str(base_url, "/backend-api") {
        "/wham/usage"
    } else {
        "/api/codex/usage"
    };
    let mut out = trim_end_slashes(base_url);
    out.append(path);
    out
}

} // verus!
