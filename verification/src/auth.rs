//! Credential selection: given what a credentials file held, decide which
//! token to use. A non-blank standalone API key wins; otherwise the stored
//! login tokens are used; with neither, there is nothing to authenticate
//! with.

use vstd::prelude::*;

use vstd::string::StrSliceExecFns;

verus! {

/// The credentials one usage request is made with.
#[derive(Debug, Clone)]
pub struct Credentials {
    pub access_token: String,
    pub account_id: Option<String>,
}

/// The token pair a credentials file may store.
#[derive(Debug, Clone)]
pub struct AuthTokens {
    pub access_token: String,
    pub account_id: Option<String>,
}

/// Why no credentials could be produced.
#[derive(Debug, Clone, Copy, PartialEq, Eq, Structural)]
pub enum AuthError {
    MissingTokens,
}

impl AuthError {
    /// The diagnostic shown for this failure.
    pub fn message(&self) -> (r: &'static str)
        ensures
            r@ == "No tokens found in auth.json. Run `codex` to log in."@,
    {
        "No tokens found in auth.json. Run `codex` to log in."
    }
}

/// A Unicode whitespace character (the set `str::trim` removes).
pub open spec fn is_space_char(c: char) -> bool {
    ||| c == ' '
    ||| ('\u{9}' <= c && c <= '\u{d}')
    ||| c == '\u{85}'
    ||| c == '\u{a0}'
    ||| c == '\u{1680}'
    ||| ('\u{2000}' <= c && c <= '\u{200a}')
    ||| c == '\u{2028}'
    ||| c == '\u{2029}'
    ||| c == '\u{202f}'
    ||| c == '\u{205f}'
    ||| c == '\u{3000}'
}

/// A text is blank when it trims away to nothing.
pub open spec fn blank_text(s: Seq<char>) -> bool {
    forall|i: int| 0 <= i < s.len() ==> is_space_char(#[trigger] s[i])
}

fn is_space(c: char) -> (r: bool)
    ensures
        r == is_space_char(c),
{
    c == ' ' || ('\u{9}' <= c && c <= '\u{d}') || c == '\u{85}' || c == '\u{a0}' || c == '\u{1680}'
        || ('\u{2000}' <= c && c <= '\u{200a}') || c == '\u{2028}' || c == '\u{2029}' || c
        == '\u{202f}' || c == '\u{205f}' || c == '\u{3000}'
}

/// Whether a string holds nothing but whitespace.
pub fn is_blank(s: &str) -> (r: bool)
    ensures
        r == blank_text(s@),
{
    let n = s.unicode_len();
    let mut i: usize = 0;
    while i < n
        invariant
            i <= n,
            n == s@.len(),
            forall|j: int| 0 <= j < i ==> is_space_char(#[trigger] s@[j]),
        decreases n - i,
    {
        let c = s.get_char(i);
        if !is_space(c) {
            return false;
        }
        i = i + 1;
    }
    true
}

/// Whether the stored API key is used: it is present and not blank.
pub open spec fn api_key_used(openai_api_key: Option<String>) -> bool {
    match openai_api_key {
        Some(k) => !blank_text(k@),
        None => false,
    }
}

/// Pick the credentials a usage request is made with: a present, non-blank
/// standalone API key (with no account id); else the stored token pair; else
/// an error saying no tokens were found.
pub fn credentials_from_auth(openai_api_key: Option<String>, tokens: Option<AuthTokens>) -> (r:
    Result<Credentials, AuthError>)
    ensures
        api_key_used(openai_api_key) ==> {
            &&& r is Ok
            &&& r.unwrap().access_token@ == openai_api_key.unwrap()@
            &&& r.unwrap().account_id is None
        },
        !api_key_used(openai_api_key) ==> match tokens {
            Some(t) => {
                &&& r is Ok
                &&& r.unwrap().access_token@ == t.access_token@
                &&& (match (r.unwrap().account_id, t.account_id) {
                    (Some(a), Some(b)) => a@ == b@,
                    (None, None) => true,
                    _ => false,
                })
            },
            None => r == Result::<Credentials, AuthError>::Err(AuthError::MissingTokens),
        },
{
    match openai_api_key {
        Some(api_key) => {
            if !is_blank(api_key.as_str()) {
                return Ok(Credentials { access_token: api_key, account_id: None });
            }
            match tokens {
                Some(t) => Ok(
                    Credentials { access_token: t.access_token, account_id: t.account_id },
                ),
                None => Err(AuthError::MissingTokens),
            }
        },
        None => {
            match tokens {
                Some(t) => Ok(
                    Credentials { access_token: t.access_token, account_id: t.account_id },
                ),
                None => Err(AuthError::MissingTokens),
            }
        },
    }
}

} // verus!
