//! The loopback listener of the OAuth 2.0 authorization-code grant: what the
//! redirect to it brings, whom it is for, and which page it is answered with.
//!
//! The listener is on the local machine alone, and any provider may redirect to
//! it. `GET /callback?code=..&state=..` is a success,
//! `GET /callback?error=..&error_description=..` a failure. Several sign-ins may
//! be pending at once, each under the state value that it was started with.

use vstd::prelude::*;
use vstd::string::*;

use crate::json::{object_of, pairs_view};
use crate::table::Table;
use crate::text::{cat3, copy_opt, decimal, opt_string, print_u64, replace, replaced};
use crate::value::{Json, Value};

verus! {

broadcast use crate::value::group_value_views;

/// The port that a listener binds where a call names none.
pub const DEFAULT_LOOPBACK_PORT: u16 = 8765;

/// The path that providers redirect to.
pub const LOOPBACK_PATH: &'static str = "/callback";

pub open spec fn redirect_of(port: u16) -> Seq<char> {
    "http://127.0.0.1:"@ + decimal(port as nat) + LOOPBACK_PATH@
}

/// The redirect URI of the listener on a port.
pub fn redirect_uri(port: u16) -> (r: String)
    ensures
        r@ == redirect_of(port),
{
    let p = print_u64(port as u64);
    cat3("http://127.0.0.1:", p.as_str(), LOOPBACK_PATH)
}

/// The address that a listener binds.
pub open spec fn address_of(port: u16) -> Seq<char> {
    "127.0.0.1:"@ + decimal(port as nat)
}

pub fn loopback_address(port: u16) -> (r: String)
    ensures
        r@ == address_of(port),
{
    let p = print_u64(port as u64);
    crate::text::cat2("127.0.0.1:", p.as_str())
}

/// What a redirect brought.
#[derive(Debug)]
pub struct LoopbackResult {
    /// The authorization code of a grant.
    pub code: Option<String>,
    /// The state value that the provider echoes; the caller compares it to the
    /// one that it started with.
    pub state: Option<String>,
    /// The error of a refusal.
    pub error: Option<String>,
    /// What the provider says of the error.
    pub error_description: Option<String>,
}

/// What a redirect brought, as mathematics.
#[verifier::ext_equal]
pub struct Redirect {
    pub code: Option<Seq<char>>,
    pub state: Option<Seq<char>>,
    pub error: Option<Seq<char>>,
    pub error_description: Option<Seq<char>>,
}

impl LoopbackResult {
    pub open spec fn view(&self) -> Redirect {
        Redirect {
            code: opt_string(self.code),
            state: opt_string(self.state),
            error: opt_string(self.error),
            error_description: opt_string(self.error_description),
        }
    }

    /// Whether the provider granted a code.
    pub fn succeeded(&self) -> (r: bool)
        ensures
            r == self@.succeeded(),
    {
        self.code.is_some() && self.error.is_none()
    }

    pub fn copy(&self) -> (r: LoopbackResult)
        ensures
            r@ == self@,
    {
        LoopbackResult {
            code: copy_opt(&self.code),
            state: copy_opt(&self.state),
            error: copy_opt(&self.error),
            error_description: copy_opt(&self.error_description),
        }
    }
}

impl Redirect {
    pub open spec fn succeeded(self) -> bool {
        self.code is Some && self.error is None
    }
}

pub open spec fn opt_pair(key: Seq<char>, v: Option<Seq<char>>) -> Seq<(Seq<char>, Json)> {
    match v {
        Some(s) => seq![(key, Json::Str(s))],
        None => Seq::empty(),
    }
}

/// What awaiting a redirect answers: what it brought, each part that is there.
pub open spec fn callback_json(state_value: Seq<char>, r: Redirect) -> Json {
    object_of(
        seq![("state_value"@, Json::Str(state_value))] + opt_pair("code"@, r.code) + opt_pair(
            "state"@,
            r.state,
        ) + opt_pair("error"@, r.error) + opt_pair("error_description"@, r.error_description)
            + seq![("succeeded"@, Json::Bool(r.succeeded()))],
    )
}

fn push_opt(pairs: &mut Vec<(&'static str, Value)>, key: &'static str, v: &Option<String>)
    ensures
        pairs_view(final(pairs)@) == pairs_view(old(pairs)@) + opt_pair(key@, opt_string(*v)),
{
    let ghost before = pairs_view(pairs@);
    if let Some(s) = v {
        pairs.push((key, Value::text(s.as_str())));
    }
    assert(pairs_view(pairs@) =~= before + opt_pair(key@, opt_string(*v)));
}

/// What awaiting a redirect answers.
pub fn callback_value(state_value: &str, result: &LoopbackResult) -> (r: Value)
    ensures
        r@ == callback_json(state_value@, result@),
{
    let mut pairs: Vec<(&'static str, Value)> = vec![("state_value", Value::text(state_value))];
    assert(pairs_view(pairs@) =~= seq![("state_value"@, Json::Str(state_value@))]);
    push_opt(&mut pairs, "code", &result.code);
    push_opt(&mut pairs, "state", &result.state);
    push_opt(&mut pairs, "error", &result.error);
    push_opt(&mut pairs, "error_description", &result.error_description);
    let ghost before = pairs_view(pairs@);
    pairs.push(("succeeded", Value::Bool(result.succeeded())));
    assert(pairs_view(pairs@) =~= before + seq![("succeeded"@, Json::Bool(result@.succeeded()))]);
    Value::object(pairs)
}

// ── Pending sign-ins ─────────────────────────────────────────────────────────

/// The sign-ins that a listener waits for, each with the sender that its result
/// goes to.
pub struct LoopbackState<T> {
    pub pending: Table<T>,
}

/// The parameters of a redirect.
#[derive(Debug)]
pub struct CallbackQuery {
    pub code: Option<String>,
    pub state: Option<String>,
    pub error: Option<String>,
    pub error_description: Option<String>,
}

/// What a redirect comes to: its result, the sender that it is to be sent to,
/// where there is one, and the page that answers it.
pub struct CallbackOutcome<T> {
    pub result: LoopbackResult,
    pub sender: Option<T>,
    pub status: u16,
    pub page: String,
}

pub open spec fn present(s: Option<Seq<char>>) -> Option<Seq<char>> {
    match s {
        Some(t) => if t.len() > 0 {
            Some(t)
        } else {
            None
        },
        None => None,
    }
}

fn keep_present(s: Option<String>) -> (r: Option<String>)
    ensures
        opt_string(r) == present(opt_string(s)),
{
    match s {
        Some(t) => if t.as_str().is_empty() {
            None
        } else {
            Some(t)
        },
        None => None,
    }
}

/// What a redirect with these parameters brought; an empty parameter is none.
pub open spec fn redirect_from(q: CallbackQuery) -> Redirect {
    Redirect {
        code: present(opt_string(q.code)),
        state: opt_string(q.state),
        error: present(opt_string(q.error)),
        error_description: present(opt_string(q.error_description)),
    }
}

/// What the page of a failed sign-in says.
pub open spec fn failure_text(r: Redirect) -> Seq<char> {
    match r.error_description {
        Some(d) => d,
        None => match r.error {
            Some(e) => e,
            None => "(no description)"@,
        },
    }
}

/// The page that answers a redirect.
pub open spec fn page_for(r: Redirect) -> Seq<char> {
    if r.succeeded() {
        SUCCESS_HTML@
    } else {
        error_page(failure_text(r))
    }
}

/// Whether this is what a redirect comes to: what it says, whom it is for, and the page
/// that it is answered with.
pub open spec fn is_callback<T>(
    r: CallbackOutcome<T>,
    before: Map<Seq<char>, T>,
    after: Map<Seq<char>, T>,
    q: CallbackQuery,
) -> bool {
    &&& r.result@ == redirect_from(q)
    &&& r.status == 200
    &&& r.page@ == page_for(redirect_from(q))
    &&& match present(opt_string(q.state)) {
        Some(s) => {
            &&& after == before.remove(s)
            &&& (match r.sender {
                Some(t) => before.contains_key(s) && t == before[s],
                None => !before.contains_key(s),
            })
        },
        None => r.sender is None && after == before,
    }
}

impl<T> LoopbackState<T> {
    pub open spec fn view(&self) -> Map<Seq<char>, T> {
        self.pending@
    }

    pub fn new() -> (r: LoopbackState<T>)
        ensures
            r@ == Map::<Seq<char>, T>::empty(),
    {
        LoopbackState { pending: Table::new() }
    }

    /// Wait for the redirect of a sign-in. A second registration of a state
    /// value takes the place of the first.
    pub fn register(&mut self, state_value: &str, sender: T)
        ensures
            final(self)@ == old(self)@.insert(state_value@, sender),
    {
        self.pending.insert(state_value, sender);
    }

    /// Wait no longer; hands the sender back, if there was one.
    pub fn deregister(&mut self, state_value: &str) -> (r: Option<T>)
        ensures
            final(self)@ == old(self)@.remove(state_value@),
            match r {
                Some(t) => old(self)@.contains_key(state_value@) && t == old(self)@[state_value@],
                None => !old(self)@.contains_key(state_value@),
            },
    {
        self.pending.remove(state_value)
    }

    /// Take a redirect in. It goes to the sign-in of its state value, which then
    /// waits no longer; one whose state value is missing or unknown goes to
    /// nobody. The browser gets a page and a success either way.
    pub fn callback(&mut self, q: CallbackQuery) -> (r: CallbackOutcome<T>)
        ensures
            is_callback(r, old(self)@, final(self)@, q),
    {
        let result = LoopbackResult {
            code: keep_present(q.code),
            state: copy_opt(&q.state),
            error: keep_present(q.error),
            error_description: keep_present(q.error_description),
        };
        let sender = match &q.state {
            Some(s) => if s.as_str().is_empty() {
                None
            } else {
                self.pending.remove(s.as_str())
            },
            None => None,
        };
        let page = if result.succeeded() {
            SUCCESS_HTML.to_owned()
        } else {
            match &result.error_description {
                Some(d) => error_html(d.as_str()),
                None => match &result.error {
                    Some(e) => error_html(e.as_str()),
                    None => error_html("(no description)"),
                },
            }
        };
        CallbackOutcome { result, sender, status: 200, page }
    }
}

/// A sign-in gets the redirect of its own state value, once, and no other one
/// changes it.
pub proof fn lemma_redirects_are_delivered_once<T>(
    pending: Map<Seq<char>, T>,
    state: Seq<char>,
    other: Seq<char>,
)
    requires
        other != state,
    ensures
        !pending.remove(state).contains_key(state),
        pending.remove(state).contains_key(other) == pending.contains_key(other),
        pending.contains_key(other) ==> pending.remove(state)[other] == pending[other],
{
}

// ── Pages ────────────────────────────────────────────────────────────────────

/// The page of a sign-in that went through.
pub const SUCCESS_HTML: &'static str = r#"<!doctype html>
<html lang="en">
<head>
<meta charset="utf-8">
<title>Sol &mdash; sign-in complete</title>
<style>
  body { font: 14px/1.4 -apple-system, BlinkMacSystemFont, "Segoe UI", sans-serif;
         max-width: 480px; margin: 80px auto; padding: 0 24px; color: #1a1a1a; }
  h1 { font-size: 20px; margin: 0 0 12px; }
  p { margin: 0 0 8px; color: #555; }
</style>
</head>
<body>
<h1>Sign-in complete</h1>
<p>You can close this window and return to Sol.</p>
<script>setTimeout(function () { window.close(); }, 800);</script>
</body>
</html>"#;

/// The page of a failed sign-in, up to what the provider said.
pub const ERROR_HTML_HEAD: &'static str = r#"<!doctype html>
<html lang="en">
<head>
<meta charset="utf-8">
<title>Sol &mdash; sign-in failed</title>
<style>
  body { font: 14px/1.4 -apple-system, BlinkMacSystemFont, "Segoe UI", sans-serif;
         max-width: 480px; margin: 80px auto; padding: 0 24px; color: #1a1a1a; }
  h1 { font-size: 20px; margin: 0 0 12px; color: #b00020; }
  p { margin: 0 0 8px; color: #555; }
  code { background: #f3f3f3; padding: 1px 6px; border-radius: 3px; font-size: 13px; }
</style>
</head>
<body>
<h1>Sign-in failed</h1>
<p>The provider reported:</p>
<p><code>"#;

/// The page of a failed sign-in, behind what the provider said.
pub const ERROR_HTML_TAIL: &'static str = r#"</code></p>
<p>You can close this window and return to Sol.</p>
<script>setTimeout(function () { window.close(); }, 5000);</script>
</body>
</html>"#;

/// A text with the characters that mean something in HTML replaced.
pub open spec fn escaped(s: Seq<char>) -> Seq<char> {
    replaced(
        replaced(
            replaced(replaced(s, "&"@, "&amp;"@), "<"@, "&lt;"@),
            ">"@,
            "&gt;"@,
        ),
        "\""@,
        "&quot;"@,
    )
}

pub open spec fn error_page(description: Seq<char>) -> Seq<char> {
    ERROR_HTML_HEAD@ + escaped(description) + ERROR_HTML_TAIL@
}

/// The page of a failed sign-in. What the provider said is shown as text,
/// whatever it holds.
pub fn error_html(description: &str) -> (r: String)
    ensures
        r@ == error_page(description@),
{
    proof {
        reveal_strlit("&");
        reveal_strlit("<");
        reveal_strlit(">");
        reveal_strlit("\"");
    }
    let a = replace(description, "&", "&amp;");
    let b = replace(a.as_str(), "<", "&lt;");
    let c = replace(b.as_str(), ">", "&gt;");
    let safe = replace(c.as_str(), "\"", "&quot;");
    cat3(ERROR_HTML_HEAD, safe.as_str(), ERROR_HTML_TAIL)
}

/// What replacing one character leaves: not the character, and nothing that was
/// in neither text.
proof fn lemma_replaced_chars(s: Seq<char>, c: char, r: Seq<char>, x: char)
    requires
        !r.contains(x),
        x == c || !s.contains(x),
    ensures
        !replaced(s, seq![c], r).contains(x),
    decreases s.len(),
{
    let p = seq![c];
    if s.len() > 0 {
        let rest = s.skip(1);
        assert forall|i: int| 0 <= i < rest.len() implies rest[i] == s[i + 1] by {}
        if x != c && rest.contains(x) {
            let i = choose|i: int| 0 <= i < rest.len() && rest[i] == x;
            assert(s[i + 1] == x);
        }
        lemma_replaced_chars(rest, c, r, x);
        let out = replaced(s, p, r);
        let tail = replaced(rest, p, r);
        assert(p.is_prefix_of(s) == (s[0] == c)) by {
            if s[0] == c {
                assert(p =~= s.subrange(0, 1));
            } else if p.is_prefix_of(s) {
                assert(s.subrange(0, 1)[0] == c);
            }
        }
        if out.contains(x) {
            let i = choose|i: int| 0 <= i < out.len() && out[i] == x;
            if s[0] == c {
                assert(out == r + tail);
                if i < r.len() {
                    assert(r.contains(x));
                } else {
                    assert(tail[i - r.len()] == x);
                }
            } else {
                assert(out == seq![s[0]] + tail);
                if i == 0 {
                    assert(s.contains(x));
                } else {
                    assert(tail[i - 1] == x);
                }
            }
        }
    }
}

/// Whatever a provider says, nothing in it opens or closes a tag or a quoted
/// attribute of the page.
pub proof fn lemma_escaped_is_text(s: Seq<char>)
    ensures
        !escaped(s).contains('<'),
        !escaped(s).contains('>'),
        !escaped(s).contains('"'),
{
    reveal_strlit("&");
    reveal_strlit("<");
    reveal_strlit(">");
    reveal_strlit("\"");
    reveal_strlit("&amp;");
    reveal_strlit("&lt;");
    reveal_strlit("&gt;");
    reveal_strlit("&quot;");
    assert("&"@ =~= seq!['&']);
    assert("<"@ =~= seq!['<']);
    assert(">"@ =~= seq!['>']);
    assert("\""@ =~= seq!['"']);
    let a = replaced(s, "&"@, "&amp;"@);
    let b = replaced(a, "<"@, "&lt;"@);
    let c = replaced(b, ">"@, "&gt;"@);
    lemma_replaced_chars(a, '<', "&lt;"@, '<');
    lemma_replaced_chars(b, '>', "&gt;"@, '<');
    lemma_replaced_chars(b, '>', "&gt;"@, '>');
    lemma_replaced_chars(c, '"', "&quot;"@, '<');
    lemma_replaced_chars(c, '"', "&quot;"@, '>');
    lemma_replaced_chars(c, '"', "&quot;"@, '"');
}

} // verus!
