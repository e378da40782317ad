//! Opening a URL in the system's browser.

use vstd::prelude::*;
use vstd::string::*;

use crate::config::Config;
use crate::internal::{require_str, required};
use crate::json::{object_of, pairs_view};
use crate::net::{check_outbound_url, outbound};
use crate::text::{blank, cat4, is_blank, texts};
use crate::value::{Json, Value};

verus! {

broadcast use crate::value::group_value_views;

/// The families of systems that open a URL each in their own way.
#[derive(Debug, Clone, Copy, PartialEq, Eq, Structural)]
pub enum Platform {
    MacOs,
    Windows,
    Other,
}

/// The program that opens a URL, with its arguments.
#[derive(Debug)]
pub struct Launch {
    pub program: &'static str,
    pub args: Vec<String>,
    pub url: String,
}

pub open spec fn launcher(p: Platform) -> Seq<char> {
    match p {
        Platform::MacOs => "open"@,
        Platform::Windows => "cmd"@,
        Platform::Other => "xdg-open"@,
    }
}

/// The arguments of the launcher. On Windows the empty one is the title that
/// `start` takes first.
pub open spec fn launch_args(p: Platform, url: Seq<char>) -> Seq<Seq<char>> {
    match p {
        Platform::Windows => seq!["/C"@, "start"@, ""@, url],
        _ => seq![url],
    }
}

/// Whether this opens a URL that the allowlist lets through.
pub open spec fn is_launch(
    r: Result<Launch, String>,
    prefixes: Seq<Seq<char>>,
    platform: Platform,
    params: Json,
) -> bool {
    match required(params, "url"@) {
        Err(e) => r is Err && r->Err_0@ == e,
        Ok(url) => if is_blank(url) {
            r is Err && r->Err_0@ == "open_url: 'url' must not be empty"@
        } else if let Err(e) = outbound(prefixes, url) {
            r is Err && r->Err_0@ == e.message()
        } else {
            &&& r is Ok
            &&& r->Ok_0.program@ == launcher(platform)
            &&& texts(r->Ok_0.args@) == launch_args(platform, url)
            &&& r->Ok_0.url@ == url
        },
    }
}

/// Which program opens the URL that a call names. The URL may not be blank, and
/// has to pass the check of outbound URLs before it is handed on.
pub fn open_url(cfg: &Config, platform: Platform, params: &Value) -> (r: Result<Launch, String>)
    ensures
        is_launch(r, cfg.base_urls(), platform, params@),
{
    let url = match require_str(params, "url") {
        Ok(s) => s,
        Err(e) => {
            return Err(e);
        },
    };
    if blank(url) {
        return Err("open_url: 'url' must not be empty".to_owned());
    }
    if let Err(e) = check_outbound_url(cfg, url) {
        return Err(e.message());
    }
    let (program, args): (&'static str, Vec<String>) = match platform {
        Platform::MacOs => ("open", vec![url.to_owned()]),
        Platform::Windows => (
            "cmd",
            vec!["/C".to_owned(), "start".to_owned(), "".to_owned(), url.to_owned()],
        ),
        Platform::Other => ("xdg-open", vec![url.to_owned()]),
    };
    assert(texts(args@) =~= launch_args(platform, url@));
    Ok(Launch { program, args, url: url.to_owned() })
}

/// What is said of a launcher that cannot be started.
pub fn launch_failed(program: &str, error: &str) -> (r: String)
    ensures
        r@ == "open_url: failed to launch '"@ + program@ + "': "@ + error@,
{
    cat4("open_url: failed to launch '", program, "': ", error)
}

/// The answer once the launcher was started.
pub fn opened_reply(url: &str) -> (r: Value)
    ensures
        r@ == object_of(seq![("opened"@, Json::Bool(true)), ("url"@, Json::Str(url@))]),
{
    let pairs: Vec<(&'static str, Value)> = vec![
        ("opened", Value::Bool(true)),
        ("url", Value::text(url)),
    ];
    assert(pairs_view(pairs@) =~= seq![("opened"@, Json::Bool(true)), ("url"@, Json::Str(url@))]);
    Value::object(pairs)
}

} // verus!
