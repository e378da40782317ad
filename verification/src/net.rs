//! The outbound-host check, shared by the paths that reach the network on a
//! caller's behalf. An unset or empty allowlist rejects every URL.

use vstd::prelude::*;

use crate::config::Config;
use crate::error::{Failure, SolxError};
use crate::text::{cat3, starts_with, texts};

verus! {

/// Whether a URL uses a scheme that outbound requests may use.
pub open spec fn has_web_scheme(url: Seq<char>) -> bool {
    "http://"@.is_prefix_of(url) || "https://"@.is_prefix_of(url)
}

/// Whether a URL begins with one of the prefixes.
pub open spec fn matches_prefix(prefixes: Seq<Seq<char>>, url: Seq<char>) -> bool {
    exists|i: int| 0 <= i < prefixes.len() && (#[trigger] prefixes[i]).is_prefix_of(url)
}

/// What the check answers for a URL.
pub open spec fn outbound(prefixes: Seq<Seq<char>>, url: Seq<char>) -> Result<(), Failure> {
    if !has_web_scheme(url) {
        Err(Failure::Exec("outbound URL '"@ + url + "' must use http:// or https://"@))
    } else if !matches_prefix(prefixes, url) {
        Err(
            Failure::Exec(
                "outbound URL '"@ + url
                    + "' does not match any prefix in solx-config.json's 'allowed_base_urls' allowlist; add a matching prefix there to allow this request"@,
            ),
        )
    } else {
        Ok(())
    }
}

fn any_prefix(prefixes: &Vec<String>, url: &str) -> (r: bool)
    ensures
        r == matches_prefix(texts(prefixes@), url@),
{
    let mut i: usize = 0;
    while i < prefixes.len()
        invariant
            i <= prefixes.len(),
            forall|j: int| 0 <= j < i ==> !(#[trigger] texts(prefixes@)[j]).is_prefix_of(url@),
        decreases prefixes.len() - i,
    {
        if starts_with(url, prefixes[i].as_str()) {
            assert(texts(prefixes@)[i as int].is_prefix_of(url@));
            return true;
        }
        i += 1;
    }
    false
}

pub open spec fn unit_or_failure(r: Result<(), SolxError>) -> Result<(), Failure> {
    match r {
        Ok(_) => Ok(()),
        Err(e) => Err(e@),
    }
}

/// Refuse `url` unless it is an `http` or `https` URL that begins with one of
/// the configured prefixes. Callers apply this before they open a connection or
/// hand the URL on, so a denial has no side effect.
pub fn check_outbound_url(cfg: &Config, url: &str) -> (r: Result<(), SolxError>)
    ensures
        unit_or_failure(r) == outbound(cfg.base_urls(), url@),
{
    if !starts_with(url, "http://") && !starts_with(url, "https://") {
        return Err(SolxError::Exec(cat3("outbound URL '", url, "' must use http:// or https://")));
    }
    let a = any_prefix(&cfg.allowed_base_urls, url);
    let b = any_prefix(&cfg.allowed_webhook_base_urls, url);
    proof {
        let p = texts(cfg.allowed_base_urls@);
        let q = texts(cfg.allowed_webhook_base_urls@);
        let all = cfg.base_urls();
        assert(forall|i: int| 0 <= i < p.len() ==> all[i] == p[i]);
        assert(forall|i: int| 0 <= i < q.len() ==> all[p.len() + i] == q[i]);
        if a {
            let i = choose|i: int| 0 <= i < p.len() && (#[trigger] p[i]).is_prefix_of(url@);
            assert(all[i].is_prefix_of(url@));
        }
        if b {
            let i = choose|i: int| 0 <= i < q.len() && (#[trigger] q[i]).is_prefix_of(url@);
            assert(all[p.len() + i].is_prefix_of(url@));
        }
        if matches_prefix(all, url@) {
            let i = choose|i: int| 0 <= i < all.len() && (#[trigger] all[i]).is_prefix_of(url@);
            if i < p.len() {
                assert(p[i].is_prefix_of(url@));
            } else {
                assert(q[i - p.len()].is_prefix_of(url@));
            }
        }
    }
    if !a && !b {
        return Err(
            SolxError::Exec(
                cat3(
                    "outbound URL '",
                    url,
                    "' does not match any prefix in solx-config.json's 'allowed_base_urls' allowlist; add a matching prefix there to allow this request",
                ),
            ),
        );
    }
    Ok(())
}

/// Deny by default: an empty allowlist rejects every URL.
pub proof fn lemma_empty_allowlist_denies(url: Seq<char>)
    ensures
        outbound(Seq::empty(), url) is Err,
{
}

/// Allowing more prefixes never refuses a URL that was let through.
pub proof fn lemma_more_prefixes_allow_more(
    prefixes: Seq<Seq<char>>,
    more: Seq<Seq<char>>,
    url: Seq<char>,
)
    requires
        outbound(prefixes, url) is Ok,
    ensures
        outbound(prefixes + more, url) is Ok,
{
    let i = choose|i: int| 0 <= i < prefixes.len() && (#[trigger] prefixes[i]).is_prefix_of(url);
    assert((prefixes + more)[i].is_prefix_of(url));
}

/// A URL of another scheme is refused whatever the allowlist holds.
pub proof fn lemma_other_schemes_refused(prefixes: Seq<Seq<char>>, url: Seq<char>)
    requires
        !has_web_scheme(url),
    ensures
        outbound(prefixes, url) is Err,
{
}

} // verus!
