//! The decision half of URL pre-resolution.
//!
//! Before an HTTP transfer is created, the caller probes the URL (a HEAD
//! request, or a one-byte ranged GET where that fails) and hands the outcome
//! here.  A probe that landed on an HTML page that is not an attachment and
//! whose URL does not look like an HTML file is rejected: it is almost
//! certainly a login wall or an error page, not the requested file.

use vstd::prelude::*;
use vstd::string::StringExecFns;
use crate::error::{error_detail, FetchError};
use crate::text::{contains_lower, contains_sub, ends_with_lower, lower_seq, starts_with_lower};

verus! {

/// What a metadata probe of a candidate URL reported: the final URL after
/// redirects and the interesting response headers.
#[derive(Debug, Clone)]
pub struct ProbeOutcome {
    pub final_url: String,
    pub content_type: Option<String>,
    pub content_disposition: Option<String>,
}

/// The HTML-page heuristic: true exactly when the content type says HTML,
/// no disposition header marks the response as an attachment, and the URL
/// itself does not end in `.htm` or `.html`.
pub open spec fn html_page_suspected(
    url: Seq<char>,
    content_type: Option<Seq<char>>,
    content_disp: Option<Seq<char>>,
) -> bool {
    match content_type {
        None => false,
        Some(ct) => {
            &&& "text/html"@.is_prefix_of(lower_seq(ct))
            &&& (match content_disp {
                Some(cd) => !contains_sub(lower_seq(cd), "attachment"@),
                None => true,
            })
            &&& !".html"@.is_suffix_of(lower_seq(url))
            &&& !".htm"@.is_suffix_of(lower_seq(url))
        },
    }
}

/// Whether a probe outcome looks like an HTML landing page rather than a
/// downloadable file.
pub fn looks_like_html_download(
    url: &str,
    content_type: Option<&str>,
    content_disp: Option<&str>,
) -> (r: bool)
    ensures
        r == html_page_suspected(
            url@,
            (match content_type {
                Some(ct) => Some(ct@),
                None => None,
            }),
            (match content_disp {
                Some(cd) => Some(cd@),
                None => None,
            }),
        ),
{
    let ct = match content_type {
        Some(ct) => ct,
        None => {
            return false;
        },
    };
    if !starts_with_lower(ct, "text/html") {
        return false;
    }
    match content_disp {
        Some(cd) => {
            if contains_lower(cd, "attachment") {
                return false;
            }
        },
        None => {},
    }
    !(ends_with_lower(url, ".html") || ends_with_lower(url, ".htm"))
}

/// The spec-level image of `resolve_probe`'s rejection message.
pub open spec fn html_rejection_message() -> Seq<char> {
    "url: URL resolved to an HTML page. Try the direct download link."@
}

/// Accept or reject a completed probe.
///
/// A suspected HTML page is rejected with an invalid-input error naming the
/// `url` field; any other outcome resolves to the final, post-redirect URL.
pub fn resolve_probe(outcome: ProbeOutcome) -> (r: Result<String, FetchError>)
    ensures
        ({
            let ct = match outcome.content_type {
                Some(ct) => Some(ct@),
                None => None,
            };
            let cd = match outcome.content_disposition {
                Some(cd) => Some(cd@),
                None => None,
            };
            &&& r is Ok <==> !html_page_suspected(outcome.final_url@, ct, cd)
            &&& r is Ok ==> r->Ok_0 == outcome.final_url
            &&& r is Err ==> r->Err_0 is InvalidInput && error_detail(r->Err_0)
                == html_rejection_message()
        }),
{
    let ct = match &outcome.content_type {
        Some(ct) => Some(ct.as_str()),
        None => None,
    };
    let cd = match &outcome.content_disposition {
        Some(cd) => Some(cd.as_str()),
        None => None,
    };
    if looks_like_html_download(outcome.final_url.as_str(), ct, cd) {
        Err(
            FetchError::InvalidInput(
                String::from_str("url: URL resolved to an HTML page. Try the direct download link."),
            ),
        )
    } else {
        Ok(outcome.final_url)
    }
}

/// The heuristic stated case by case: a missing or non-HTML content type is
/// always accepted; an attachment disposition is always accepted; a URL
/// ending in `.htm` or `.html` is always accepted; what remains — an HTML
/// content type with no attachment mark at a URL not named like an HTML
/// file — is rejected.
pub proof fn lemma_html_heuristic_cases(
    url: Seq<char>,
    ct: Option<Seq<char>>,
    cd: Option<Seq<char>>,
)
    ensures
        ct is None ==> !html_page_suspected(url, ct, cd),
        (ct is Some && !"text/html"@.is_prefix_of(lower_seq(ct->0)))
            ==> !html_page_suspected(url, ct, cd),
        (cd is Some && contains_sub(lower_seq(cd->0), "attachment"@))
            ==> !html_page_suspected(url, ct, cd),
        ".html"@.is_suffix_of(lower_seq(url)) ==> !html_page_suspected(url, ct, cd),
        ".htm"@.is_suffix_of(lower_seq(url)) ==> !html_page_suspected(url, ct, cd),
        (ct is Some && "text/html"@.is_prefix_of(lower_seq(ct->0)) && (cd is None
            || !contains_sub(lower_seq(cd->0), "attachment"@)) && !".html"@.is_suffix_of(
            lower_seq(url),
        ) && !".htm"@.is_suffix_of(lower_seq(url))) ==> html_page_suspected(url, ct, cd),
{
}

} // verus!
