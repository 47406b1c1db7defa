use vstd::prelude::*;

use crate::labels::Labels;
use crate::model::{CheckSpec, Checks, WorkRequest};

verus! {

/// Relies on std's `format!`: writes `scheme`, then `://`, then `host`.
#[verifier::external_body]
fn scheme_url(scheme: &str, host: &str) -> (r: String)
    ensures
        r@ == scheme@ + "://"@ + host@,
{
    format!("{}://{}", scheme, host)
}

/// The two URLs that a check of `domain` fetches: plain HTTP first, then HTTPS.
pub fn check_targets(domain: &str) -> (r: Vec<String>)
    ensures
        r@.len() == 2,
        r@[0]@ == "http://"@ + domain@,
        r@[1]@ == "https://"@ + domain@,
{
    let http = scheme_url("http", domain);
    let https = scheme_url("https", domain);
    proof {
        reveal_strlit("http");
        reveal_strlit("https");
        reveal_strlit("://");
        reveal_strlit("http://");
        reveal_strlit("https://");
        assert("http"@ + "://"@ =~= "http://"@);
        assert("https"@ + "://"@ =~= "https://"@);
        assert("http"@ + "://"@ + domain@ =~= "http://"@ + domain@);
        assert("https"@ + "://"@ + domain@ =~= "https://"@ + domain@);
    }
    let mut r: Vec<String> = Vec::new();
    r.push(http);
    r.push(https);
    r
}

/// The request that a one-shot check of `domain` stands for: status points
/// named `http-status`, latency points named `http-latency`, both labelled
/// `domain=<domain>`, and no extra labels.
pub fn one_shot_request(domain: &str) -> (r: WorkRequest)
    ensures
        r.wf(),
        r.url@ == domain@,
        r.labels.view() == map!["domain"@ => domain@],
        r.checks.status.class_name@ == "http-status"@,
        r.checks.latency.class_name@ == "http-latency"@,
        r.checks.status.labels is None,
        r.checks.latency.labels is None,
{
    let mut labels = Labels::new();
    labels.insert("domain".to_owned(), domain.to_owned());
    proof {
        reveal_strlit("domain");
        assert(labels.view() =~= map!["domain"@ => domain@]);
    }
    WorkRequest {
        labels,
        url: domain.to_owned(),
        checks: Checks {
            latency: CheckSpec { class_name: "http-latency".to_owned(), labels: None },
            status: CheckSpec { class_name: "http-status".to_owned(), labels: None },
        },
    }
}

} // verus!
