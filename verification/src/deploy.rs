//! The decisions of `deploy`, which uploads the edge worker through the
//! Cloudflare API: the API's URLs, how its replies are judged, and the URL of
//! the deployed worker.
use vstd::prelude::*;
use vstd::string::StringExecFns;
use crate::text::{decimal, u32_to_decimal};

verus! {

/// An error that the Cloudflare API reports.
#[derive(Debug)]
pub struct ApiError {
    pub code: u32,
    pub message: String,
}

#[verifier::external_type_specification]
#[verifier::external_body]
pub struct ExReqwestError(reqwest::Error);

/// Why a deployment failed.
#[derive(Debug)]
pub enum DeployError {
    Http(reqwest::Error),
    Api { errors: Vec<ApiError> },
    NoSubdomain,
}

impl From<reqwest::Error> for DeployError {
    fn from(e: reqwest::Error) -> (r: Self) {
        DeployError::Http(e)
    }
}

impl vstd::std_specs::convert::FromSpecImpl<reqwest::Error> for DeployError {
    open spec fn obeys_from_spec() -> bool {
        true
    }

    open spec fn from_spec(e: reqwest::Error) -> Self {
        DeployError::Http(e)
    }
}

/// `reqwest::Error`'s `Display`: the text of a transport error. Nothing is
/// claimed of the text.
#[verifier::external_body]
fn reqwest_error_text(e: &reqwest::Error) -> String {
    e.to_string()
}

/// `[{code}] {message}`
pub open spec fn api_error_text(e: ApiError) -> Seq<char> {
    "["@ + decimal(e.code as nat) + "] "@ + e.message@
}

/// The API errors, each as `[{code}] {message}`, separated by `"; "`.
pub open spec fn api_errors_text(es: Seq<ApiError>) -> Seq<char>
    decreases es.len(),
{
    if es.len() == 0 {
        Seq::empty()
    } else if es.len() == 1 {
        api_error_text(es[0])
    } else {
        api_errors_text(es.drop_last()) + "; "@ + api_error_text(es.last())
    }
}

impl DeployError {
    /// The text that the error displays.
    pub fn message(&self) -> (r: String)
        ensures
            match self {
                DeployError::Http(_) => exists|t: Seq<char>| r@ == "HTTP error: "@ + t,
                DeployError::Api { errors } => r@ == "Cloudflare API errors: "@ + api_errors_text(errors@),
                DeployError::NoSubdomain => r@ == "could not determine workers.dev subdomain for this account"@,
            },
    {
        match self {
            DeployError::Http(e) => {
                let mut s = "HTTP error: ".to_owned();
                let t = reqwest_error_text(e);
                s.append(t.as_str());
                s
            },
            DeployError::Api { errors } => {
                let mut s = "Cloudflare API errors: ".to_owned();
                let ghost start = s@;
                let mut i: usize = 0;
                assert(errors@.take(0) =~= Seq::<ApiError>::empty());
                assert(s@ =~= start + api_errors_text(errors@.take(0)));
                while i < errors.len()
                    invariant
                        i <= errors@.len(),
                        s@ == start + api_errors_text(errors@.take(i as int)),
                    decreases errors.len() - i,
                {
                    let ghost before = s@;
                    assert(errors@.take(i + 1).drop_last() =~= errors@.take(i as int));
                    if i > 0 {
                        s.append("; ");
                    } else {
                        assert(errors@.take(1) =~= seq![errors@[0]]);
                    }
                    s.append("[");
                    s.append(u32_to_decimal(errors[i].code).as_str());
                    s.append("] ");
                    s.append(errors[i].message.as_str());
                    i += 1;
                }
                assert(errors@.take(errors@.len() as int) =~= errors@);
                s
            },
            DeployError::NoSubdomain => "could not determine workers.dev subdomain for this account".to_owned(),
        }
    }
}

pub fn cf_api_base() -> (r: &'static str)
    ensures
        r@ == "https://api.cloudflare.com/client/v4"@,
{
    "https://api.cloudflare.com/client/v4"
}

/// `{base}/accounts/{account_id}/workers/scripts/{worker_name}`: where the
/// worker script is uploaded.
pub fn script_url(account_id: &str, worker_name: &str) -> (r: String)
    ensures
        r@ == "https://api.cloudflare.com/client/v4"@ + "/accounts/"@ + account_id@ + "/workers/scripts/"@
            + worker_name@,
{
    let mut s = cf_api_base().to_owned();
    s.append("/accounts/");
    s.append(account_id);
    s.append("/workers/scripts/");
    s.append(worker_name);
    s
}

/// `{script_url}/subdomain`: where the workers.dev route of a script is enabled.
pub fn script_subdomain_url(account_id: &str, worker_name: &str) -> (r: String)
    ensures
        r@ == "https://api.cloudflare.com/client/v4"@ + "/accounts/"@ + account_id@ + "/workers/scripts/"@
            + worker_name@ + "/subdomain"@,
{
    let mut s = script_url(account_id, worker_name);
    s.append("/subdomain");
    s
}

/// `{base}/accounts/{account_id}/workers/subdomain`: where the account's
/// workers.dev subdomain is read.
pub fn account_subdomain_url(account_id: &str) -> (r: String)
    ensures
        r@ == "https://api.cloudflare.com/client/v4"@ + "/accounts/"@ + account_id@ + "/workers/subdomain"@,
{
    let mut s = cf_api_base().to_owned();
    s.append("/accounts/");
    s.append(account_id);
    s.append("/workers/subdomain");
    s
}

/// `https://{worker_name}.{subdomain}.workers.dev`: the public URL of a
/// deployed worker.
pub fn worker_url(worker_name: &str, subdomain: &str) -> (r: String)
    ensures
        r@ == "https://"@ + worker_name@ + "."@ + subdomain@ + ".workers.dev"@,
{
    let mut s = "https://".to_owned();
    s.append(worker_name);
    s.append(".");
    s.append(subdomain);
    s.append(".workers.dev");
    s
}

/// An API reply succeeds when it says so; otherwise its errors are the failure.
pub fn check_reply(success: bool, errors: Vec<ApiError>) -> (r: Result<(), DeployError>)
    ensures
        r is Ok <==> success,
        !success ==> (r matches Err(DeployError::Api { errors: es }) && es@ == errors@),
{
    if success {
        Ok(())
    } else {
        Err(DeployError::Api { errors })
    }
}

/// The subdomain from the reply's result, or `NoSubdomain` when it has none.
pub fn subdomain_of(result: Option<String>) -> (r: Result<String, DeployError>)
    ensures
        match result {
            Some(s) => r matches Ok(t) && t@ == s@,
            None => r matches Err(DeployError::NoSubdomain),
        },
{
    match result {
        Some(s) => Ok(s),
        None => Err(DeployError::NoSubdomain),
    }
}

} // verus!
