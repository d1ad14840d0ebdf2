//! The computed parts of the issue client: the request URL and the bearer
//! token as the client sends them. The network call itself lives with the
//! driver, which hands the decoded outcome back to the run.
use crate::text::trim;
use crate::text::trimmed;
use vstd::prelude::*;
use vstd::string::*;

verus! {

/// The request URL for one issue: the base URL with the issue identifier
/// appended, nothing inserted between them.
pub fn request_url(base_url: &str, issue_id: &str) -> (r: String)
    ensures
        r@ == base_url@ + issue_id@,
{
    String::from_str(base_url).concat(issue_id)
}

/// The bearer token as every fetch authenticates with it: the raw
/// credentials text trimmed of surrounding whitespace.
pub fn bearer_token(raw: &str) -> (r: String)
    ensures
        r@ == trim(raw@),
{
    trimmed(raw)
}

} // verus!
