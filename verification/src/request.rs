//! The pure side of HTTP requests: assembling request URLs and judging a
//! response's status line. The blocking network call itself is the host's.

use vstd::prelude::*;
use vstd::string::StringExecFns;

verus! {

/// A response did not carry the expected status line.
#[derive(Debug)]
pub enum RequestError {
    UnexpectedStatusCode { expected: i32, gotten: i32 },
    UnexpectedReasonPhrase { expected_phrase: String, gotten_phrase: String },
}

/// The first `n` path parameters rendered as "/param" segments, in order.
pub open spec fn url_path_part(path_params: Seq<String>, n: int) -> Seq<char>
    decreases n,
{
    if n <= 0 {
        Seq::empty()
    } else {
        url_path_part(path_params, n - 1) + "/"@ + path_params[n - 1]@
    }
}

/// The first `n` query parameters rendered as "?key=value" for the first and
/// "&key=value" for the rest, in order.
pub open spec fn url_query_part(query_params: Seq<(String, String)>, n: int) -> Seq<char>
    decreases n,
{
    if n <= 0 {
        Seq::empty()
    } else {
        url_query_part(query_params, n - 1) + (if n - 1 == 0 {
            "?"@
        } else {
            "&"@
        }) + query_params[n - 1].0@ + "="@ + query_params[n - 1].1@
    }
}

/// A whole request URL: base, then path segments, then the query string.
pub open spec fn url_spec(
    base_url: Seq<char>,
    path_params: Seq<String>,
    query_params: Seq<(String, String)>,
) -> Seq<char> {
    base_url + url_path_part(path_params, path_params.len() as int) + url_query_part(
        query_params,
        query_params.len() as int,
    )
}

/// Assemble a request URL from a base, path parameters and query parameters.
pub fn build_url(base_url: &str, path_params: &Vec<String>, query_params: &Vec<(String, String)>)
    -> (r: String)
    ensures
        r@ == url_spec(base_url@, path_params@, query_params@),
{
    let mut url = String::from_str(base_url);
    let mut i: usize = 0;
    while i < path_params.len()
        invariant
            i <= path_params.len(),
            url@ == base_url@ + url_path_part(path_params@, i as int),
        decreases path_params.len() - i,
    {
        url.append("/");
        url.append(path_params[i].as_str());
        i = i + 1;
        proof {
            assert(url@ =~= base_url@ + url_path_part(path_params@, i as int));
        }
    }
    let mut j: usize = 0;
    while j < query_params.len()
        invariant
            j <= query_params.len(),
            url@ == base_url@ + url_path_part(path_params@, path_params@.len() as int)
                + url_query_part(query_params@, j as int),
        decreases query_params.len() - j,
    {
        if j == 0 {
            url.append("?");
        } else {
            url.append("&");
        }
        url.append(query_params[j].0.as_str());
        url.append("=");
        url.append(query_params[j].1.as_str());
        j = j + 1;
        proof {
            assert(url@ =~= base_url@ + url_path_part(path_params@, path_params@.len() as int)
                + url_query_part(query_params@, j as int));
        }
    }
    proof {
        assert(url@ =~= url_spec(base_url@, path_params@, query_params@));
    }
    url
}

/// Judge a response's status line against what the caller expected: the
/// status code is checked first, then the reason phrase; a mismatch of either
/// is the corresponding error, carrying the expected and the received value.
pub fn check_request_failure(
    expected_status: i32,
    gotten_status: i32,
    expected_reason: &str,
    gotten_reason: &str,
) -> (r: Result<(), RequestError>)
    ensures
        r is Ok <==> (expected_status == gotten_status && expected_reason@ == gotten_reason@),
        expected_status != gotten_status ==> (r matches Err(
            RequestError::UnexpectedStatusCode { expected, gotten },
        ) && expected == expected_status && gotten == gotten_status),
        expected_status == gotten_status && expected_reason@ != gotten_reason@ ==> (r matches Err(
            RequestError::UnexpectedReasonPhrase { expected_phrase, gotten_phrase },
        ) && expected_phrase@ == expected_reason@ && gotten_phrase@ == gotten_reason@),
{
    if expected_status != gotten_status {
        return Err(
            RequestError::UnexpectedStatusCode { expected: expected_status, gotten: gotten_status },
        );
    }
    let expected = String::from_str(expected_reason);
    let gotten = String::from_str(gotten_reason);
    if expected != gotten {
        return Err(
            RequestError::UnexpectedReasonPhrase {
                expected_phrase: expected,
                gotten_phrase: gotten,
            },
        );
    }
    Ok(())
}

} // verus!
