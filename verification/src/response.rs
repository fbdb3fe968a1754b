//! Backend response handling: status classification and extraction of the
//! answer text from the response envelope.
//!
//! A successful response is a JSON document whose answer is the first
//! non-empty string found at the logical path `choices[*].message.content`;
//! when no such string exists the answer is the empty string, which is a
//! valid (if unhelpful) output, not an error.

use vstd::prelude::*;

verus! {

/// A failure while calling a backend or reading its response.
#[derive(Debug)]
pub enum BackendError {
    /// Network-level failure: no response was produced at all.
    Transport,
    /// The backend answered with a non-success status.
    Rejected { status: u16, body: String },
    /// The response body was not a JSON document.
    Decode,
}

/// Whether the body text parses as a JSON document.
pub uninterp spec fn json_body_parses(body: Seq<char>) -> bool;

/// The values found at `choices[*].message.content` in the parsed body, in
/// document order; a value that is not a string appears as `None`.
pub uninterp spec fn answer_candidates(body: Seq<char>) -> Seq<Option<Seq<char>>>;

/// Relies on serde_json::from_str and jsonpath_rust's JsonPath::query at
/// `$.choices[*].message.content`: whether the body parses and which values
/// the path finds depend on the body text alone.
#[verifier::external_body]
fn find_answer_candidates(body: &str) -> (r: Option<Vec<Option<String>>>)
    ensures
        r is Some <==> json_body_parses(body@),
        r matches Some(cs) ==> cs.deep_view() == answer_candidates(body@),
{
    let doc: serde_json::Value = match serde_json::from_str(body) {
        Ok(doc) => doc,
        Err(_) => return None,
    };
    let found =
        jsonpath_rust::JsonPath::query(&doc, "$.choices[*].message.content").unwrap_or_default();
    Some(found.into_iter().map(|v| v.as_str().map(str::to_owned)).collect())
}

/// The answer among the candidates: the first non-empty string, or the empty
/// string when there is none.
pub open spec fn first_nonempty(cands: Seq<Option<Seq<char>>>) -> Seq<char>
    decreases cands.len(),
{
    if cands.len() == 0 {
        Seq::empty()
    } else {
        match cands[0] {
            Some(s) => if s.len() > 0 {
                s
            } else {
                first_nonempty(cands.drop_first())
            },
            None => first_nonempty(cands.drop_first()),
        }
    }
}

/// Picks the first non-empty string among the candidates.
fn select_answer(cands: &Vec<Option<String>>) -> (r: String)
    ensures
        r@ == first_nonempty(cands.deep_view()),
{
    let ghost full = cands.deep_view();
    proof {
        assert(full.skip(0) =~= full);
    }
    let mut idx: usize = 0;
    while idx < cands.len()
        invariant
            0 <= idx <= cands@.len(),
            full == cands.deep_view(),
            first_nonempty(full) == first_nonempty(full.skip(idx as int)),
        decreases cands@.len() - idx,
    {
        proof {
            assert(full.skip(idx as int).drop_first() =~= full.skip(idx as int + 1));
        }
        match &cands[idx] {
            Some(s) => {
                if !s.as_str().is_empty() {
                    return s.clone();
                }
            },
            None => {},
        }
        idx = idx + 1;
    }
    proof {
        assert(full.skip(idx as int) =~= Seq::<Option<Seq<char>>>::empty());
    }
    String::new()
}

/// Whether an HTTP status reports success.
pub open spec fn status_success(status: u16) -> bool {
    200 <= status < 300
}

/// Classifies an HTTP status.
pub fn is_success(status: u16) -> (r: bool)
    ensures
        r == status_success(status),
{
    200 <= status && status < 300
}

/// Turns a backend's raw HTTP response into the pipeline's outcome: a
/// non-success status is rejected with the body kept for the log, a body
/// that is not JSON fails to decode, and otherwise the answer is the first
/// non-empty string at `choices[*].message.content` (empty when absent).
pub fn handle_response(status: u16, body: &str) -> (r: Result<String, BackendError>)
    ensures
        !status_success(status) ==> (r matches Err(e) && e matches BackendError::Rejected {
            status: s,
            body: b,
        } && s == status && b@ == body@),
        status_success(status) && !json_body_parses(body@) ==> (r matches Err(e)
            && e is Decode),
        status_success(status) && json_body_parses(body@) ==> (r matches Ok(out) && out@
            == first_nonempty(answer_candidates(body@))),
{
    if !is_success(status) {
        return Err(BackendError::Rejected { status, body: body.to_owned() });
    }
    match find_answer_candidates(body) {
        None => Err(BackendError::Decode),
        Some(cands) => Ok(select_answer(&cands)),
    }
}

} // verus!
