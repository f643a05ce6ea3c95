use vstd::prelude::*;

verus! {

/// Identifier of one incoming request, for correlating its log lines.
#[derive(Debug, PartialEq, Eq)]
pub struct RequestId(pub String);

impl Clone for RequestId {
    fn clone(&self) -> (r: Self)
        ensures
            r == *self,
    {
        RequestId(self.0.clone())
    }
}

/// Relies on uuid::Uuid::new_v4 and its `Display`, which writes the
/// hyphenated form: a fresh random id of 36 characters.
#[verifier::external_body]
fn fresh_request_id() -> (r: String)
    ensures
        r@.len() == 36,
{
    uuid::Uuid::new_v4().to_string()
}

impl RequestId {
    /// The id of a request: the value of its request-id header where it
    /// carries a readable one, else a freshly generated id.
    pub fn resolve(header: Option<String>) -> (r: RequestId)
        ensures
            header is Some ==> r.0 == header->Some_0,
            header is None ==> r.0@.len() == 36,
    {
        match header {
            Some(h) => RequestId(h),
            None => RequestId(fresh_request_id()),
        }
    }
}

} // verus!
