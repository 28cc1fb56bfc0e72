//! The response of a submission, captured so that a repeated submission can
//! be answered with the same bytes.

use vstd::prelude::*;

verus! {

/// Status of the acknowledgment: a redirect.
pub const SEE_OTHER: u16 = 303;

/// What a captured response holds, as mathematical values.
pub struct ResponseView {
    pub status: u16,
    pub headers: Seq<(Seq<char>, Seq<char>)>,
    pub body: Seq<u8>,
}

/// A response as it went out: status, headers in order, and body.
#[derive(Debug)]
pub struct CapturedResponse {
    pub status: u16,
    pub headers: Vec<(String, String)>,
    pub body: Vec<u8>,
}

/// The headers as pairs of texts, in order.
pub open spec fn headers_view(headers: Seq<(String, String)>) -> Seq<(Seq<char>, Seq<char>)> {
    Seq::new(headers.len(), |i: int| (headers[i].0@, headers[i].1@))
}

impl View for CapturedResponse {
    type V = ResponseView;

    open spec fn view(&self) -> ResponseView {
        ResponseView {
            status: self.status,
            headers: headers_view(self.headers@),
            body: self.body@,
        }
    }
}

/// The acknowledgment of an accepted submission: a redirect to `location`
/// with no body.
pub open spec fn acknowledgment(location: Seq<char>) -> ResponseView {
    ResponseView {
        status: SEE_OTHER,
        headers: seq![("location"@, location)],
        body: Seq::empty(),
    }
}

impl CapturedResponse {
    /// A second response with the same status, headers and body.
    pub fn duplicate(&self) -> (copy: CapturedResponse)
        ensures
            copy@ == self@,
    {
        let mut headers: Vec<(String, String)> = Vec::new();
        let mut i: usize = 0;
        while i < self.headers.len()
            invariant
                i <= self.headers.len(),
                headers@.len() == i,
                forall|j: int|
                    0 <= j < i ==> headers@[j].0@ == self.headers@[j].0@ && headers@[j].1@
                        == self.headers@[j].1@,
            decreases self.headers.len() - i,
        {
            let name = self.headers[i].0.clone();
            let value = self.headers[i].1.clone();
            headers.push((name, value));
            i += 1;
        }
        let mut body: Vec<u8> = Vec::new();
        let mut k: usize = 0;
        while k < self.body.len()
            invariant
                k <= self.body.len(),
                body@ == self.body@.subrange(0, k as int),
            decreases self.body.len() - k,
        {
            body.push(self.body[k]);
            assert(body@ =~= self.body@.subrange(0, k + 1));
            k += 1;
        }
        assert(body@ =~= self.body@);
        assert(headers_view(headers@) =~= headers_view(self.headers@));
        CapturedResponse { status: self.status, headers, body }
    }

    /// The redirect that acknowledges an accepted submission.
    pub fn see_other(location: &str) -> (response: CapturedResponse)
        ensures
            response@ == acknowledgment(location@),
    {
        let mut headers: Vec<(String, String)> = Vec::new();
        headers.push(("location".to_string(), location.to_string()));
        let response = CapturedResponse { status: SEE_OTHER, headers, body: Vec::new() };
        assert(response@.headers =~= seq![("location"@, location@)]);
        response
    }
}

} // verus!
