//! Snapshots of HTTP responses.
//!
//! A response is persisted for replay as a plain descriptor: status code, an
//! ordered sequence of header name/value pairs (duplicates allowed) and a
//! body. Two descriptors are the same response exactly when their models are
//! equal.

use vstd::prelude::*;

verus! {

/// The mathematical content of a response descriptor.
#[verifier::ext_equal]
pub ghost struct ResponseModel {
    pub status_code: u16,
    pub headers: Seq<(Seq<char>, Seq<char>)>,
    pub body: Seq<char>,
}

/// A serializable snapshot of an HTTP response, persisted for replay.
#[derive(Debug, PartialEq, Eq)]
pub struct HttpResponseDescriptor {
    pub status_code: u16,
    pub headers: Vec<(String, String)>,
    pub body: String,
}

impl View for HttpResponseDescriptor {
    type V = ResponseModel;

    open spec fn view(&self) -> ResponseModel {
        ResponseModel {
            status_code: self.status_code,
            headers: self.headers@.map_values(|p: (String, String)| (p.0@, p.1@)),
            body: self.body@,
        }
    }
}

/// The response that redirects the client to `location` after a successful
/// publication: status 303 with a single `Location` header and an empty body.
pub open spec fn see_other_model(location: Seq<char>) -> ResponseModel {
    ResponseModel {
        status_code: 303,
        headers: seq![("Location"@, location)],
        body: Seq::empty(),
    }
}

/// A bare response: the given status, no headers, an empty body.
pub open spec fn status_only_model(status_code: u16) -> ResponseModel {
    ResponseModel { status_code, headers: Seq::empty(), body: Seq::empty() }
}

/// Builds a bare response carrying only a status code.
pub fn status_only(status_code: u16) -> (r: HttpResponseDescriptor)
    ensures
        r@ == status_only_model(status_code),
{
    let r = HttpResponseDescriptor { status_code, headers: Vec::new(), body: String::new() };
    proof {
        assert(r@.headers =~= status_only_model(status_code).headers);
        assert(r@ =~= status_only_model(status_code));
    }
    r
}

/// Builds the redirect response sent after a successful publication.
pub fn see_other(location: &str) -> (r: HttpResponseDescriptor)
    ensures
        r@ == see_other_model(location@),
{
    let mut headers: Vec<(String, String)> = Vec::new();
    headers.push((String::from_str("Location"), location.to_owned()));
    let r = HttpResponseDescriptor { status_code: 303, headers, body: String::new() };
    proof {
        assert(r@.headers =~= see_other_model(location@).headers);
        assert(r@ =~= see_other_model(location@));
    }
    r
}

impl HttpResponseDescriptor {
    /// An exact copy of the descriptor, as handed out when a saved response
    /// is replayed.
    pub fn duplicate(&self) -> (r: HttpResponseDescriptor)
        ensures
            r@ == self@,
    {
        let mut headers: Vec<(String, String)> = Vec::new();
        let mut i: usize = 0;
        while i < self.headers.len()
            invariant
                i <= self.headers.len(),
                headers@.map_values(|p: (String, String)| (p.0@, p.1@)) =~= self.headers@.take(
                    i as int,
                ).map_values(|p: (String, String)| (p.0@, p.1@)),
            decreases self.headers.len() - i,
        {
            let name = self.headers[i].0.clone();
            let value = self.headers[i].1.clone();
            headers.push((name, value));
            proof {
                assert(self.headers@.take(i + 1) =~= self.headers@.take(i as int).push(
                    self.headers@[i as int],
                ));
                self.headers@.take(i as int).lemma_push_map_commute(
                    |p: (String, String)| (p.0@, p.1@),
                    self.headers@[i as int],
                );
            }
            i = i + 1;
        }
        let r = HttpResponseDescriptor {
            status_code: self.status_code,
            headers,
            body: self.body.clone(),
        };
        proof {
            assert(self.headers@.take(self.headers@.len() as int) =~= self.headers@);
            assert(r@ =~= self@);
        }
        r
    }
}

} // verus!
