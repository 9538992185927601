//! The client's decision layer.
//!
//! A `Client` holds the optional credential and turns each operation into
//! a request plan: the URL, the query pairs or JSON body, and the
//! credential to attach. Whether a missing credential stops an operation
//! is decided here, before any network work: an operation that needs one
//! reports `Error::TokenNotPresent` and plans nothing. The transport that
//! executes a plan lives outside this crate.

use vstd::prelude::*;

use crate::json::JsonValue;
use crate::post_data::QueryFormat;
use crate::post_data::envelope_json;
use crate::urls::get_authinfo_url;
use crate::urls::get_stats_url;
use crate::urls::get_ulist_url;
use crate::urls::get_user_url;

verus! {

broadcast use vstd::slice::group_slice_axioms;

/// The failure a plan can report before any network work: the operation
/// needs a credential and none is configured. Transport failures belong
/// to the transport that executes the plan.
#[derive(Debug, Clone, Copy, PartialEq, Eq, Structural)]
pub enum Error {
    TokenNotPresent,
}

/// The characters of an optional credential.
pub open spec fn token_view(t: Option<String>) -> Option<Seq<char>> {
    match t {
        Option::Some(s) => Some(s@),
        Option::None => None,
    }
}

/// A planned GET call: where to go, which query pairs to attach, and the
/// credential to send as the authorization token, if any.
#[derive(Debug, Clone)]
pub struct GetPlan {
    pub url: String,
    pub query: Vec<(String, String)>,
    pub auth_token: Option<String>,
}

/// A planned POST call: where to go, the JSON body, and the credential to
/// send as the authorization token, if any.
#[derive(Debug, Clone)]
pub struct PostPlan {
    pub url: String,
    pub body: JsonValue,
    pub auth_token: Option<String>,
}

/// A client: the configured credential, if any. Plans requests; performs
/// no I/O itself.
pub struct Client {
    token: Option<String>,
}

impl Client {
    /// The characters of the configured credential.
    pub closed spec fn spec_token(&self) -> Option<Seq<char>> {
        token_view(self.token)
    }

    fn new(token: Option<String>) -> (c: Self)
        ensures
            c.spec_token() == token_view(token),
    {
        Client { token }
    }

    /// A client with no credential.
    pub fn simple() -> (c: Self)
        ensures
            c.spec_token() is None,
    {
        Client::new(None)
    }

    /// A client holding a credential.
    pub fn with_token(token: String) -> (c: Self)
        ensures
            c.spec_token() == Some(token@),
    {
        Client::new(Some(token))
    }

    /// Configure the credential.
    pub fn set_token(&mut self, token: String)
        ensures
            final(self).spec_token() == Some(token@),
    {
        self.token = Some(token);
    }

    /// The configured credential, or the error every gated operation
    /// reports without one.
    fn token(&self) -> (r: Result<&str, Error>)
        ensures
            match self.spec_token() {
                Option::Some(t) => r matches Ok(s) && s@ == t,
                Option::None => r matches Err(e) && e == Error::TokenNotPresent,
            },
    {
        match &self.token {
            Some(x) => Ok(x.as_str()),
            None => Err(Error::TokenNotPresent),
        }
    }

    /// Plan a GET call. The credential is attached whenever one is
    /// configured; an operation that requires one fails here, before any
    /// network attempt, when none is.
    pub fn get_request(&self, url: &str, query: Vec<(String, String)>, token_required: bool) -> (r:
        Result<GetPlan, Error>)
        ensures
            self.spec_token() is Some || !token_required ==> (r matches Ok(p) && p.url@ == url@
                && p.query == query && token_view(p.auth_token) == self.spec_token()),
            self.spec_token() is None && token_required ==> (r matches Err(e) && e
                == Error::TokenNotPresent),
    {
        let auth_token = match self.token() {
            Ok(t) => Some(t.to_owned()),
            Err(e) => {
                if token_required {
                    return Err(e);
                }
                None
            },
        };
        Ok(GetPlan { url: url.to_owned(), query, auth_token })
    }

    /// Plan a POST call carrying a query envelope. The body is the
    /// envelope's serialized form; the credential is attached whenever
    /// one is configured, and required exactly as for `get_request`.
    pub fn post_request(&self, url: &str, body: &QueryFormat, token_required: bool) -> (r: Result<
        PostPlan,
        Error,
    >)
        ensures
            self.spec_token() is Some || !token_required ==> (r matches Ok(p) && p.url@ == url@
                && p.body.deep_view() == envelope_json(*body) && token_view(p.auth_token)
                == self.spec_token()),
            self.spec_token() is None && token_required ==> (r matches Err(e) && e
                == Error::TokenNotPresent),
    {
        let auth_token = match self.token() {
            Ok(t) => Some(t.to_owned()),
            Err(e) => {
                if token_required {
                    return Err(e);
                }
                None
            },
        };
        Ok(PostPlan { url: url.to_owned(), body: body.to_json(), auth_token })
    }

    /// Plan the aggregate-statistics lookup: no query, no credential
    /// needed.
    pub fn vndbstats(&self) -> (r: GetPlan)
        ensures
            r.url@ == "https://api.vndb.org/kana/stats"@,
            r.query@.len() == 0,
            token_view(r.auth_token) == self.spec_token(),
    {
        let planned = self.get_request(get_stats_url(), Vec::new(), false);
        match planned {
            Ok(p) => p,
            Err(_) => {
                proof {
                    assert(false);
                }
                GetPlan { url: String::new(), query: Vec::new(), auth_token: None }
            },
        }
    }

    /// Whether a query pair asks for one id or name: `q` mapped to it.
    pub open spec fn is_q_pair(p: (String, String), name: &str) -> bool {
        p.0@ == "q"@ && p.1@ == name@
    }

    /// Plan a user lookup: one `q` pair per queried id or name, in order,
    /// then the field selection. No credential needed.
    #[verifier::loop_isolation(false)]
    pub fn users_stats(&self, id_or_name: &[&str]) -> (r: GetPlan)
        ensures
            r.url@ == "https://api.vndb.org/kana/user"@,
            r.query@.len() == id_or_name@.len() + 1,
            forall|i: int|
                0 <= i < id_or_name@.len() ==> Self::is_q_pair(r.query@[i], id_or_name@[i]),
            r.query@.last().0@ == "fields"@,
            r.query@.last().1@ == "lengthvotes,lengthvotes_sum"@,
            token_view(r.auth_token) == self.spec_token(),
    {
        let mut query: Vec<(String, String)> = Vec::new();
        let n = id_or_name.len();
        let mut i: usize = 0;
        while i < n
            invariant
                n == id_or_name@.len(),
                i <= n,
                query@.len() == i,
                forall|k: int|
                    0 <= k < i ==> Self::is_q_pair(query@[k], id_or_name@[k]),
            decreases n - i,
        {
            let name: &&str = id_or_name.get(i).unwrap();
            let pair = ("q".to_owned(), (*name).to_owned());
            proof {
                assert(Self::is_q_pair(pair, id_or_name@[i as int]));
            }
            query.push(pair);
            i += 1;
        }
        query.push(("fields".to_owned(), "lengthvotes,lengthvotes_sum".to_owned()));
        let planned = self.get_request(get_user_url(), query, false);
        match planned {
            Ok(p) => p,
            Err(_) => {
                proof {
                    assert(false);
                }
                GetPlan { url: String::new(), query: Vec::new(), auth_token: None }
            },
        }
    }

    /// Plan the authenticated-user lookup. This operation requires the
    /// credential: without one it reports `TokenNotPresent` and plans
    /// nothing, so no network attempt is ever made.
    pub fn authinfo(&self) -> (r: Result<GetPlan, Error>)
        ensures
            self.spec_token() matches Some(t) ==> (r matches Ok(p) && p.url@
                == "https://api.vndb.org/kana/authinfo"@ && p.query@.len() == 0 && token_view(
                p.auth_token,
            ) == Some(t)),
            self.spec_token() is None ==> (r matches Err(e) && e == Error::TokenNotPresent),
    {
        self.get_request(get_authinfo_url(), Vec::new(), true)
    }

    /// Plan a list-labels lookup. With a user given, the lookup is scoped
    /// to that user and needs no credential; without one it reads the
    /// authenticated user's labels and requires the credential, failing
    /// here when none is configured.
    pub fn ulist_labels(&self, user: Option<&str>) -> (r: Result<GetPlan, Error>)
        ensures
            user matches Some(u) ==> (r matches Ok(p) && p.url@
                == "https://api.vndb.org/kana/ulist_labels"@ && p.query@.len() == 2
                && p.query@[0].0@ == "fields"@ && p.query@[0].1@ == "count"@ && p.query@[1].0@
                == "user"@ && p.query@[1].1@ == u@ && token_view(p.auth_token)
                == self.spec_token()),
            user is None && self.spec_token() is Some ==> (r matches Ok(p) && p.url@
                == "https://api.vndb.org/kana/ulist_labels"@ && p.query@.len() == 1
                && p.query@[0].0@ == "fields"@ && p.query@[0].1@ == "count"@ && token_view(
                p.auth_token,
            ) == self.spec_token()),
            user is None && self.spec_token() is None ==> (r matches Err(e) && e
                == Error::TokenNotPresent),
    {
        let mut query: Vec<(String, String)> = Vec::new();
        query.push(("fields".to_owned(), "count".to_owned()));
        let token_required = match user {
            Some(u) => {
                query.push(("user".to_owned(), u.to_owned()));
                false
            },
            None => true,
        };
        self.get_request(get_ulist_url(), query, token_required)
    }
}

} // verus!
