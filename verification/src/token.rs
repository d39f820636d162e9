//! The token-exchange side of the registry protocol: parsing the bearer
//! challenge header a registry answers an unauthenticated probe with, building
//! the token endpoint URL from it, and reading the token out of the endpoint's
//! reply. The network calls themselves happen outside the library; everything
//! that decides lives here.

use vstd::prelude::*;
use crate::json::{spec_get, Json};
use crate::strutil::{contains_char, find_first, first_index_of, str_eq};

verus! {

/// A parsed bearer challenge: where to fetch a token, for which service and
/// scope.
#[derive(Debug, Clone)]
pub struct Challenge {
    pub realm: String,
    pub service: String,
    pub scope: String,
}

/// The fixed challenge grammar
/// `Bearer realm="<realm>",service="<service>",scope="<scope>"`,
/// read left to right: each value runs to the next quote, so values hold no
/// quotes, and each must be nonempty. Anything else is a hard parse failure.
pub open spec fn spec_parse_challenge(h: Seq<char>) -> Option<(Seq<char>, Seq<char>, Seq<char>)> {
    let p = "Bearer realm=\""@;
    let d1 = "\",service=\""@;
    let d2 = "\",scope=\""@;
    if h.len() < p.len() || h.subrange(0, p.len() as int) != p {
        None
    } else {
        let rest1 = h.subrange(p.len() as int, h.len() as int);
        match first_index_of(rest1, '"') {
            None => None,
            Some(a) => if a == 0 {
                None
            } else {
                let realm = rest1.subrange(0, a);
                let after1 = rest1.subrange(a, rest1.len() as int);
                if after1.len() < d1.len() || after1.subrange(0, d1.len() as int) != d1 {
                    None
                } else {
                    let rest2 = after1.subrange(d1.len() as int, after1.len() as int);
                    match first_index_of(rest2, '"') {
                        None => None,
                        Some(b) => if b == 0 {
                            None
                        } else {
                            let service = rest2.subrange(0, b);
                            let after2 = rest2.subrange(b, rest2.len() as int);
                            if after2.len() < d2.len() || after2.subrange(0, d2.len() as int)
                                != d2 {
                                None
                            } else {
                                let rest3 = after2.subrange(
                                    d2.len() as int,
                                    after2.len() as int,
                                );
                                match first_index_of(rest3, '"') {
                                    None => None,
                                    Some(e) => if e > 0 && e + 1 == rest3.len() {
                                        Some((realm, service, rest3.subrange(0, e)))
                                    } else {
                                        None
                                    },
                                }
                            }
                        },
                    }
                }
            },
        }
    }
}

/// Parses a challenge header, exactly as `spec_parse_challenge` describes it.
pub fn parse_challenge(h: &str) -> (r: Option<Challenge>)
    ensures
        match r {
            Some(ch) => spec_parse_challenge(h@) == Some((ch.realm@, ch.service@, ch.scope@)),
            None => spec_parse_challenge(h@) is None,
        },
{
    let n: usize = h.unicode_len();
    let p = "Bearer realm=\"";
    let d1 = "\",service=\"";
    let d2 = "\",scope=\"";
    let pl: usize = p.unicode_len();
    if n < pl {
        return None;
    }
    if !str_eq(h.substring_char(0, pl), p) {
        return None;
    }
    let rest1 = h.substring_char(pl, n);
    let r1n: usize = rest1.unicode_len();
    let a: usize = match find_first(rest1, '"') {
        None => {
            return None;
        },
        Some(a) => a,
    };
    if a == 0 {
        return None;
    }
    let realm = rest1.substring_char(0, a);
    let after1 = rest1.substring_char(a, r1n);
    let a1n: usize = after1.unicode_len();
    let d1l: usize = d1.unicode_len();
    if a1n < d1l || !str_eq(after1.substring_char(0, d1l), d1) {
        return None;
    }
    let rest2 = after1.substring_char(d1l, a1n);
    let r2n: usize = rest2.unicode_len();
    let b: usize = match find_first(rest2, '"') {
        None => {
            return None;
        },
        Some(b) => b,
    };
    if b == 0 {
        return None;
    }
    let service = rest2.substring_char(0, b);
    let after2 = rest2.substring_char(b, r2n);
    let a2n: usize = after2.unicode_len();
    let d2l: usize = d2.unicode_len();
    if a2n < d2l || !str_eq(after2.substring_char(0, d2l), d2) {
        return None;
    }
    let rest3 = after2.substring_char(d2l, a2n);
    let r3n: usize = rest3.unicode_len();
    match find_first(rest3, '"') {
        None => None,
        Some(e) => {
            if e > 0 && e + 1 == r3n {
                let scope = rest3.substring_char(0, e);
                Some(
                    Challenge {
                        realm: realm.to_owned(),
                        service: service.to_owned(),
                        scope: scope.to_owned(),
                    },
                )
            } else {
                None
            }
        },
    }
}

/// The text of the token endpoint request for a challenge:
/// `<realm>?service=<service>&scope=<scope>`.
pub open spec fn spec_token_url(realm: Seq<char>, service: Seq<char>, scope: Seq<char>) -> Seq<
    char,
> {
    realm + "?service="@ + service + "&scope="@ + scope
}

impl Challenge {
    /// Builds the token endpoint URL for this challenge.
    pub fn token_url(&self) -> (r: String)
        ensures
            r@ == spec_token_url(self.realm@, self.service@, self.scope@),
    {
        let mut url = self.realm.clone();
        url.append("?service=");
        url.append(self.service.as_str());
        url.append("&scope=");
        url.append(self.scope.as_str());
        url
    }
}

/// What one unauthenticated probe of the manifest URL decides next.
#[derive(Debug)]
pub enum TokenDecision {
    /// No challenge header came back: the registry gates nothing, proceed
    /// without a token.
    NotNeeded,
    /// A well-formed challenge came back: exchange it at this URL.
    Request(String),
    /// A challenge came back but matches no recognized grammar: this
    /// resolution fails, with no retry.
    Malformed,
}

/// Decides what to do after the unauthenticated probe, from the challenge
/// header it did or did not carry.
pub fn token_decision(challenge_header: Option<&str>) -> (r: TokenDecision)
    ensures
        match challenge_header {
            None => r is NotNeeded,
            Some(h) => match spec_parse_challenge(h@) {
                Some(parts) => r matches TokenDecision::Request(u) && u@ == spec_token_url(
                    parts.0,
                    parts.1,
                    parts.2,
                ),
                None => r is Malformed,
            },
        },
{
    match challenge_header {
        None => TokenDecision::NotNeeded,
        Some(h) => match parse_challenge(h) {
            Some(ch) => TokenDecision::Request(ch.token_url()),
            None => TokenDecision::Malformed,
        },
    }
}

/// Reads the bearer token out of the token endpoint's JSON reply: the string
/// under `token`, and nothing else. A missing or non-string field means no
/// token, and the caller proceeds unauthenticated.
pub fn token_from_response(body: &Json) -> (r: Option<String>)
    ensures
        match spec_get(*body, "token"@) {
            Some(v) => match v {
                Json::Str(t) => r matches Some(s) && s@ == t@,
                _ => r is None,
            },
            None => r is None,
        },
{
    match body.get("token") {
        Some(v) => match v.as_str() {
            Some(s) => Some(s.clone()),
            None => None,
        },
        None => None,
    }
}

/// Soundness of the challenge parser: whatever it accepts decomposes the
/// header exactly into the fixed grammar around three nonempty, quote-free
/// values.
pub proof fn lemma_challenge_sound(h: Seq<char>, realm: Seq<char>, service: Seq<char>, scope: Seq<
    char,
>)
    requires
        spec_parse_challenge(h) == Some((realm, service, scope)),
    ensures
        h =~= "Bearer realm=\""@ + realm + "\",service=\""@ + service + "\",scope=\""@ + scope
            + "\""@,
        realm.len() > 0 && !contains_char(realm, '"'),
        service.len() > 0 && !contains_char(service, '"'),
        scope.len() > 0 && !contains_char(scope, '"'),
{
    let p = "Bearer realm=\""@;
    let d1 = "\",service=\""@;
    let d2 = "\",scope=\""@;
    let rest1 = h.subrange(p.len() as int, h.len() as int);
    crate::strutil::lemma_first_index_of_properties(rest1, '"');
    let a = first_index_of(rest1, '"')->Some_0;
    let after1 = rest1.subrange(a, rest1.len() as int);
    let rest2 = after1.subrange(d1.len() as int, after1.len() as int);
    crate::strutil::lemma_first_index_of_properties(rest2, '"');
    let b = first_index_of(rest2, '"')->Some_0;
    let after2 = rest2.subrange(b, rest2.len() as int);
    let rest3 = after2.subrange(d2.len() as int, after2.len() as int);
    crate::strutil::lemma_first_index_of_properties(rest3, '"');
    let e = first_index_of(rest3, '"')->Some_0;
    assert(realm == rest1.subrange(0, a));
    assert(service == rest2.subrange(0, b));
    assert(scope == rest3.subrange(0, e));
    reveal_strlit("\"");
    assert("\""@ =~= seq!['"']);
    assert(h =~= h.subrange(0, p.len() as int) + rest1);
    assert(h.subrange(0, p.len() as int) == p);
    assert(rest1 =~= realm + after1);
    assert(after1 =~= after1.subrange(0, d1.len() as int) + rest2);
    assert(after1.subrange(0, d1.len() as int) == d1);
    assert(rest2 =~= service + after2);
    assert(after2 =~= after2.subrange(0, d2.len() as int) + rest3);
    assert(after2.subrange(0, d2.len() as int) == d2);
    assert(rest3 =~= scope + seq!['"']);
    assert(h =~= p + realm + d1 + service + d2 + scope + "\""@);
    assert forall|i: int| 0 <= i < realm.len() implies realm[i] != '"' by {
        assert(rest1.subrange(0, a)[i] == rest1[i]);
    }
    assert forall|i: int| 0 <= i < service.len() implies service[i] != '"' by {
        assert(rest2.subrange(0, b)[i] == rest2[i]);
    }
    assert forall|i: int| 0 <= i < scope.len() implies scope[i] != '"' by {
        assert(rest3.subrange(0, e)[i] == rest3[i]);
    }
}

} // verus!
