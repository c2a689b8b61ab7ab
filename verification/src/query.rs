//! What a request says in its query string and its headers.

use crate::error::{failure, seen, Error, ErrorKind, ErrorView};
use crate::text::{
    folded, header_text, header_text_of, same_ignoring_case, split_at_space, split_once_at_space,
};
use vstd::prelude::*;

verus! {

/// The parameters of a query string, as `form_urlencoded` reads them.
pub uninterp spec fn form_pairs_of(query: Seq<char>) -> Seq<(Seq<char>, Seq<char>)>;

/// Trusted: `form_urlencoded::parse` of `url`, which splits the query string
/// into names and values and decodes them. The pairs are [`form_pairs_of`] the
/// query string.
#[verifier::external_body]
pub(crate) fn form_pairs(query: &str) -> (pairs: Vec<(String, String)>)
    ensures
        pairs.deep_view() == form_pairs_of(query@),
{
    url::form_urlencoded::parse(query.as_bytes())
        .map(|(key, value)| (key.into_owned(), value.into_owned()))
        .collect()
}

/// One of the parameters asks for a delay. The case of ASCII letters in its name
/// does not matter.
pub open spec fn asks_for_delay(pairs: Seq<(Seq<char>, Seq<char>)>) -> bool {
    exists|i: int|
        0 <= i < pairs.len() && folded((#[trigger] pairs[i]).0) == folded(
            "org.matrix.msc4140.delay"@,
        )
}

/// The value of the first parameter with this name.
pub open spec fn first_value(pairs: Seq<(Seq<char>, Seq<char>)>, name: Seq<char>) -> Option<Seq<char>>
    decreases pairs.len(),
{
    if pairs.len() == 0 {
        None
    } else if pairs[0].0 == name {
        Some(pairs[0].1)
    } else {
        first_value(pairs.drop_first(), name)
    }
}

/// The token of a "Bearer" authorization.
pub open spec fn bearer_token(authorization: Seq<char>) -> Option<Seq<char>> {
    match split_at_space(authorization) {
        Some((scheme, token)) => if folded(scheme) == folded("Bearer"@) {
            Some(token)
        } else {
            None
        },
        None => None,
    }
}

/// The token of the authorization header, if there is one and it holds one.
pub open spec fn header_token(authorization: Option<Seq<u8>>) -> Option<Seq<char>> {
    match authorization {
        Some(bytes) => match header_text_of(bytes) {
            Some(text) => bearer_token(text),
            None => None,
        },
        None => None,
    }
}

/// The access token of a request: that of the header, or else the first
/// `access_token` among the parameters.
pub open spec fn access_token(
    authorization: Option<Seq<u8>>,
    pairs: Option<Seq<(Seq<char>, Seq<char>)>>,
) -> Option<Seq<char>> {
    match header_token(authorization) {
        Some(token) => Some(token),
        None => match pairs {
            Some(pairs) => first_value(pairs, "access_token"@),
            None => None,
        },
    }
}

/// The parameters of a request's query string, where it has one.
pub open spec fn query_pairs(query: Option<Seq<char>>) -> Option<Seq<(Seq<char>, Seq<char>)>> {
    match query {
        Some(query) => Some(form_pairs_of(query)),
        None => None,
    }
}

/// Whether a request with this query string asks for a delay.
pub fn has_delay_param(query: &str) -> (delayed: bool)
    ensures
        delayed == asks_for_delay(form_pairs_of(query@)),
{
    names_delay(&form_pairs(query))
}

/// Whether one of the parameters asks for a delay.
pub fn names_delay(pairs: &Vec<(String, String)>) -> (delayed: bool)
    ensures
        delayed == asks_for_delay(pairs.deep_view()),
{
    let ghost all = pairs.deep_view();
    let mut i: usize = 0;
    while i < pairs.len()
        invariant
            i <= pairs.len(),
            all == pairs.deep_view(),
            forall|j: int|
                0 <= j < i ==> folded((#[trigger] all[j]).0) != folded(
                    "org.matrix.msc4140.delay"@,
                ),
        decreases pairs.len() - i,
    {
        if same_ignoring_case(pairs[i].0.as_str(), "org.matrix.msc4140.delay") {
            assert(folded(all[i as int].0) == folded("org.matrix.msc4140.delay"@));
            return true;
        }
        i += 1;
    }
    false
}

/// Whether a request to send an event is one to send it with a delay. A request
/// without a query string has an empty one.
pub fn is_delayed_request(query: &Option<String>) -> (delayed: bool)
    ensures
        delayed == asks_for_delay(
            form_pairs_of(
                match query {
                    Some(query) => query@,
                    None => ""@,
                },
            ),
        ),
{
    match query {
        Some(query) => has_delay_param(query.as_str()),
        None => has_delay_param(""),
    }
}

/// The access token of a request, from the authorization header or from the
/// `access_token` parameter. `authorization` is the header's value.
pub fn extract_token_from_request(
    authorization: &Option<Vec<u8>>,
    query: &Option<String>,
) -> (token: Option<String>)
    ensures
        token.deep_view() == access_token(authorization.deep_view(), query_pairs(query.deep_view())),
{
    let pairs = match query {
        Some(query) => Some(form_pairs(query.as_str())),
        None => None,
    };
    pick_token(authorization, &pairs)
}

/// The access token of a request, whose parameters have been read.
pub fn pick_token(
    authorization: &Option<Vec<u8>>,
    pairs: &Option<Vec<(String, String)>>,
) -> (token: Option<String>)
    ensures
        token.deep_view() == access_token(authorization.deep_view(), pairs.deep_view()),
{
    match authorization {
        Some(bytes) => {
            assert(bytes.deep_view() =~= bytes@);
            match header_text(bytes) {
                Some(text) => match read_bearer(text.as_str()) {
                    Some(token) => {
                        return Some(token);
                    },
                    None => {},
                },
                None => {},
            }
        },
        None => {},
    }
    match pairs {
        Some(pairs) => find_value(pairs, "access_token"),
        None => None,
    }
}

/// The token of a "Bearer" authorization.
fn read_bearer(authorization: &str) -> (token: Option<String>)
    ensures
        token.deep_view() == bearer_token(authorization@),
{
    match split_once_at_space(authorization) {
        Some((scheme, token)) => if same_ignoring_case(scheme.as_str(), "Bearer") {
            Some(token)
        } else {
            None
        },
        None => None,
    }
}

/// The value of the first parameter with this name.
fn find_value(pairs: &Vec<(String, String)>, name: &str) -> (value: Option<String>)
    ensures
        value.deep_view() == first_value(pairs.deep_view(), name@),
{
    let wanted = name.to_owned();
    let ghost all = pairs.deep_view();
    let mut i: usize = 0;
    assert(all.skip(0) =~= all);
    while i < pairs.len()
        invariant
            i <= pairs.len(),
            all == pairs.deep_view(),
            wanted@ == name@,
            first_value(all, name@) == first_value(all.skip(i as int), name@),
        decreases pairs.len() - i,
    {
        proof {
            assert(all.skip(i as int)[0] == all[i as int]);
            assert(all.skip(i as int).drop_first() =~= all.skip(i + 1));
        }
        if pairs[i].0 == wanted {
            return Some(pairs[i].1.clone());
        }
        i += 1;
    }
    None
}

/// The token, where the request has one.
pub fn require_token(token: Option<String>) -> (result: Result<String, Error>)
    ensures
        seen(result) == (match token {
            Some(token) => Ok(token@),
            None => Err(failure(ErrorKind::MissingToken, "Missing access token"@)),
        }),
{
    match token {
        Some(token) => Ok(token),
        None => Err(Error::new(ErrorKind::MissingToken, "Missing access token")),
    }
}

/// Whom a token stands for: what was found under it is a user and the time at
/// which the token expires, if it does.
pub open spec fn token_owner(
    found: Option<(Seq<char>, Option<u128>)>,
    now: u128,
) -> Result<Seq<char>, ErrorView> {
    match found {
        None => Err(failure(ErrorKind::Forbidden, "Invalid access token"@)),
        Some((user_id, expires_at)) => match expires_at {
            Some(time) => if time < now {
                Err(failure(ErrorKind::Forbidden, "Access token has expired"@))
            } else {
                Ok(user_id)
            },
            None => Ok(user_id),
        },
    }
}

/// The user whose token this is. `found` is what is known of the token, and the
/// times are nanoseconds since the Unix epoch.
pub fn find_user_from_token(
    found: Option<(String, Option<u128>)>,
    now: u128,
) -> (result: Result<String, Error>)
    ensures
        seen(result) == token_owner(found.deep_view(), now),
{
    let (user_id, expires_at) = match found {
        Some(found) => found,
        None => {
            return Err(Error::new(ErrorKind::Forbidden, "Invalid access token"));
        },
    };
    match expires_at {
        Some(time) => if time < now {
            return Err(Error::new(ErrorKind::Forbidden, "Access token has expired"));
        },
        None => {},
    }
    Ok(user_id)
}

} // verus!
