//! The login through an outside provider: the addresses to which a user
//! and the server itself turn, and what the provider hands back.

use vstd::prelude::*;
use vstd::slice::*;
use vstd::string::*;
use crate::reply::{text_header, Reply, ReplyView};
use crate::text::{ascii, ascii_bytes, split, split_on};

verus! {

/// The address at which a user grants the login, for the application
/// registered as `client_id`.
pub open spec fn authorize_address(client_id: Seq<char>) -> Seq<char> {
    "https://github.com/login/oauth/authorize?client_id="@ + client_id + "&scope=user:email"@
}

/// The address at which the server trades the code of a granted login for
/// an access token.
pub open spec fn token_address(
    client_id: Seq<char>,
    client_secret: Seq<char>,
    code: Seq<char>,
) -> Seq<char> {
    "https://github.com/login/oauth/access_token"@ + "?client_id="@ + client_id
        + "&client_secret="@ + client_secret + "&code="@ + code
}

/// The answer that sends a user to the provider.
pub open spec fn login_redirect_of(client_id: Seq<char>) -> ReplyView {
    ReplyView {
        status: 307,
        headers: seq![text_header("Location"@, authorize_address(client_id))],
        body: vstd::utf8::encode_utf8("Redirecting..."@),
    }
}

/// Sends a user who asks to log in on to the provider.
pub fn login_redirect(client_id: &str) -> (reply: Reply)
    ensures
        reply@ == login_redirect_of(client_id@),
{
    let address = String::from_str("https://github.com/login/oauth/authorize?client_id=").concat(
        client_id,
    ).concat("&scope=user:email");
    let mut reply = Reply::plain(307, "Redirecting...");
    reply.push_header("Location", address.as_str());
    assert(reply@.headers == login_redirect_of(client_id@).headers);
    reply
}

/// Builds the address at which the code of a granted login is traded for
/// an access token.
pub fn access_token_url(client_id: &str, client_secret: &str, code: &str) -> (url: String)
    ensures
        url@ == token_address(client_id@, client_secret@, code@),
{
    String::from_str("https://github.com/login/oauth/access_token").concat("?client_id=").concat(
        client_id,
    ).concat("&client_secret=").concat(client_secret).concat("&code=").concat(code)
}

/// Builds the value of the header that presents an access token.
pub fn bearer(access_token: &str) -> (value: String)
    ensures
        value@ == "Bearer "@ + access_token@,
{
    String::from_str("Bearer ").concat(access_token)
}

/// The code in the query with which the provider sends a user back: what
/// stands between the first `=` of the query and the second, or the end.
/// A query without `=` holds none.
pub open spec fn code_of(query: Seq<u8>) -> Option<Seq<u8>> {
    let fields = split(query, ascii("="@));
    if fields.len() > 1 {
        Some(fields[1])
    } else {
        None
    }
}

/// Reads the code from the query of a callback.
pub fn callback_code(query: &[u8]) -> (code: Option<Vec<u8>>)
    ensures
        match code {
            Some(code) => code_of(query@) == Some(code@),
            None => code_of(query@) is None,
        },
{
    proof {
        reveal_strlit("=");
    }
    let fields = split_on(query, ascii_bytes("="));
    let ghost parts = fields@.map_values(|piece: Vec<u8>| piece@);
    if fields.len() > 1 {
        assert(parts[1] == fields@[1]@);
        Some(slice_to_vec(fields[1].as_slice()))
    } else {
        None
    }
}

/// A member of a JSON object, as far as the login reads one.
#[derive(Clone, Debug, PartialEq, Eq)]
pub enum Member {
    /// A string.
    Text(String),
    /// A number that is a natural number below 2^64.
    Natural(u64),
    /// Anything else, and a member that is not there.
    Other,
}

/// Mathematical value of a [`Member`].
pub enum MemberView {
    Text(Seq<char>),
    Natural(u64),
    Other,
}

impl View for Member {
    type V = MemberView;

    open spec fn view(&self) -> MemberView {
        match self {
            Member::Text(text) => MemberView::Text(text@),
            Member::Natural(natural) => MemberView::Natural(*natural),
            Member::Other => MemberView::Other,
        }
    }
}

/// Why a reply of the provider does not hold what was looked for.
#[derive(Clone, Copy, Debug, PartialEq, Eq)]
pub enum MemberError {
    /// The reply is not JSON.
    NotJson,
    /// The reply is JSON and holds no such member of the kind looked for.
    Missing,
}

/// `serde_json::Error`, held as it is.
#[verifier::external_type_specification]
#[verifier::external_body]
pub struct ExJsonError(serde_json::Error);

/// The member `key` of the JSON text `body`, where `body` is JSON.
pub uninterp spec fn json_member_of(body: Seq<u8>, key: Seq<char>) -> Option<MemberView>;

/// `serde_json::from_slice` for a `serde_json::Value`, and of the value
/// read the member `key`, by the index operator, told apart by `as_str`
/// and `as_u64`.
#[verifier::external_body]
fn json_member(body: &[u8], key: &str) -> (member: Result<Member, serde_json::Error>)
    ensures
        member is Ok <==> json_member_of(body@, key@) is Some,
        member matches Ok(found) ==> json_member_of(body@, key@) == Some(found@),
{
    let value: serde_json::Value = serde_json::from_slice(body)?;
    let member = &value[key];
    Ok(
        match (member.as_str(), member.as_u64()) {
            (Some(text), _) => Member::Text(text.to_string()),
            (_, Some(natural)) => Member::Natural(natural),
            _ => Member::Other,
        },
    )
}

/// The string that was looked for in a reply.
pub fn text_member(member: Result<Member, serde_json::Error>) -> (text: Result<String, MemberError>)
    ensures
        match text {
            Ok(text) => member matches Ok(Member::Text(found)) && found@ == text@,
            Err(MemberError::Missing) => member is Ok && !(member matches Ok(Member::Text(_))),
            Err(MemberError::NotJson) => member is Err,
        },
{
    match member {
        Ok(Member::Text(text)) => Ok(text),
        Ok(_) => Err(MemberError::Missing),
        Err(_) => Err(MemberError::NotJson),
    }
}

/// The number that was looked for in a reply.
pub fn natural_member(member: Result<Member, serde_json::Error>) -> (natural: Result<
    u64,
    MemberError,
>)
    ensures
        match natural {
            Ok(natural) => member matches Ok(Member::Natural(found)) && found == natural,
            Err(MemberError::Missing) => member is Ok && !(member matches Ok(Member::Natural(_))),
            Err(MemberError::NotJson) => member is Err,
        },
{
    match member {
        Ok(Member::Natural(natural)) => Ok(natural),
        Ok(_) => Err(MemberError::Missing),
        Err(_) => Err(MemberError::NotJson),
    }
}

/// The string under `key` in the JSON text `body`.
pub open spec fn text_of(body: Seq<u8>, key: Seq<char>) -> Result<Seq<char>, MemberError> {
    match json_member_of(body, key) {
        Some(MemberView::Text(text)) => Ok(text),
        Some(_) => Err(MemberError::Missing),
        None => Err(MemberError::NotJson),
    }
}

/// The natural number under `key` in the JSON text `body`.
pub open spec fn natural_of(body: Seq<u8>, key: Seq<char>) -> Result<u64, MemberError> {
    match json_member_of(body, key) {
        Some(MemberView::Natural(natural)) => Ok(natural),
        Some(_) => Err(MemberError::Missing),
        None => Err(MemberError::NotJson),
    }
}

/// Reads the access token from the provider's reply to the trade of a
/// code.
pub fn access_token(body: &[u8]) -> (token: Result<String, MemberError>)
    ensures
        match token {
            Ok(token) => text_of(body@, "access_token"@) == Ok::<Seq<char>, MemberError>(token@),
            Err(error) => text_of(body@, "access_token"@) == Err::<Seq<char>, MemberError>(error),
        },
{
    text_member(json_member(body, "access_token"))
}

/// Reads the name of the user from the provider's description of the
/// user that holds an access token. Nothing else of the description
/// counts.
pub fn github_login(body: &[u8]) -> (login: Result<String, MemberError>)
    ensures
        match login {
            Ok(login) => text_of(body@, "login"@) == Ok::<Seq<char>, MemberError>(login@),
            Err(error) => text_of(body@, "login"@) == Err::<Seq<char>, MemberError>(error),
        },
{
    text_member(json_member(body, "login"))
}

/// Reads the number of the user from the provider's description of the
/// user that holds an access token. Nothing else of the description
/// counts.
pub fn github_id(body: &[u8]) -> (id: Result<u64, MemberError>)
    ensures
        id == natural_of(body@, "id"@),
{
    natural_member(json_member(body, "id"))
}

} // verus!
