//! Sessions: the token that a request's cookies carry, the answers that
//! start and end a session, and the rule for deleting one.

use vstd::prelude::*;
use vstd::slice::*;
use vstd::string::*;
use vstd::utf8::*;
use crate::encoder::{header_value_text, is_text, HeaderView};
use crate::reply::{plain_reply, text_header, Reply, ReplyView};
use crate::text::{ascii, ascii_bytes, lemma_split_has_a_piece, same_bytes, split, split_on};

verus! {

/// How often the deletion of a session is tried.
pub const MAX_DELETE_TRIES: u32 = 10;

/// How long to wait after a deletion that failed, in milliseconds.
pub const DELETE_RETRY_DELAY_MS: u64 = 100;

/// A user as the server knows one.
#[derive(Clone, Debug, PartialEq, Eq)]
pub struct UserInfo {
    pub id: i64,
    pub login: String,
}

/// The number under which the server keeps the user whom the provider
/// knows as `id`: the same 64 bits, read as a signed number.
pub open spec fn stored_id(id: u64) -> i64 {
    if id <= i64::MAX {
        id as i64
    } else {
        (id - 0x1_0000_0000_0000_0000) as i64
    }
}

/// The user that a granted login stands for.
pub fn user_record(id: u64, login: String) -> (user: UserInfo)
    ensures
        user.id == stored_id(id),
        user.login == login,
{
    let stored: i64 = if id <= 0x7fff_ffff_ffff_ffff {
        id as i64
    } else {
        let low: u64 = id - 0x8000_0000_0000_0000;
        low as i64 - 0x4000_0000_0000_0000 - 0x4000_0000_0000_0000
    };
    UserInfo { id: stored, login }
}

/// Why a request's cookies name no session.
#[derive(Clone, Copy, Debug, PartialEq, Eq)]
pub enum SessionError {
    /// The cookie header is not text.
    HeaderNotText,
    /// The token cookie, or the empty text where there is none, is no
    /// session token.
    InvalidToken,
}

/// The fields of one cookie: what `=` separates.
pub open spec fn cookie_fields(piece: Seq<u8>) -> Seq<Seq<u8>> {
    split(piece, ascii("="@))
}

/// The name of one cookie: what stands before its first `=`.
pub open spec fn cookie_name(piece: Seq<u8>) -> Seq<u8> {
    cookie_fields(piece)[0]
}

/// The value of one cookie: what stands between its first `=` and its
/// second, or its end; nothing where it has no `=`.
pub open spec fn cookie_value(piece: Seq<u8>) -> Seq<u8> {
    if cookie_fields(piece).len() > 1 {
        cookie_fields(piece)[1]
    } else {
        Seq::empty()
    }
}

/// The value of the last cookie among `pieces` that is named `name`, and
/// nothing where none is.
pub open spec fn last_cookie(pieces: Seq<Seq<u8>>, name: Seq<u8>) -> Seq<u8>
    decreases pieces.len(),
{
    if pieces.len() == 0 {
        Seq::empty()
    } else if cookie_name(pieces.last()) == name {
        cookie_value(pieces.last())
    } else {
        last_cookie(pieces.drop_last(), name)
    }
}

/// The value that a cookie header gives to `name`. Cookies are separated
/// by a semicolon and a space; of two with one name the later counts.
pub open spec fn cookie(header: Seq<u8>, name: Seq<u8>) -> Seq<u8> {
    last_cookie(split(header, ascii("; "@)), name)
}

/// Reads the value that a cookie header gives to `name`.
pub fn cookie_named(header: &[u8], name: &[u8]) -> (value: Vec<u8>)
    ensures
        value@ == cookie(header@, name@),
{
    proof {
        reveal_strlit("; ");
        reveal_strlit("=");
    }
    let pieces = split_on(header, ascii_bytes("; "));
    let ghost all = pieces@.map_values(|piece: Vec<u8>| piece@);
    let mut i: usize = pieces.len();
    assert(all.take(i as int) == all);
    while i > 0
        invariant
            i <= pieces.len(),
            all == pieces@.map_values(|piece: Vec<u8>| piece@),
            all == split(header@, ascii("; "@)),
            last_cookie(all, name@) == last_cookie(all.take(i as int), name@),
            "="@ == seq!['='],
            is_ascii("="),
        decreases i,
    {
        i -= 1;
        let ghost seen = all.take(i + 1);
        assert(seen.last() == pieces@[i as int]@);
        assert(seen.drop_last() == all.take(i as int));
        let fields = split_on(pieces[i].as_slice(), ascii_bytes("="));
        proof {
            lemma_split_has_a_piece(pieces@[i as int]@, ascii("="@));
        }
        let ghost parts = fields@.map_values(|piece: Vec<u8>| piece@);
        assert(parts == cookie_fields(pieces@[i as int]@));
        assert(parts[0] == fields@[0]@);
        if same_bytes(fields[0].as_slice(), name) {
            if fields.len() > 1 {
                assert(parts[1] == fields@[1]@);
                return slice_to_vec(fields[1].as_slice());
            } else {
                return Vec::new();
            }
        }
    }
    Vec::new()
}

/// The session token that a text denotes, as a 128-bit value, where it
/// denotes one.
pub uninterp spec fn uuid_of(text: Seq<u8>) -> Option<u128>;

/// `sqlx::types::Uuid::try_parse_ascii`, the parser behind `parse_str`,
/// and `as_u128` on the identifier parsed.
#[verifier::external_body]
fn parse_uuid(text: &[u8]) -> (parsed: Option<u128>)
    ensures
        parsed == uuid_of(text@),
{
    match sqlx::types::Uuid::try_parse_ascii(text) {
        Ok(uuid) => Some(uuid.as_u128()),
        Err(_) => None,
    }
}

/// The session that a parsed token stands for.
pub fn token_session(parsed: Option<u128>) -> (session: Result<Option<u128>, SessionError>)
    ensures
        session == match parsed {
            Some(token) => Ok::<Option<u128>, SessionError>(Some(token)),
            None => Err::<Option<u128>, SessionError>(SessionError::InvalidToken),
        },
{
    match parsed {
        Some(token) => Ok(Some(token)),
        None => Err(SessionError::InvalidToken),
    }
}

/// The session that a request's cookie header names: none without a
/// header; otherwise the one whose token the cookie `token` holds.
pub open spec fn session_of(header: Option<Seq<u8>>) -> Result<Option<u128>, SessionError> {
    match header {
        None => Ok(None),
        Some(cookies) => if !is_text(cookies) {
            Err(SessionError::HeaderNotText)
        } else {
            match uuid_of(cookie(cookies, ascii("token"@))) {
                Some(token) => Ok(Some(token)),
                None => Err(SessionError::InvalidToken),
            }
        },
    }
}

/// Reads the token of the session that a request belongs to from its
/// cookie header.
pub fn session_token(cookies_header: Option<&[u8]>) -> (session: Result<
    Option<u128>,
    SessionError,
>)
    ensures
        session == session_of(
            match cookies_header {
                Some(cookies) => Some(cookies@),
                None => None,
            },
        ),
{
    let cookies = match cookies_header {
        Some(cookies) => cookies,
        None => {
            return Ok(None);
        },
    };
    if header_value_text(cookies).is_none() {
        return Err(SessionError::HeaderNotText);
    }
    proof {
        reveal_strlit("token");
    }
    let token = cookie_named(cookies, ascii_bytes("token"));
    token_session(parse_uuid(token.as_slice()))
}

/// The answer that starts a session. Without a token the session could
/// not be made.
pub open spec fn login_reply_of(token: Option<Seq<char>>) -> ReplyView {
    match token {
        None => plain_reply(500, "Internal server error!"@),
        Some(token) => ReplyView {
            status: 307,
            headers: seq![
                text_header(
                    "Set-Cookie"@,
                    "token="@ + token + "; HttpOnly; Max-Age=2678400; Path=/"@,
                ),
                text_header("Location"@, "/"@),
            ],
            body: encode_utf8(token),
        },
    }
}

/// Answers a login: the session's token goes out as a cookie and as the
/// body, with a redirect to the start page.
pub fn login_reply(token: Option<&str>) -> (reply: Reply)
    ensures
        reply@ == login_reply_of(
            match token {
                Some(token) => Some(token@),
                None => None,
            },
        ),
{
    match token {
        None => Reply::plain(500, "Internal server error!"),
        Some(token) => {
            let cookie = String::from_str("token=").concat(token).concat(
                "; HttpOnly; Max-Age=2678400; Path=/",
            );
            let mut reply = Reply::plain(307, token);
            reply.push_header("Set-Cookie", cookie.as_str());
            reply.push_header("Location", "/");
            assert(reply@.headers == login_reply_of(Some(token@)).headers);
            reply
        },
    }
}

/// The answer that ends a session. Where the request named one, its
/// cookie is cleared.
pub open spec fn logout_reply_of(had_session: bool) -> ReplyView {
    ReplyView {
        status: 307,
        headers: if had_session {
            seq![
                text_header("Set-Cookie"@, "token=; HttpOnly; Path=/; Max-Age=-1"@),
                text_header("Location"@, "/"@),
            ]
        } else {
            seq![text_header("Location"@, "/"@)]
        },
        body: Seq::empty(),
    }
}

/// Answers a logout with a redirect to the start page.
pub fn logout_reply(had_session: bool) -> (reply: Reply)
    ensures
        reply@ == logout_reply_of(had_session),
{
    let mut reply = Reply { status: 307, headers: Vec::new(), body: Vec::new() };
    assert(reply@.headers == Seq::<HeaderView>::empty());
    if had_session {
        reply.push_header("Set-Cookie", "token=; HttpOnly; Path=/; Max-Age=-1");
    }
    reply.push_header("Location", "/");
    assert(reply@.headers == logout_reply_of(had_session).headers);
    reply
}

/// What follows an attempt to delete a session.
#[derive(Clone, Copy, Debug, PartialEq, Eq)]
pub enum DeleteStep {
    /// The session is deleted.
    Done,
    /// Wait, then try again.
    RetryAfterDelay,
    /// Wait, then give up.
    FailAfterDelay,
}

/// The rule for deleting a session: a deletion that fails is tried again
/// after a delay, until it was tried `MAX_DELETE_TRIES` times in all.
pub open spec fn delete_step_of(failures: u32, deleted: bool) -> DeleteStep {
    if deleted {
        DeleteStep::Done
    } else if failures + 1 < MAX_DELETE_TRIES {
        DeleteStep::RetryAfterDelay
    } else {
        DeleteStep::FailAfterDelay
    }
}

/// Decides what follows an attempt to delete a session, given how many
/// attempts failed before it and whether it succeeded.
pub fn next_delete_step(failures: u32, deleted: bool) -> (step: DeleteStep)
    ensures
        step == delete_step_of(failures, deleted),
{
    if deleted {
        DeleteStep::Done
    } else if failures < MAX_DELETE_TRIES - 1 {
        DeleteStep::RetryAfterDelay
    } else {
        DeleteStep::FailAfterDelay
    }
}

} // verus!
