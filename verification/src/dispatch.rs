//! Top-level dispatch: which part of the server an inbound request is
//! for.

use vstd::prelude::*;
use vstd::slice::*;
use vstd::string::*;
use crate::reply::{plain_reply, Reply, ReplyView};
use crate::text::{ascii, ascii_bytes, has_prefix, same_bytes, starts_with};

verus! {

/// The part of the server that an inbound request is for.
#[derive(Clone, Copy, Debug, PartialEq, Eq)]
pub enum Route<'a> {
    /// A peer opens its tunnel connection.
    Tunnel,
    /// A request to be relayed; what follows the prefix in the path names
    /// the identifier.
    Relay(&'a [u8]),
    /// The start of a login.
    OauthLogin,
    /// The return from the login provider.
    OauthCallback,
    /// The end of a session.
    OauthLogout,
    /// Anything else is a request for a static asset.
    Asset,
}

/// Mathematical value of a [`Route`].
pub enum RouteView {
    Tunnel,
    Relay(Seq<u8>),
    OauthLogin,
    OauthCallback,
    OauthLogout,
    Asset,
}

impl View for Route<'_> {
    type V = RouteView;

    open spec fn view(&self) -> RouteView {
        match self {
            Route::Tunnel => RouteView::Tunnel,
            Route::Relay(segment) => RouteView::Relay(segment@),
            Route::OauthLogin => RouteView::OauthLogin,
            Route::OauthCallback => RouteView::OauthCallback,
            Route::OauthLogout => RouteView::OauthLogout,
            Route::Asset => RouteView::Asset,
        }
    }
}

/// The path at which a peer opens its tunnel connection.
pub open spec fn tunnel_path() -> Seq<u8> {
    ascii("/ws"@)
}

/// The prefix of the relay path; the identifier follows it.
pub open spec fn relay_prefix() -> Seq<u8> {
    ascii("/r"@)
}

/// The dispatch rule. The tunnel path counts only for a request that asks
/// for the duplex upgrade; every path that begins with the relay prefix
/// is a relay request, whatever follows.
pub open spec fn route_of(path: Seq<u8>, upgrade: bool) -> RouteView {
    if path == tunnel_path() && upgrade {
        RouteView::Tunnel
    } else if has_prefix(path, relay_prefix()) {
        RouteView::Relay(path.skip(2))
    } else if path == ascii("/oauth/login"@) {
        RouteView::OauthLogin
    } else if path == ascii("/oauth/callback"@) {
        RouteView::OauthCallback
    } else if path == ascii("/oauth/logout"@) {
        RouteView::OauthLogout
    } else {
        RouteView::Asset
    }
}

/// Decides which part of the server the request for `path` is for.
/// `upgrade` says whether the request asks for the duplex upgrade.
pub fn handler<'a>(path: &'a [u8], upgrade: bool) -> (route: Route<'a>)
    ensures
        route@ == route_of(path@, upgrade),
{
    proof {
        reveal_strlit("/ws");
        reveal_strlit("/r");
        reveal_strlit("/oauth/login");
        reveal_strlit("/oauth/callback");
        reveal_strlit("/oauth/logout");
    }
    if upgrade && same_bytes(path, ascii_bytes("/ws")) {
        Route::Tunnel
    } else if starts_with(path, ascii_bytes("/r")) {
        let segment = slice_subrange(path, 2, path.len());
        assert(segment@ == path@.skip(2));
        Route::Relay(segment)
    } else if same_bytes(path, ascii_bytes("/oauth/login")) {
        Route::OauthLogin
    } else if same_bytes(path, ascii_bytes("/oauth/callback")) {
        Route::OauthCallback
    } else if same_bytes(path, ascii_bytes("/oauth/logout")) {
        Route::OauthLogout
    } else {
        Route::Asset
    }
}

/// The answer to a request whose handling failed. Only a server in
/// development says what went wrong.
pub open spec fn error_reply_of(development: bool, detail: Seq<char>) -> ReplyView {
    if development {
        plain_reply(500, "Error: "@ + detail)
    } else {
        plain_reply(500, "Internal Server Error"@)
    }
}

/// Answers a request whose handling failed with `detail`.
pub fn error_reply(development: bool, detail: &str) -> (reply: Reply)
    ensures
        reply@ == error_reply_of(development, detail@),
{
    if development {
        let body = String::from_str("Error: ").concat(detail);
        Reply::plain(500, body.as_str())
    } else {
        Reply::plain(500, "Internal Server Error")
    }
}

} // verus!
