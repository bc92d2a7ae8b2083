//! Answers to inbound requests, as plain values.

use vstd::prelude::*;
use vstd::string::*;
use vstd::utf8::*;
use crate::encoder::{Header, HeaderView};

verus! {

/// The answer to an inbound request: a status code, headers in order, and
/// a body.
#[derive(Clone, Debug, PartialEq, Eq)]
pub struct Reply {
    pub status: u16,
    pub headers: Vec<Header>,
    pub body: Vec<u8>,
}

/// Mathematical value of a [`Reply`].
pub struct ReplyView {
    pub status: u16,
    pub headers: Seq<HeaderView>,
    pub body: Seq<u8>,
}

impl View for Reply {
    type V = ReplyView;

    open spec fn view(&self) -> ReplyView {
        ReplyView {
            status: self.status,
            headers: self.headers@.map_values(|h: Header| h@),
            body: self.body@,
        }
    }
}

/// A header whose value is the text given, as UTF-8.
pub open spec fn text_header(name: Seq<char>, value: Seq<char>) -> HeaderView {
    HeaderView { name, value: encode_utf8(value) }
}

/// A reply without headers whose body is the text given, as UTF-8.
pub open spec fn plain_reply(status: u16, body: Seq<char>) -> ReplyView {
    ReplyView { status, headers: Seq::empty(), body: encode_utf8(body) }
}

impl Reply {
    /// A reply without headers whose body is a text.
    pub fn plain(status: u16, body: &str) -> (reply: Reply)
        ensures
            reply@ == plain_reply(status, body@),
    {
        let reply = Reply { status, headers: Vec::new(), body: body.as_bytes_vec() };
        assert(reply@.headers == Seq::<HeaderView>::empty());
        reply
    }

    /// Adds a header, whose value is a text, after those that the reply
    /// has.
    pub fn push_header(&mut self, name: &str, value: &str)
        ensures
            final(self)@ == (ReplyView {
                headers: old(self)@.headers.push(text_header(name@, value@)),
                ..old(self)@
            }),
    {
        let ghost before = self.headers@;
        let header = Header { name: String::from_str(name), value: value.as_bytes_vec() };
        self.headers.push(header);
        assert(self.headers@.map_values(|h: Header| h@) == before.map_values(|h: Header| h@).push(
            header@,
        ));
    }
}

} // verus!
