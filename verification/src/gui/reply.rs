//! Answers to the browser.

use vstd::prelude::*;

verus! {

/// A header line of an answer.
#[derive(Debug)]
pub struct Header {
    pub name: String,
    pub value: String,
}

/// An answer.
#[derive(Debug)]
pub struct Reply {
    pub status: u16,
    pub headers: Vec<Header>,
    pub body: String,
}

/// What an answer says.
pub struct ReplyView {
    pub status: u16,
    pub headers: Seq<(Seq<char>, Seq<char>)>,
    pub body: Seq<char>,
}

impl View for Reply {
    type V = ReplyView;

    open spec fn view(&self) -> ReplyView {
        ReplyView {
            status: self.status,
            headers: self.headers@.map_values(|h: Header| (h.name@, h.value@)),
            body: self.body@,
        }
    }
}

/// An answer in plain text.
pub open spec fn text_reply(status: u16, body: Seq<char>) -> ReplyView {
    typed_reply(status, "text/plain; charset=utf-8"@, body)
}

/// An answer whose body has the given content type.
pub open spec fn typed_reply(status: u16, content_type: Seq<char>, body: Seq<char>) -> ReplyView {
    ReplyView { status, headers: seq![("content-type"@, content_type)], body }
}

impl Reply {
    /// An answer without headers.
    pub fn bare(status: u16, body: String) -> (reply: Reply)
        ensures
            reply@ == (ReplyView { status, headers: Seq::empty(), body: body@ }),
    {
        let reply = Reply { status, headers: Vec::new(), body };
        assert(reply@.headers =~= Seq::empty());
        reply
    }

    /// The answer with one more header.
    pub fn with_header(self, name: &str, value: String) -> (reply: Reply)
        ensures
            reply@ == (ReplyView { headers: self@.headers.push((name@, value@)), ..self@ }),
    {
        let Reply { status, headers, body } = self;
        let mut headers = headers;
        headers.push(Header { name: name.to_string(), value });
        let reply = Reply { status, headers, body };
        assert(reply@.headers =~= self@.headers.push((name@, value@)));
        reply
    }

    /// An answer whose body has the given content type.
    pub fn typed(status: u16, content_type: &str, body: String) -> (reply: Reply)
        ensures
            reply@ == typed_reply(status, content_type@, body@),
    {
        let reply = Reply::bare(status, body).with_header("content-type", content_type.to_string());
        reply
    }

    /// An answer in plain text.
    pub fn text(status: u16, body: String) -> (reply: Reply)
        ensures
            reply@ == text_reply(status, body@),
    {
        Reply::typed(status, "text/plain; charset=utf-8", body)
    }
}

/// The view of an answer leaves nothing out: its status, its header lines in their order, each with
/// name and value, and its body.
pub proof fn law_view_shows_the_whole_answer(reply: Reply)
    ensures
        reply@.status == reply.status,
        reply@.headers.len() == reply.headers@.len(),
        forall|i: int| #![trigger reply.headers@[i]]
            0 <= i < reply.headers@.len() ==> reply@.headers[i].0 == reply.headers@[i].name@
                && reply@.headers[i].1 == reply.headers@[i].value@,
        reply@.body == reply.body@,
{
}

/// An answer with a content type has that one header line, and the status and the body that it was
/// given; in plain text the content type says so.
pub proof fn law_content_type_is_the_only_header(
    status: u16,
    content_type: Seq<char>,
    body: Seq<char>,
)
    ensures
        typed_reply(status, content_type, body).status == status,
        typed_reply(status, content_type, body).headers == seq![("content-type"@, content_type)],
        typed_reply(status, content_type, body).body == body,
        text_reply(status, body).status == status,
        text_reply(status, body).headers == seq![
            ("content-type"@, "text/plain; charset=utf-8"@),
        ],
        text_reply(status, body).body == body,
{
}

} // verus!
