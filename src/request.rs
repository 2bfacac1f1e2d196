//! The description of one outbound request, handed to the transport.
use vstd::prelude::*;

use crate::pairs::{entries_view, set_entry, set_pair, unique_keys};
use crate::text::push_char;

verus! {

/// The HTTP method of a request.
#[derive(Debug, Clone, Copy, PartialEq, Eq, Structural)]
pub enum Verb {
    Head,
    Get,
    Put,
    Post,
    Patch,
    Delete,
}

/// The value of one field of a JSON or form body.
#[derive(Debug, Clone, PartialEq, Eq)]
pub enum BodyValue {
    /// A string.
    Text(String),
    /// Raw JSON text, already checked to parse.
    Json(String),
}

/// What a [`BodyValue`] holds.
pub enum BodyValueModel {
    Text(Seq<char>),
    Json(Seq<char>),
}

impl View for BodyValue {
    type V = BodyValueModel;

    open spec fn view(&self) -> BodyValueModel {
        match self {
            BodyValue::Text(s) => BodyValueModel::Text(s@),
            BodyValue::Json(s) => BodyValueModel::Json(s@),
        }
    }
}

/// One part of a multipart body.
#[derive(Debug, Clone, PartialEq, Eq)]
pub enum Part {
    /// A text field.
    Text { key: String, value: String },
    /// A file upload: the file's path and what was read from it.
    File { key: String, path: String, contents: Vec<u8> },
}

/// What was read from the file that a parameter names.
#[derive(Debug, Clone, PartialEq, Eq)]
pub enum FileInput {
    /// The parameter names no file, or its file could not be read.
    Unread,
    /// The text of a `=@` or `:=@` file.
    Text(String),
    /// The bytes of a `@` upload.
    Bytes(Vec<u8>),
}

/// What a [`FileInput`] holds.
pub enum FileInputModel {
    Unread,
    Text(Seq<char>),
    Bytes(Seq<u8>),
}

impl FileInput {
    /// What the input holds.
    pub open spec fn view(&self) -> FileInputModel {
        match self {
            FileInput::Unread => FileInputModel::Unread,
            FileInput::Text(s) => FileInputModel::Text(s@),
            FileInput::Bytes(b) => FileInputModel::Bytes(b@),
        }
    }
}

/// The body of a request and its encoding.
#[derive(Debug, Clone, PartialEq, Eq)]
pub enum Body {
    /// No body.
    Empty,
    /// A JSON object of the fields, in order.
    Json(Vec<(String, BodyValue)>),
    /// A form-encoded body of the fields, in order.
    Form(Vec<(String, BodyValue)>),
    /// A multipart body of the parts, in order.
    Multipart(Vec<Part>),
}

/// Basic authentication credentials.
#[derive(Debug, Clone, PartialEq, Eq)]
pub enum Credentials {
    /// A user name and, where one was given, a password.
    Basic { username: String, password: Option<String> },
    /// A user name whose password is still to be asked for.
    Prompt { username: String },
}

/// What a [`Part`] holds.
pub enum PartModel {
    Text { key: Seq<char>, value: Seq<char> },
    File { key: Seq<char>, path: Seq<char>, contents: Seq<u8> },
}

impl Part {
    /// What the part holds.
    pub open spec fn view(&self) -> PartModel {
        match self {
            Part::Text { key, value } => PartModel::Text { key: key@, value: value@ },
            Part::File { key, path, contents } => PartModel::File {
                key: key@,
                path: path@,
                contents: contents@,
            },
        }
    }
}

/// The parts of a multipart body, in order.
pub open spec fn parts_view(ps: Seq<Part>) -> Seq<PartModel> {
    ps.map_values(|p: Part| p.view())
}

/// What a [`Body`] holds.
pub enum BodyModel {
    Empty,
    Json(Seq<(Seq<char>, BodyValueModel)>),
    Form(Seq<(Seq<char>, BodyValueModel)>),
    Multipart(Seq<PartModel>),
}

impl Body {
    /// What the body holds.
    pub open spec fn view(&self) -> BodyModel {
        match self {
            Body::Empty => BodyModel::Empty,
            Body::Json(fields) => BodyModel::Json(entries_view(fields@)),
            Body::Form(fields) => BodyModel::Form(entries_view(fields@)),
            Body::Multipart(parts) => BodyModel::Multipart(parts_view(parts@)),
        }
    }
}

/// One outbound request.
#[derive(Debug, Clone, PartialEq, Eq)]
pub struct RequestSpec {
    pub verb: Verb,
    pub url: String,
    /// The headers, one per name; a later setting of a name replaces the value.
    pub headers: Vec<(String, String)>,
    /// The query pairs, in order; a key may repeat.
    pub query: Vec<(String, String)>,
    pub body: Body,
    pub basic_auth: Option<Credentials>,
    pub bearer_token: Option<String>,
}

impl RequestSpec {
    /// Well formed: no header name occurs twice.
    pub open spec fn wf(&self) -> bool {
        unique_keys(entries_view(self.headers@))
    }

    /// The headers by name, in order.
    pub open spec fn header_view(&self) -> Seq<(Seq<char>, Seq<char>)> {
        entries_view(self.headers@)
    }

    /// A request with the method and URL and nothing else.
    pub fn new(verb: Verb, url: String) -> (r: RequestSpec)
        ensures
            r.wf(),
            r.verb == verb,
            r.url == url,
            r.headers@.len() == 0,
            r.query@.len() == 0,
            r.body == Body::Empty,
            r.basic_auth is None,
            r.bearer_token is None,
    {
        let r = RequestSpec {
            verb,
            url,
            headers: Vec::new(),
            query: Vec::new(),
            body: Body::Empty,
            basic_auth: None,
            bearer_token: None,
        };
        proof {
            assert(entries_view(r.headers@) =~= Seq::<(Seq<char>, Seq<char>)>::empty());
        }
        r
    }

    /// Sets the header `name` to `value`, replacing an earlier value.
    pub fn set_header(&mut self, name: String, value: String)
        requires
            old(self).wf(),
        ensures
            final(self).wf(),
            final(self).header_view() == set_pair(old(self).header_view(), name@, value@),
            final(self).verb == old(self).verb,
            final(self).url == old(self).url,
            final(self).query == old(self).query,
            final(self).body == old(self).body,
            final(self).basic_auth == old(self).basic_auth,
            final(self).bearer_token == old(self).bearer_token,
    {
        set_entry(&mut self.headers, name, value);
    }
}

/// One cookie as it stands in a `Cookie` header: `name=value`.
pub open spec fn cookie_pair(c: (Seq<char>, Seq<char>)) -> Seq<char> {
    c.0 + seq!['='] + c.1
}

/// The cookies joined into one `Cookie` header value: `a=1; b=2`.
pub open spec fn cookie_line(cs: Seq<(Seq<char>, Seq<char>)>) -> Seq<char>
    decreases cs.len(),
{
    if cs.len() == 0 {
        seq![]
    } else if cs.len() == 1 {
        cookie_pair(cs[0])
    } else {
        cookie_line(cs.drop_last()) + seq![';', ' '] + cookie_pair(cs.last())
    }
}

/// The value of the `Cookie` header for `cookies`, in order.
pub fn cookie_header(cookies: &Vec<(String, String)>) -> (r: String)
    ensures
        r@ == cookie_line(entries_view(cookies@)),
{
    let ghost cv = entries_view(cookies@);
    let mut r = String::new();
    let mut i: usize = 0;
    while i < cookies.len()
        invariant
            cv == entries_view(cookies@),
            i <= cookies@.len(),
            r@ == cookie_line(cv.take(i as int)),
        decreases cookies.len() - i,
    {
        proof {
            assert(cv.take(i + 1).drop_last() =~= cv.take(i as int));
        }
        if i > 0 {
            push_char(&mut r, ';');
            push_char(&mut r, ' ');
        }
        r.append(cookies[i].0.as_str());
        push_char(&mut r, '=');
        r.append(cookies[i].1.as_str());
        proof {
            if i == 0 {
                assert(r@ =~= cookie_pair(cv[0]));
            } else {
                assert(r@ =~= cookie_line(cv.take(i as int)) + seq![';', ' '] + cookie_pair(
                    cv[i as int],
                ));
            }
        }
        i = i + 1;
    }
    proof {
        assert(cv.take(cv.len() as int) =~= cv);
    }
    r
}

} // verus!
