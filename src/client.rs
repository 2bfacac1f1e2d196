//! Turning an invocation into a request: the URL, the session, the
//! parameters and the credentials.
use vstd::prelude::*;

use crate::app::{App, Method};
use crate::errors::{BuildFailure, Error};
use crate::pairs::{entries_view, set_entry, set_pair, unique_keys};
use crate::parameter::{Parameter, Separator};
use crate::request::{
    Body, BodyModel, BodyValue, BodyValueModel, Credentials, FileInput, FileInputModel, Part,
    PartModel, RequestSpec, Verb, parts_view,
};
use crate::session::{
    opt_view, sticky_headers, updated_credential, with_session_headers, Session, SessionView,
};
use crate::text::chars_of;

verus! {

/// The serialization of `s` as an absolute URL, or `None` when `s` is not one.
pub uninterp spec fn url_parse(s: Seq<char>) -> Option<Seq<char>>;

/// Whether `s` is exactly one JSON value, up to surrounding whitespace.
pub uninterp spec fn is_json(s: Seq<char>) -> bool;

/// Relies on `reqwest::Url::parse` (the `url` crate's parser): it parses `s`
/// as an absolute URL and yields its serialization; the outcome depends on
/// `s` alone.
#[verifier::external_body]
fn parse_absolute_url(s: &str) -> (r: Option<String>)
    ensures
        match r {
            Some(u) => url_parse(s@) == Some(u@),
            None => url_parse(s@) is None,
        },
{
    reqwest::Url::parse(s).ok().map(String::from)
}

/// Relies on `serde_json::from_str::<serde_json::Value>`: it succeeds exactly
/// when `s` is one JSON value; the outcome depends on `s` alone.
#[verifier::external_body]
fn check_json(s: &str) -> (r: bool)
    ensures
        r == is_json(s@),
{
    serde_json::from_str::<serde_json::Value>(s).is_ok()
}

/// The URL a request goes to: `:/path` and `:port...` are shorthands for
/// `http://localhost`; anything else is taken as an absolute URL, or failing
/// that, given the default scheme (`https` when `secure`).
pub open spec fn normalized_url(s: Seq<char>, secure: bool) -> Option<Seq<char>> {
    if s.len() >= 2 && s[0] == ':' && s[1] == '/' {
        url_parse("http://localhost"@ + s.skip(1))
    } else if s.len() >= 1 && s[0] == ':' {
        url_parse("http://localhost"@ + s)
    } else if url_parse(s) is Some {
        url_parse(s)
    } else if secure {
        url_parse("https://"@ + s)
    } else {
        url_parse("http://"@ + s)
    }
}

/// Parses the URL of a request, with the shorthands of `normalized_url`.
pub fn parse(app: &App, s: &str) -> (r: Result<String, Error>)
    ensures
        match normalized_url(s@, app.secure) {
            Some(u) => r is Ok && r->Ok_0@ == u,
            None => r == Err::<String, Error>(Error::UrlParseError),
        },
{
    let n = s.unicode_len();
    let candidate = if n >= 2 && s.get_char(0) == ':' && s.get_char(1) == '/' {
        let mut c = "http://localhost".to_owned();
        c.append(s.substring_char(1, n));
        c
    } else if n >= 1 && s.get_char(0) == ':' {
        let mut c = "http://localhost".to_owned();
        c.append(s);
        c
    } else {
        match parse_absolute_url(s) {
            Some(u) => {
                return Ok(u);
            },
            None => {},
        }
        let mut c = if app.secure {
            "https://".to_owned()
        } else {
            "http://".to_owned()
        };
        c.append(s);
        c
    };
    proof {
        assert(s@.subrange(1, n as int) =~= s@.skip(1));
    }
    match parse_absolute_url(candidate.as_str()) {
        Some(u) => Ok(u),
        None => Err(Error::UrlParseError),
    }
}

/// The position of the first `c` in `s`, if any.
pub open spec fn first_index_of(s: Seq<char>, c: char) -> Option<int> {
    if exists|i: int| 0 <= i < s.len() && s[i] == c {
        Some(choose|i: int| 0 <= i < s.len() && s[i] == c && forall|j: int| 0 <= j < i ==> s[j] != c)
    } else {
        None
    }
}

/// How an authentication string reads: `user:pass` splits at the first `:`,
/// and everything after it is the password; an empty password means none;
/// with no colon at all the password is to be asked for.
pub enum AuthModel {
    Basic { username: Seq<char>, password: Option<Seq<char>> },
    Prompt { username: Seq<char> },
}

/// What `parse_auth` makes of `s`.
pub open spec fn auth_of(s: Seq<char>) -> AuthModel {
    match first_index_of(s, ':') {
        Some(i) => {
            let password = s.skip(i + 1);
            AuthModel::Basic {
                username: s.take(i),
                password: if password.len() == 0 {
                    None
                } else {
                    Some(password)
                },
            }
        },
        None => AuthModel::Prompt { username: s },
    }
}

impl Credentials {
    /// What the credentials hold.
    pub open spec fn view(&self) -> AuthModel {
        match self {
            Credentials::Basic { username, password } => AuthModel::Basic {
                username: username@,
                password: match password {
                    Some(p) => Some(p@),
                    None => None,
                },
            },
            Credentials::Prompt { username } => AuthModel::Prompt { username: username@ },
        }
    }
}

/// Reads a basic authentication string.
pub fn parse_auth(s: &str) -> (r: Credentials)
    ensures
        r.view() == auth_of(s@),
{
    let cs = chars_of(s);
    let mut i: usize = 0;
    while i < cs.len() && cs[i] != ':'
        invariant
            cs@ == s@,
            i <= cs@.len(),
            forall|j: int| 0 <= j < i ==> cs@[j] != ':',
        decreases cs.len() - i,
    {
        i = i + 1;
    }
    if i == cs.len() {
        proof {
            assert(!(exists|j: int| 0 <= j < s@.len() && s@[j] == ':'));
        }
        return Credentials::Prompt { username: s.to_owned() };
    }
    proof {
        assert(cs@[i as int] == ':');
        let k = choose|k: int|
            0 <= k < s@.len() && s@[k] == ':' && forall|j: int| 0 <= j < k ==> s@[j] != ':';
        assert(k == i);
    }
    let username = s.substring_char(0, i).to_owned();
    let password = s.substring_char(i + 1, cs.len());
    proof {
        assert(s@.subrange(i + 1, s@.len() as int) =~= s@.skip(i + 1));
        assert(s@.subrange(0, i as int) =~= s@.take(i as int));
    }
    if password.is_empty() {
        Credentials::Basic { username, password: None }
    } else {
        Credentials::Basic { username, password: Some(password.to_owned()) }
    }
}

impl Method {
    /// The HTTP method of this subcommand.
    pub open spec fn verb_of(self) -> Verb {
        match self {
            Method::HEAD(_) => Verb::Head,
            Method::GET(_) => Verb::Get,
            Method::PUT(_) => Verb::Put,
            Method::POST(_) => Verb::Post,
            Method::PATCH(_) => Verb::Patch,
            Method::DELETE(_) => Verb::Delete,
        }
    }

    /// The HTTP method of this subcommand.
    pub fn verb(&self) -> (r: Verb)
        ensures
            r == self.verb_of(),
    {
        match self {
            Method::HEAD(_) => Verb::Head,
            Method::GET(_) => Verb::Get,
            Method::PUT(_) => Verb::Put,
            Method::POST(_) => Verb::Post,
            Method::PATCH(_) => Verb::Patch,
            Method::DELETE(_) => Verb::Delete,
        }
    }
}

/// What was read from the files that parameters name, one entry per
/// parameter.
pub open spec fn files_view(files: Seq<FileInput>) -> Seq<FileInputModel> {
    files.map_values(|f: FileInput| f.view())
}

/// What the parameters have built so far.
pub struct BuildState {
    pub headers: Seq<(Seq<char>, Seq<char>)>,
    pub query: Seq<(Seq<char>, Seq<char>)>,
    /// The fields of a JSON or form body, one per key.
    pub data: Seq<(Seq<char>, BodyValueModel)>,
    /// The parts of a multipart body.
    pub parts: Seq<PartModel>,
}

/// The JSON text that a parameter brings: the value of `:=`, the file's
/// text for `:=@`; empty for the others.
pub open spec fn json_text(p: Parameter, file: FileInputModel) -> Seq<char> {
    match p.kind() {
        Separator::ColonEqual => p.value_view(),
        Separator::Snail => match file {
            FileInputModel::Text(c) => c,
            _ => seq![],
        },
        _ => seq![],
    }
}

/// A body entry added: a text part of a multipart request, else a field.
pub open spec fn add_entry(
    st: BuildState,
    k: Seq<char>,
    v: BodyValueModel,
    multipart: bool,
) -> BuildState {
    if multipart {
        let text = match v {
            BodyValueModel::Text(c) => c,
            BodyValueModel::Json(c) => c,
        };
        BuildState { parts: st.parts.push(PartModel::Text { key: k, value: text }), ..st }
    } else {
        BuildState { data: set_pair(st.data, k, v), ..st }
    }
}

/// One parameter applied, where `json_ok` tells whether its JSON text
/// parses: headers are set and query pairs appended; `=`, `=@`, `:=` and
/// `:=@` add a body entry (the value, the file's text, or the JSON text,
/// which must parse), which in a multipart request is a text part; `@` adds
/// a file part. A file that could not be read fails with its path.
pub open spec fn param_step_given(
    st: BuildState,
    p: Parameter,
    file: FileInputModel,
    multipart: bool,
    json_ok: bool,
) -> Result<BuildState, BuildFailure> {
    let k = p.key_view();
    let v = p.value_view();
    match p.kind() {
        Separator::Colon => Ok(BuildState { headers: set_pair(st.headers, k, v), ..st }),
        Separator::EqualEqual => Ok(BuildState { query: st.query.push((k, v)), ..st }),
        Separator::Equal => Ok(add_entry(st, k, BodyValueModel::Text(v), multipart)),
        Separator::ColonEqual => if json_ok {
            Ok(add_entry(st, k, BodyValueModel::Json(v), multipart))
        } else {
            Err(BuildFailure::Json)
        },
        Separator::Snail => match file {
            FileInputModel::Text(c) => if json_ok {
                Ok(add_entry(st, k, BodyValueModel::Json(c), multipart))
            } else {
                Err(BuildFailure::Json)
            },
            _ => Err(BuildFailure::Io(v)),
        },
        Separator::EqualAt => match file {
            FileInputModel::Text(c) => Ok(add_entry(st, k, BodyValueModel::Text(c), multipart)),
            _ => Err(BuildFailure::Io(v)),
        },
        Separator::At => match file {
            FileInputModel::Bytes(b) => Ok(
                BuildState {
                    parts: st.parts.push(PartModel::File { key: k, path: v, contents: b }),
                    ..st
                },
            ),
            _ => Err(BuildFailure::Io(v)),
        },
    }
}

/// One parameter applied, its JSON text checked by the JSON parser.
pub open spec fn param_step(
    st: BuildState,
    p: Parameter,
    file: FileInputModel,
    multipart: bool,
) -> Result<BuildState, BuildFailure> {
    param_step_given(st, p, file, multipart, is_json(json_text(p, file)))
}

/// What a request, its body fields and its parts hold so far.
pub open spec fn state_of(request: RequestSpec, data: Seq<(String, BodyValue)>, parts: Seq<Part>) -> BuildState {
    BuildState {
        headers: request.header_view(),
        query: entries_view(request.query@),
        data: entries_view(data),
        parts: parts_view(parts),
    }
}

/// Adds a body entry: a text part in a multipart request, else a field.
fn push_entry(
    data: &mut Vec<(String, BodyValue)>,
    parts: &mut Vec<Part>,
    key: String,
    value: BodyValue,
    is_multipart: bool,
)
    requires
        unique_keys(entries_view(old(data)@)),
    ensures
        unique_keys(entries_view(final(data)@)),
        ({
            let st = BuildState {
                headers: seq![],
                query: seq![],
                data: entries_view(old(data)@),
                parts: parts_view(old(parts)@),
            };
            let st2 = add_entry(st, key@, value@, is_multipart);
            entries_view(final(data)@) == st2.data && parts_view(final(parts)@) == st2.parts
        }),
{
    if is_multipart {
        let ghost p0 = parts@;
        let text = match value {
            BodyValue::Text(c) => c,
            BodyValue::Json(c) => c,
        };
        let ghost tv = text@;
        parts.push(Part::Text { key, value: text });
        proof {
            assert(parts_view(parts@) =~= parts_view(p0).push(
                PartModel::Text { key: key@, value: tv },
            ));
        }
    } else {
        set_entry(data, key, value);
    }
}

/// Applies one parameter to the request and to the body fields and parts
/// gathered so far; `json_ok` tells whether the parameter's JSON text parses.
pub fn apply_parameter(
    request: &mut RequestSpec,
    data: &mut Vec<(String, BodyValue)>,
    parts: &mut Vec<Part>,
    parameter: &Parameter,
    file: &FileInput,
    is_multipart: bool,
    json_ok: bool,
) -> (r: Result<(), Error>)
    requires
        old(request).wf(),
        unique_keys(entries_view(old(data)@)),
    ensures
        final(request).wf(),
        unique_keys(entries_view(final(data)@)),
        final(request).verb == old(request).verb,
        final(request).url == old(request).url,
        final(request).body == old(request).body,
        final(request).basic_auth == old(request).basic_auth,
        final(request).bearer_token == old(request).bearer_token,
        match param_step_given(
            state_of(*old(request), old(data)@, old(parts)@),
            *parameter,
            file.view(),
            is_multipart,
            json_ok,
        ) {
            Err(f) => r is Err && r->Err_0.reports(f),
            Ok(st) => r is Ok && state_of(*final(request), final(data)@, final(parts)@) == st,
        },
{
    let ghost q0 = request.query@;
    let ghost p0 = parts@;
    match parameter {
        Parameter::Header { key, value } => {
            request.set_header(key.clone(), value.clone());
        },
        Parameter::Data { key, value } => {
            push_entry(data, parts, key.clone(), BodyValue::Text(value.clone()), is_multipart);
        },
        Parameter::Query { key, value } => {
            request.query.push((key.clone(), value.clone()));
            proof {
                assert(entries_view(request.query@) =~= entries_view(q0).push((key@, value@)));
            }
        },
        Parameter::RawJsonData { key, value } => {
            if !json_ok {
                return Err(Error::SerdeJson);
            }
            push_entry(data, parts, key.clone(), BodyValue::Json(value.clone()), is_multipart);
        },
        Parameter::RawJsonDataFile { key, value } => {
            match file {
                FileInput::Text(contents) => {
                    if !json_ok {
                        return Err(Error::SerdeJson);
                    }
                    push_entry(
                        data,
                        parts,
                        key.clone(),
                        BodyValue::Json(contents.clone()),
                        is_multipart,
                    );
                },
                _ => {
                    return Err(Error::IO(value.clone()));
                },
            }
        },
        Parameter::DataFile { key, value } => {
            match file {
                FileInput::Text(contents) => {
                    push_entry(
                        data,
                        parts,
                        key.clone(),
                        BodyValue::Text(contents.clone()),
                        is_multipart,
                    );
                },
                _ => {
                    return Err(Error::IO(value.clone()));
                },
            }
        },
        Parameter::FormFile { key, value } => {
            match file {
                FileInput::Bytes(contents) => {
                    parts.push(
                        Part::File { key: key.clone(), path: value.clone(), contents: contents.clone() },
                    );
                    proof {
                        assert(parts_view(parts@) =~= parts_view(p0).push(
                            PartModel::File { key: key@, path: value@, contents: contents@ },
                        ));
                    }
                },
                _ => {
                    return Err(Error::IO(value.clone()));
                },
            }
        },
    }
    Ok(())
}

/// Whether the JSON text of a parameter parses; true for parameters that
/// bring none.
fn json_text_parses(parameter: &Parameter, file: &FileInput) -> (r: bool)
    ensures
        (parameter.kind() == Separator::ColonEqual || (parameter.kind() == Separator::Snail
            && file.view() is Text)) ==> r == is_json(json_text(*parameter, file.view())),
{
    match parameter {
        Parameter::RawJsonData { value, .. } => check_json(value.as_str()),
        Parameter::RawJsonDataFile { .. } => match file {
            FileInput::Text(contents) => check_json(contents.as_str()),
            _ => true,
        },
        _ => true,
    }
}

/// The parameters applied in order; the first failure ends it.
pub open spec fn apply_params(
    st: BuildState,
    ps: Seq<Parameter>,
    files: Seq<FileInputModel>,
    multipart: bool,
) -> Result<BuildState, BuildFailure>
    decreases ps.len(),
{
    if ps.len() == 0 {
        Ok(st)
    } else {
        match apply_params(st, ps.drop_last(), files, multipart) {
            Err(f) => Err(f),
            Ok(st2) => param_step(st2, ps.last(), files[ps.len() - 1], multipart),
        }
    }
}

/// The body that the built state encodes: multipart when there are file
/// uploads, else the data fields as a form or as JSON, else none.
pub open spec fn body_of(st: BuildState, form: bool, multipart: bool) -> BodyModel {
    if multipart {
        BodyModel::Multipart(st.parts)
    } else if st.data.len() == 0 {
        BodyModel::Empty
    } else if form {
        BodyModel::Form(st.data)
    } else {
        BodyModel::Json(st.data)
    }
}

/// Once applying a prefix of the parameters fails, applying them all fails
/// the same way.
proof fn lemma_failure_stays(
    st: BuildState,
    ps: Seq<Parameter>,
    files: Seq<FileInputModel>,
    multipart: bool,
    k: int,
)
    requires
        0 <= k <= ps.len(),
        apply_params(st, ps.take(k), files, multipart) is Err,
    ensures
        apply_params(st, ps, files, multipart) == apply_params(st, ps.take(k), files, multipart),
    decreases ps.len() - k,
{
    if k < ps.len() {
        assert(ps.take(k + 1).drop_last() =~= ps.take(k));
        lemma_failure_stays(st, ps, files, multipart, k + 1);
    } else {
        assert(ps.take(k) =~= ps);
    }
}

/// Whether any parameter is a file upload.
pub open spec fn has_form_file(ps: Seq<Parameter>) -> bool {
    exists|i: int| 0 <= i < ps.len() && ps[i].kind() == Separator::At
}

/// Whether any parameter is a file upload.
pub fn any_form_file(parameters: &Vec<Parameter>) -> (r: bool)
    ensures
        r == has_form_file(parameters@),
{
    let mut i: usize = 0;
    while i < parameters.len()
        invariant
            i <= parameters@.len(),
            forall|j: int| 0 <= j < i ==> parameters@[j].kind() != Separator::At,
        decreases parameters.len() - i,
    {
        if parameters[i].is_form_file() {
            return true;
        }
        i = i + 1;
    }
    false
}

/// Applies the parameters to the request: headers and query pairs go on the
/// request, the rest makes up its body.
pub fn handle_parameters(
    request: &mut RequestSpec,
    is_form: bool,
    is_multipart: bool,
    parameters: &Vec<Parameter>,
    files: &Vec<FileInput>,
) -> (r: Result<(), Error>)
    requires
        old(request).wf(),
        files@.len() == parameters@.len(),
    ensures
        match apply_params(
            BuildState {
                headers: old(request).header_view(),
                query: entries_view(old(request).query@),
                data: seq![],
                parts: seq![],
            },
            parameters@,
            files_view(files@),
            is_multipart,
        ) {
            Err(f) => r is Err && r->Err_0.reports(f),
            Ok(st) => {
                &&& r is Ok
                &&& final(request).wf()
                &&& final(request).header_view() == st.headers
                &&& entries_view(final(request).query@) == st.query
                &&& final(request).body.view() == body_of(st, is_form, is_multipart)
                &&& final(request).verb == old(request).verb
                &&& final(request).url == old(request).url
                &&& final(request).basic_auth == old(request).basic_auth
                &&& final(request).bearer_token == old(request).bearer_token
            },
        },
{
    let ghost st0 = BuildState {
        headers: request.header_view(),
        query: entries_view(request.query@),
        data: seq![],
        parts: seq![],
    };
    let ghost fv = files_view(files@);
    let mut data: Vec<(String, BodyValue)> = Vec::new();
    let mut parts: Vec<Part> = Vec::new();
    proof {
        assert(entries_view(data@) =~= Seq::<(Seq<char>, BodyValueModel)>::empty());
        assert(parts_view(parts@) =~= Seq::<PartModel>::empty());
    }
    let mut i: usize = 0;
    while i < parameters.len()
        invariant
            st0 == (BuildState {
                headers: old(request).header_view(),
                query: entries_view(old(request).query@),
                data: seq![],
                parts: seq![],
            }),
            fv == files_view(files@),
            files@.len() == parameters@.len(),
            i <= parameters@.len(),
            request.wf(),
            unique_keys(entries_view(data@)),
            request.verb == old(request).verb,
            request.url == old(request).url,
            request.body == old(request).body,
            request.basic_auth == old(request).basic_auth,
            request.bearer_token == old(request).bearer_token,
            apply_params(st0, parameters@.take(i as int), fv, is_multipart) == Ok::<
                BuildState,
                BuildFailure,
            >(
                BuildState {
                    headers: request.header_view(),
                    query: entries_view(request.query@),
                    data: entries_view(data@),
                    parts: parts_view(parts@),
                },
            ),
        decreases parameters.len() - i,
    {
        proof {
            assert(parameters@.take(i + 1).drop_last() =~= parameters@.take(i as int));
            assert(parameters@.take(i + 1).last() == parameters@[i as int]);
            assert(fv[i as int] == files@[i as int].view());
        }
        let json_ok = json_text_parses(&parameters[i], &files[i]);
        let ghost st = state_of(*request, data@, parts@);
        proof {
            assert(param_step_given(st, parameters@[i as int], fv[i as int], is_multipart, json_ok)
                == param_step(st, parameters@[i as int], fv[i as int], is_multipart));
        }
        match apply_parameter(
            request,
            &mut data,
            &mut parts,
            &parameters[i],
            &files[i],
            is_multipart,
            json_ok,
        ) {
            Ok(()) => {},
            Err(e) => {
                proof {
                    lemma_failure_stays(st0, parameters@, fv, is_multipart, i + 1);
                }
                return Err(e);
            },
        }
        i = i + 1;
    }
    proof {
        assert(parameters@.take(parameters@.len() as int) =~= parameters@);
    }
    if is_multipart {
        request.body = Body::Multipart(parts);
    } else if data.len() > 0 {
        if is_form {
            request.body = Body::Form(data);
        } else {
            request.body = Body::Json(data);
        }
    } else {
        request.body = Body::Empty;
    }
    Ok(())
}

/// The verb used when no method subcommand is given: `POST` when any
/// parameter goes into the body, else `GET`.
pub open spec fn default_verb_of(ps: Seq<Parameter>) -> Verb {
    if exists|i: int| 0 <= i < ps.len() && ps[i].kind() != Separator::Colon && ps[i].kind()
        != Separator::EqualEqual {
        Verb::Post
    } else {
        Verb::Get
    }
}

/// The verb used when no method subcommand is given.
pub fn default_verb(parameters: &Vec<Parameter>) -> (r: Verb)
    ensures
        r == default_verb_of(parameters@),
{
    let mut i: usize = 0;
    while i < parameters.len()
        invariant
            i <= parameters@.len(),
            forall|j: int|
                0 <= j < i ==> !(parameters@[j].kind() != Separator::Colon && parameters@[j].kind()
                    != Separator::EqualEqual),
        decreases parameters.len() - i,
    {
        if parameters[i].is_data() {
            return Verb::Post;
        }
        i = i + 1;
    }
    Verb::Get
}

/// The view of an optional session.
pub open spec fn session_view(s: Option<Session>) -> Option<SessionView> {
    match s {
        Some(t) => Some(t@),
        None => None,
    }
}

/// A session after a request that it took part in: unless the invocation is
/// read-only, it keeps the request's lasting headers and its credentials.
pub open spec fn session_after(s: SessionView, app: App, ps: Seq<Parameter>) -> SessionView {
    if app.read_only {
        s
    } else {
        SessionView {
            headers: sticky_headers(s.headers, ps),
            auth: updated_credential(s.auth, opt_view(app.auth)),
            token: updated_credential(s.token, opt_view(app.token)),
            ..s
        }
    }
}

/// The headers a request starts with: those of the session, if any.
pub open spec fn session_headers(s: Option<SessionView>) -> Seq<(Seq<char>, Seq<char>)> {
    match s {
        Some(v) => with_session_headers(seq![], v),
        None => seq![],
    }
}

/// What the parameters make of a request that starts from the session's
/// headers.
pub open spec fn built_state(
    s: Option<SessionView>,
    ps: Seq<Parameter>,
    files: Seq<FileInputModel>,
) -> Result<BuildState, BuildFailure> {
    apply_params(
        BuildState { headers: session_headers(s), query: seq![], data: seq![], parts: seq![] },
        ps,
        files,
        has_form_file(ps),
    )
}

/// Whether `r` is the request of `verb` to `url` that the built state `st`
/// and the app's credentials describe.
pub open spec fn is_request_for(
    r: RequestSpec,
    verb: Verb,
    url: Seq<char>,
    st: BuildState,
    app: App,
    multipart: bool,
) -> bool {
    &&& r.wf()
    &&& r.verb == verb
    &&& r.url@ == url
    &&& r.header_view() == st.headers
    &&& entries_view(r.query@) == st.query
    &&& r.body.view() == body_of(st, app.form, multipart)
    &&& match app.auth {
        Some(a) => r.basic_auth is Some && r.basic_auth->0.view() == auth_of(a@),
        None => r.basic_auth is None,
    }
    &&& r.bearer_token == app.token
}

/// Adds the session's headers and cookies to the request and, when asked
/// to, updates the session from this request.
pub fn handle_session(
    request: &mut RequestSpec,
    session: &mut Option<Session>,
    parameters: &Vec<Parameter>,
    update_session: bool,
    auth: &Option<String>,
    token: &Option<String>,
)
    requires
        old(request).wf(),
        *old(session) matches Some(s) ==> s.wf(),
    ensures
        final(request).wf(),
        final(request).header_view() == match session_view(*old(session)) {
            Some(v) => with_session_headers(old(request).header_view(), v),
            None => old(request).header_view(),
        },
        final(request).verb == old(request).verb,
        final(request).url == old(request).url,
        final(request).query == old(request).query,
        final(request).body == old(request).body,
        final(request).basic_auth == old(request).basic_auth,
        final(request).bearer_token == old(request).bearer_token,
        *final(session) matches Some(s) ==> s.wf(),
        session_view(*final(session)) == match session_view(*old(session)) {
            Some(v) => Some(
                if update_session {
                    SessionView {
                        headers: sticky_headers(v.headers, parameters@),
                        auth: updated_credential(v.auth, opt_view(*auth)),
                        token: updated_credential(v.token, opt_view(*token)),
                        ..v
                    }
                } else {
                    v
                },
            ),
            None => None,
        },
{
    if let Some(s) = session {
        s.add_to_request(request);
        if update_session {
            s.update_with_parameters(parameters);
            s.update_auth(auth, token);
        }
    }
}

/// Sets basic authentication and the bearer token, each when given.
pub fn handle_auth(request: &mut RequestSpec, auth: &Option<String>, token: &Option<String>)
    ensures
        match auth {
            Some(a) => final(request).basic_auth is Some && final(request).basic_auth->0.view()
                == auth_of(a@),
            None => final(request).basic_auth == old(request).basic_auth,
        },
        match token {
            Some(t) => final(request).bearer_token == Some(*t),
            None => final(request).bearer_token == old(request).bearer_token,
        },
        final(request).verb == old(request).verb,
        final(request).url == old(request).url,
        final(request).headers == old(request).headers,
        final(request).query == old(request).query,
        final(request).body == old(request).body,
{
    if let Some(a) = auth {
        request.basic_auth = Some(parse_auth(a.as_str()));
    }
    if let Some(t) = token {
        request.bearer_token = Some(t.clone());
    }
}

/// Builds the request of `verb` to `raw_url` with the parameters, the
/// session and the app's flags and credentials. `files` holds, for each
/// parameter, what was read from the file it names (`=@`, `:=@`, `@`).
/// The URL is checked first, then that file uploads come with form mode;
/// only then is the session updated (unless the app is read-only), before
/// the parameters are applied.
pub fn build_request(
    app: &App,
    verb: Verb,
    session: &mut Option<Session>,
    raw_url: &str,
    parameters: &Vec<Parameter>,
    files: &Vec<FileInput>,
) -> (r: Result<RequestSpec, Error>)
    requires
        files@.len() == parameters@.len(),
        *old(session) matches Some(s) ==> s.wf(),
    ensures
        *final(session) matches Some(s) ==> s.wf(),
        match normalized_url(raw_url@, app.secure) {
            None => r == Err::<RequestSpec, Error>(Error::UrlParseError) && *final(session) == *old(
                session,
            ),
            Some(u) => if has_form_file(parameters@) && !app.form {
                r == Err::<RequestSpec, Error>(Error::NotFormButHasFormFile) && *final(session)
                    == *old(session)
            } else {
                &&& session_view(*final(session)) == match session_view(*old(session)) {
                    Some(v) => Some(session_after(v, *app, parameters@)),
                    None => None,
                }
                &&& match built_state(session_view(*old(session)), parameters@, files_view(files@)) {
                    Err(f) => r is Err && r->Err_0.reports(f),
                    Ok(st) => r is Ok && is_request_for(
                        r->Ok_0,
                        verb,
                        u,
                        st,
                        *app,
                        has_form_file(parameters@),
                    ),
                }
            },
        },
{
    let url = parse(app, raw_url)?;
    let is_multipart = any_form_file(parameters);
    if is_multipart && !app.form {
        return Err(Error::NotFormButHasFormFile);
    }
    let mut request = RequestSpec::new(verb, url);
    proof {
        assert(request.header_view() =~= Seq::<(Seq<char>, Seq<char>)>::empty());
    }
    handle_session(&mut request, session, parameters, !app.read_only, &app.auth, &app.token);
    proof {
        assert(request.header_view() == session_headers(session_view(*old(session))));
        assert(entries_view(request.query@) =~= Seq::<(Seq<char>, Seq<char>)>::empty());
    }
    handle_parameters(&mut request, app.form, is_multipart, parameters, files)?;
    handle_auth(&mut request, &app.auth, &app.token);
    Ok(request)
}

} // verus!
