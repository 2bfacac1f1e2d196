//! The persisted, host-scoped session: stored headers, cookies and credentials.
use vstd::prelude::*;

use crate::app::App;
use crate::directories::Directories;
use crate::pairs::{
    entries_view, has_key, lemma_set_pair_unique, set_entry, set_pair, set_pairs, unique_keys,
};
use crate::parameter::{Parameter, Separator};
use crate::request::{cookie_header, cookie_line, RequestSpec};
use crate::text::{has_prefix_ignore_ascii_case, join_path, path_join, push_char, starts_with_lower};

verus! {

/// Whether `c` may stand unchanged in a file or directory name.
pub open spec fn is_safe_path_char(c: char) -> bool {
    ('a' <= c && c <= 'z') || ('A' <= c && c <= 'Z') || ('0' <= c && c <= '9') || c == '_'
        || c == '-' || c == ' '
}

/// `c` when it is safe in a path, `_` otherwise.
pub open spec fn safe_path_char(c: char) -> char {
    if is_safe_path_char(c) {
        c
    } else {
        '_'
    }
}

/// Every character of `s` mapped through `safe_path_char`.
pub open spec fn safe_pathname(s: Seq<char>) -> Seq<char> {
    s.map_values(|c: char| safe_path_char(c))
}

/// Replaces every character outside `[A-Za-z0-9_\- ]` by `_`.
pub fn make_safe_pathname(s: &str) -> (r: String)
    ensures
        r@ == safe_pathname(s@),
{
    let mut buf = String::new();
    for c in it: s.chars()
        invariant
            it.seq() == s@,
            buf@ == safe_pathname(s@.take(it.index() as int)),
    {
        let d = if ('a' <= c && c <= 'z') || ('A' <= c && c <= 'Z') || ('0' <= c && c <= '9')
            || c == '_' || c == '-' || c == ' ' {
            c
        } else {
            '_'
        };
        proof {
            assert(s@.take(it.index() + 1) =~= s@.take(it.index() as int).push(c));
        }
        push_char(&mut buf, d);
    }
    proof {
        assert(s@.take(s@.len() as int) =~= s@);
    }
    buf
}

/// Sanitizing a name that is already sanitized leaves it unchanged.
pub proof fn lemma_safe_pathname_idempotent(s: Seq<char>)
    ensures
        safe_pathname(safe_pathname(s)) == safe_pathname(s),
{
    assert(safe_pathname(safe_pathname(s)) =~= safe_pathname(s));
}

/// A named session for one host: headers, cookies and credentials that are
/// replayed on each request and kept between invocations.
#[derive(Debug, Clone, PartialEq, Eq)]
pub struct Session {
    path: String,
    name: String,
    host: String,
    auth: Option<String>,
    token: Option<String>,
    headers: Vec<(String, String)>,
    cookies: Vec<(String, String)>,
}

/// What a [`Session`] holds.
pub struct SessionView {
    pub path: Seq<char>,
    pub name: Seq<char>,
    pub host: Seq<char>,
    pub auth: Option<Seq<char>>,
    pub token: Option<Seq<char>>,
    /// The stored headers, one per name, in the order they were first set.
    pub headers: Seq<(Seq<char>, Seq<char>)>,
    /// The stored cookies, in the order they arrived; a name may repeat.
    pub cookies: Seq<(Seq<char>, Seq<char>)>,
}

/// The characters of an optional string.
pub open spec fn opt_view(o: Option<String>) -> Option<Seq<char>> {
    match o {
        Some(s) => Some(s@),
        None => None,
    }
}

impl View for Session {
    type V = SessionView;

    closed spec fn view(&self) -> SessionView {
        SessionView {
            path: self.path@,
            name: self.name@,
            host: self.host@,
            auth: opt_view(self.auth),
            token: opt_view(self.token),
            headers: entries_view(self.headers@),
            cookies: entries_view(self.cookies@),
        }
    }
}

/// The directory that holds the sessions of `host`: under the app's session
/// directory if it has one, else under `sessions` in the configuration
/// directory.
pub open spec fn session_dir_path(app: App, dirs: Directories, host: Seq<char>) -> Seq<char> {
    let base = match app.session_dir {
        Some(d) => d@,
        None => path_join(dirs.config_path(), "sessions"@),
    };
    path_join(base, safe_pathname(host))
}

/// The file that holds the session `name` of `host`.
pub open spec fn session_file_path(app: App, dirs: Directories, name: Seq<char>, host: Seq<char>) -> Seq<
    char,
> {
    path_join(session_dir_path(app, dirs, host), safe_pathname(name) + ".json"@)
}

/// A session of `name` and `host` with nothing stored yet.
pub open spec fn fresh_session(app: App, dirs: Directories, name: Seq<char>, host: Seq<char>) -> SessionView {
    SessionView {
        path: session_file_path(app, dirs, name, host),
        name,
        host,
        auth: None,
        token: None,
        headers: seq![],
        cookies: seq![],
    }
}

/// Headers that belong to one request and are never kept in a session: those
/// whose name starts with `content-` or `if-`, in any case.
pub open spec fn is_per_request_header(name: Seq<char>) -> bool {
    starts_with_lower(name, "content-"@) || starts_with_lower(name, "if-"@)
}

/// The stored headers `h` after the header parameters of `ps` are set in
/// order, leaving out the per-request ones.
pub open spec fn sticky_headers(h: Seq<(Seq<char>, Seq<char>)>, ps: Seq<Parameter>) -> Seq<
    (Seq<char>, Seq<char>),
>
    decreases ps.len(),
{
    if ps.len() == 0 {
        h
    } else {
        let h2 = sticky_headers(h, ps.drop_last());
        let p = ps.last();
        if p.kind() == Separator::Colon && !is_per_request_header(p.key_view()) {
            set_pair(h2, p.key_view(), p.value_view())
        } else {
            h2
        }
    }
}

/// The request headers `h` after a session's headers are set and its cookies,
/// if any, are added as one `Cookie` header.
pub open spec fn with_session_headers(
    h: Seq<(Seq<char>, Seq<char>)>,
    s: SessionView,
) -> Seq<(Seq<char>, Seq<char>)> {
    let h2 = set_pairs(h, s.headers);
    if s.cookies.len() == 0 {
        h2
    } else {
        set_pair(h2, "Cookie"@, cookie_line(s.cookies))
    }
}

/// A new credential replaces the stored one; a missing one keeps it.
pub open spec fn updated_credential(stored: Option<Seq<char>>, given: Option<Seq<char>>) -> Option<
    Seq<char>,
> {
    if given is Some {
        given
    } else {
        stored
    }
}

proof fn lemma_sticky_headers_unique(h: Seq<(Seq<char>, Seq<char>)>, ps: Seq<Parameter>)
    requires
        unique_keys(h),
    ensures
        unique_keys(sticky_headers(h, ps)),
    decreases ps.len(),
{
    if ps.len() > 0 {
        lemma_sticky_headers_unique(h, ps.drop_last());
        let h2 = sticky_headers(h, ps.drop_last());
        lemma_set_pair_unique(h2, ps.last().key_view(), ps.last().value_view());
    }
}

proof fn lemma_set_pairs_unique(h: Seq<(Seq<char>, Seq<char>)>, ps: Seq<(Seq<char>, Seq<char>)>)
    requires
        unique_keys(h),
    ensures
        unique_keys(set_pairs(h, ps)),
    decreases ps.len(),
{
    if ps.len() > 0 {
        lemma_set_pairs_unique(h, ps.drop_last());
        lemma_set_pair_unique(set_pairs(h, ps.drop_last()), ps.last().0, ps.last().1);
    }
}

/// Sets each pair of `ps` in `h`, in order.
fn set_entries(h: &mut Vec<(String, String)>, ps: &Vec<(String, String)>)
    requires
        unique_keys(entries_view(old(h)@)),
    ensures
        unique_keys(entries_view(final(h)@)),
        entries_view(final(h)@) == set_pairs(entries_view(old(h)@), entries_view(ps@)),
{
    let ghost pv = entries_view(ps@);
    let mut i: usize = 0;
    while i < ps.len()
        invariant
            pv == entries_view(ps@),
            i <= ps@.len(),
            unique_keys(entries_view(h@)),
            entries_view(h@) == set_pairs(entries_view(old(h)@), pv.take(i as int)),
        decreases ps.len() - i,
    {
        proof {
            assert(pv.take(i + 1).drop_last() =~= pv.take(i as int));
        }
        set_entry(h, ps[i].0.clone(), ps[i].1.clone());
        i = i + 1;
    }
    proof {
        assert(pv.take(pv.len() as int) =~= pv);
    }
}

impl Session {
    /// Well formed: no stored header name occurs twice.
    pub open spec fn wf(&self) -> bool {
        unique_keys(self@.headers)
    }

    /// A session with nothing stored yet.
    pub fn new(app: &App, dirs: &Directories, name: String, host: String) -> (s: Session)
        ensures
            s.wf(),
            s@ == fresh_session(*app, *dirs, name@, host@),
    {
        let path = Session::path(app, dirs, name.as_str(), host.as_str());
        let s = Session {
            path,
            name,
            host,
            auth: None,
            token: None,
            headers: Vec::new(),
            cookies: Vec::new(),
        };
        proof {
            assert(s@.headers =~= Seq::<(Seq<char>, Seq<char>)>::empty());
            assert(s@.cookies =~= Seq::<(Seq<char>, Seq<char>)>::empty());
        }
        s
    }

    /// A session from what was stored: the headers are set in order, so a
    /// later header of the same name wins.
    pub fn from_parts(
        path: String,
        name: String,
        host: String,
        auth: Option<String>,
        token: Option<String>,
        headers: Vec<(String, String)>,
        cookies: Vec<(String, String)>,
    ) -> (s: Session)
        ensures
            s.wf(),
            s@.path == path@,
            s@.name == name@,
            s@.host == host@,
            s@.auth == opt_view(auth),
            s@.token == opt_view(token),
            s@.headers == set_pairs(Seq::empty(), entries_view(headers@)),
            s@.cookies == entries_view(cookies@),
    {
        let mut stored: Vec<(String, String)> = Vec::new();
        proof {
            assert(entries_view(stored@) =~= Seq::<(Seq<char>, Seq<char>)>::empty());
        }
        set_entries(&mut stored, &headers);
        Session { path, name, host, auth, token, headers: stored, cookies }
    }

    /// The stored session if it could be loaded, else a new one. The stored
    /// session keeps what it holds, but its path is computed again.
    pub fn get_or_create(
        app: &App,
        dirs: &Directories,
        name: String,
        host: String,
        stored: Option<Session>,
    ) -> (s: Session)
        requires
            stored matches Some(t) ==> t.wf(),
        ensures
            s.wf(),
            s@.path == session_file_path(*app, *dirs, name@, host@),
            match stored {
                Some(t) => s@ == (SessionView { path: s@.path, ..t@ }),
                None => s@ == fresh_session(*app, *dirs, name@, host@),
            },
    {
        match stored {
            Some(mut t) => {
                t.path = Session::path(app, dirs, name.as_str(), host.as_str());
                t
            },
            None => Session::new(app, dirs, name, host),
        }
    }

    /// The file of the session `name` of `host`.
    pub fn path(app: &App, dirs: &Directories, name: &str, host: &str) -> (r: String)
        ensures
            r@ == session_file_path(*app, *dirs, name@, host@),
    {
        let dir = Session::dir(app, dirs, host);
        let mut filename = make_safe_pathname(name);
        filename.append(".json");
        join_path(dir.as_str(), filename.as_str())
    }

    /// The directory of the sessions of `host`.
    pub fn dir(app: &App, dirs: &Directories, host: &str) -> (r: String)
        ensures
            r@ == session_dir_path(*app, *dirs, host@),
    {
        let base = match &app.session_dir {
            Some(d) => d.clone(),
            None => join_path(dirs.config(), "sessions"),
        };
        join_path(base.as_str(), make_safe_pathname(host).as_str())
    }

    /// Stores the header parameters, except those that belong to one request
    /// (`content-*` and `if-*`).
    pub fn update_with_parameters(&mut self, parameters: &Vec<Parameter>)
        requires
            old(self).wf(),
        ensures
            final(self).wf(),
            final(self)@ == (SessionView {
                headers: sticky_headers(old(self)@.headers, parameters@),
                ..old(self)@
            }),
    {
        let mut i: usize = 0;
        while i < parameters.len()
            invariant
                i <= parameters@.len(),
                unique_keys(entries_view(self.headers@)),
                self@ == (SessionView {
                    headers: sticky_headers(old(self)@.headers, parameters@.take(i as int)),
                    ..old(self)@
                }),
            decreases parameters.len() - i,
        {
            proof {
                assert(parameters@.take(i + 1).drop_last() =~= parameters@.take(i as int));
            }
            match &parameters[i] {
                Parameter::Header { key, value } => {
                    if !(has_prefix_ignore_ascii_case(key.as_str(), "content-")
                        || has_prefix_ignore_ascii_case(key.as_str(), "if-")) {
                        set_entry(&mut self.headers, key.clone(), value.clone());
                    }
                },
                _ => {},
            }
            i = i + 1;
        }
        proof {
            assert(parameters@.take(parameters@.len() as int) =~= parameters@);
        }
    }

    /// Replaces the stored credentials with those given; one that is not given
    /// is kept.
    pub fn update_auth(&mut self, auth: &Option<String>, token: &Option<String>)
        requires
            old(self).wf(),
        ensures
            final(self).wf(),
            final(self)@ == (SessionView {
                auth: updated_credential(old(self)@.auth, opt_view(*auth)),
                token: updated_credential(old(self)@.token, opt_view(*token)),
                ..old(self)@
            }),
    {
        if auth.is_some() {
            self.auth = auth.clone();
        }
        if token.is_some() {
            self.token = token.clone();
        }
    }

    /// Sets the stored headers on the request, then the stored cookies as one
    /// `Cookie` header, when there are any.
    pub fn add_to_request(&self, request: &mut RequestSpec)
        requires
            old(request).wf(),
        ensures
            final(request).wf(),
            final(request).header_view() == with_session_headers(old(request).header_view(), self@),
            final(request).verb == old(request).verb,
            final(request).url == old(request).url,
            final(request).query == old(request).query,
            final(request).body == old(request).body,
            final(request).basic_auth == old(request).basic_auth,
            final(request).bearer_token == old(request).bearer_token,
    {
        set_entries(&mut request.headers, &self.headers);
        if self.cookies.len() > 0 {
            let line = cookie_header(&self.cookies);
            request.set_header("Cookie".to_owned(), line);
        }
    }

    /// The file the session is kept in.
    pub fn file_path(&self) -> (r: &str)
        ensures
            r@ == self@.path,
    {
        self.path.as_str()
    }

    /// The session's name.
    pub fn name(&self) -> (r: &str)
        ensures
            r@ == self@.name,
    {
        self.name.as_str()
    }

    /// The host the session belongs to.
    pub fn host(&self) -> (r: &str)
        ensures
            r@ == self@.host,
    {
        self.host.as_str()
    }

    /// The stored basic authentication string.
    pub fn auth(&self) -> (r: &Option<String>)
        ensures
            opt_view(*r) == self@.auth,
    {
        &self.auth
    }

    /// The stored bearer token.
    pub fn token(&self) -> (r: &Option<String>)
        ensures
            opt_view(*r) == self@.token,
    {
        &self.token
    }

    /// The stored headers, one per name.
    pub fn headers(&self) -> (r: &Vec<(String, String)>)
        ensures
            entries_view(r@) == self@.headers,
    {
        &self.headers
    }

    /// The stored cookies, in the order they arrived.
    pub fn cookies(&self) -> (r: &Vec<(String, String)>)
        ensures
            entries_view(r@) == self@.cookies,
    {
        &self.cookies
    }

    /// Adds the cookies that a response set, after those already stored.
    pub fn update_with_response(&mut self, cookies: &Vec<(String, String)>)
        requires
            old(self).wf(),
        ensures
            final(self).wf(),
            final(self)@ == (SessionView {
                cookies: old(self)@.cookies + entries_view(cookies@),
                ..old(self)@
            }),
    {
        let ghost before = self.cookies@;
        let mut i: usize = 0;
        while i < cookies.len()
            invariant
                i <= cookies@.len(),
                self.cookies@ == before + cookies@.take(i as int),
                self@ == (SessionView { cookies: self@.cookies, ..old(self)@ }),
            decreases cookies.len() - i,
        {
            self.cookies.push((cookies[i].0.clone(), cookies[i].1.clone()));
            proof {
                assert(self.cookies@ =~= before + cookies@.take(i + 1));
            }
            i = i + 1;
        }
        proof {
            assert(cookies@.take(cookies@.len() as int) =~= cookies@);
            assert(entries_view(before + cookies@) =~= entries_view(before) + entries_view(cookies@));
        }
    }
}

/// Whether a parameter of `ps` is a header parameter named `k`.
pub open spec fn sets_header(ps: Seq<Parameter>, k: Seq<char>) -> bool {
    exists|j: int| 0 <= j < ps.len() && ps[j].kind() == Separator::Colon && ps[j].key_view() == k
}

/// Storing the headers of a request never adds one that belongs to a single
/// request (`content-*`, `if-*`): such a name is stored afterwards only if it
/// was stored before.
pub proof fn lemma_per_request_headers_not_stored(
    h: Seq<(Seq<char>, Seq<char>)>,
    ps: Seq<Parameter>,
    k: Seq<char>,
)
    requires
        unique_keys(h),
        is_per_request_header(k),
        !has_key(h, k),
    ensures
        !has_key(sticky_headers(h, ps), k),
    decreases ps.len(),
{
    if ps.len() > 0 {
        lemma_per_request_headers_not_stored(h, ps.drop_last(), k);
        lemma_sticky_headers_unique(h, ps.drop_last());
        let h2 = sticky_headers(h, ps.drop_last());
        let p = ps.last();
        if p.kind() == Separator::Colon && !is_per_request_header(p.key_view()) {
            lemma_set_pair_unique(h2, p.key_view(), p.value_view());
        }
    }
}

/// Storing the headers of a request keeps every stored header in its place,
/// and keeps its value unless a header parameter of the request names it.
pub proof fn lemma_stored_headers_survive(h: Seq<(Seq<char>, Seq<char>)>, ps: Seq<Parameter>)
    requires
        unique_keys(h),
    ensures
        h.len() <= sticky_headers(h, ps).len(),
        forall|i: int|
            0 <= i < h.len() ==> (#[trigger] sticky_headers(h, ps)[i]).0 == h[i].0 && (!sets_header(
                ps,
                h[i].0,
            ) ==> sticky_headers(h, ps)[i].1 == h[i].1),
    decreases ps.len(),
{
    if ps.len() > 0 {
        let front = ps.drop_last();
        lemma_stored_headers_survive(h, front);
        lemma_sticky_headers_unique(h, front);
        let h2 = sticky_headers(h, front);
        let p = ps.last();
        assert forall|k: Seq<char>| sets_header(front, k) implies sets_header(ps, k) by {
            let j = choose|j: int|
                0 <= j < front.len() && front[j].kind() == Separator::Colon && front[j].key_view()
                    == k;
            assert(ps[j] == front[j]);
        }
        if p.kind() == Separator::Colon && !is_per_request_header(p.key_view()) {
            assert(sets_header(ps, p.key_view())) by {
                assert(ps[ps.len() - 1] == p);
            }
            if has_key(h2, p.key_view()) {
                let c = choose|c: int| 0 <= c < h2.len() && h2[c].0 == p.key_view();
                assert forall|i: int| 0 <= i < h.len() && i != c implies #[trigger] sticky_headers(
                    h,
                    ps,
                )[i] == h2[i] by {}
            }
        }
    }
}

} // verus!
