//! The parameter micro-language: `key<SEP>value` arguments with `\` escapes.
use vstd::prelude::*;

use crate::errors::Error;
use crate::text::{chars_of, push_char};

verus! {

/// One request parameter, as given on the command line.
#[derive(Debug, Clone, PartialEq, Eq)]
pub enum Parameter {
    /// `key:value`, a request header.
    Header { key: String, value: String },
    /// `key=value`, a string field of the body.
    Data { key: String, value: String },
    /// `key:=value`, a body field whose value is raw JSON text.
    RawJsonData { key: String, value: String },
    /// `key==value`, a query string pair.
    Query { key: String, value: String },
    /// `key@path`, a file uploaded as a multipart part.
    FormFile { key: String, value: String },
    /// `key=@path`, a string body field read from a file.
    DataFile { key: String, value: String },
    /// `key:=@path`, a body field read from a file of JSON.
    RawJsonDataFile { key: String, value: String },
}

impl Parameter {
    /// The separator that selects this kind of parameter.
    pub open spec fn kind(self) -> Separator {
        match self {
            Parameter::Header { .. } => Separator::Colon,
            Parameter::Data { .. } => Separator::Equal,
            Parameter::RawJsonData { .. } => Separator::ColonEqual,
            Parameter::Query { .. } => Separator::EqualEqual,
            Parameter::FormFile { .. } => Separator::At,
            Parameter::DataFile { .. } => Separator::EqualAt,
            Parameter::RawJsonDataFile { .. } => Separator::Snail,
        }
    }

    /// The key of the parameter.
    pub open spec fn key_view(self) -> Seq<char> {
        match self {
            Parameter::Header { key, .. } => key@,
            Parameter::Data { key, .. } => key@,
            Parameter::RawJsonData { key, .. } => key@,
            Parameter::Query { key, .. } => key@,
            Parameter::FormFile { key, .. } => key@,
            Parameter::DataFile { key, .. } => key@,
            Parameter::RawJsonDataFile { key, .. } => key@,
        }
    }

    /// The value of the parameter: a literal, a path or raw JSON text.
    pub open spec fn value_view(self) -> Seq<char> {
        match self {
            Parameter::Header { value, .. } => value@,
            Parameter::Data { value, .. } => value@,
            Parameter::RawJsonData { value, .. } => value@,
            Parameter::Query { value, .. } => value@,
            Parameter::FormFile { value, .. } => value@,
            Parameter::DataFile { value, .. } => value@,
            Parameter::RawJsonDataFile { value, .. } => value@,
        }
    }

    /// The parameter of the kind that `sep` selects.
    pub fn from_parts(sep: Separator, key: String, value: String) -> (p: Parameter)
        ensures
            p.kind() == sep,
            p.key_view() == key@,
            p.value_view() == value@,
    {
        match sep {
            Separator::At => Parameter::FormFile { key, value },
            Separator::Equal => Parameter::Data { key, value },
            Separator::Colon => Parameter::Header { key, value },
            Separator::ColonEqual => Parameter::RawJsonData { key, value },
            Separator::EqualEqual => Parameter::Query { key, value },
            Separator::EqualAt => Parameter::DataFile { key, value },
            Separator::Snail => Parameter::RawJsonDataFile { key, value },
        }
    }

    /// Whether this is a `key@path` file upload.
    pub fn is_form_file(&self) -> (r: bool)
        ensures
            r == (self.kind() == Separator::At),
    {
        match *self {
            Parameter::FormFile { .. } => true,
            _ => false,
        }
    }

    /// Whether this parameter goes into the request body: anything but a
    /// header or a query pair.
    pub fn is_data(&self) -> (r: bool)
        ensures
            r == (self.kind() != Separator::Colon && self.kind() != Separator::EqualEqual),
    {
        match *self {
            Parameter::Header { .. } => false,
            Parameter::Query { .. } => false,
            _ => true,
        }
    }
}

/// The seven separators between a parameter's key and its value.
#[derive(Debug, Clone, Copy, PartialEq, Eq, Structural)]
pub enum Separator {
    /// `:`
    Colon,
    /// `=`
    Equal,
    /// `@`
    At,
    /// `:=`
    ColonEqual,
    /// `==`
    EqualEqual,
    /// `=@`
    EqualAt,
    /// `:=@`
    Snail,
}

impl Separator {
    /// The characters of the separator.
    pub open spec fn text(self) -> Seq<char> {
        match self {
            Separator::Colon => seq![':'],
            Separator::Equal => seq!['='],
            Separator::At => seq!['@'],
            Separator::ColonEqual => seq![':', '='],
            Separator::EqualEqual => seq!['=', '='],
            Separator::EqualAt => seq!['=', '@'],
            Separator::Snail => seq![':', '=', '@'],
        }
    }

    /// The characters of the separator, as a vector.
    pub fn chars(&self) -> (r: Vec<char>)
        ensures
            r@ == self.text(),
    {
        let mut r: Vec<char> = Vec::new();
        match self {
            Separator::Colon => {
                r.push(':');
            },
            Separator::Equal => {
                r.push('=');
            },
            Separator::At => {
                r.push('@');
            },
            Separator::ColonEqual => {
                r.push(':');
                r.push('=');
            },
            Separator::EqualEqual => {
                r.push('=');
                r.push('=');
            },
            Separator::EqualAt => {
                r.push('=');
                r.push('@');
            },
            Separator::Snail => {
                r.push(':');
                r.push('=');
                r.push('@');
            },
        }
        proof {
            assert(r@ =~= self.text());
        }
        r
    }

    /// The number of characters of the separator.
    pub fn len(&self) -> (n: usize)
        ensures
            n == self.text().len(),
    {
        match self {
            Separator::Colon | Separator::Equal | Separator::At => 1,
            Separator::ColonEqual | Separator::EqualEqual | Separator::EqualAt => 2,
            Separator::Snail => 3,
        }
    }
}

/// Whether `pat` occurs in `t` starting at position `p`.
pub open spec fn occurs_at(t: Seq<char>, p: int, pat: Seq<char>) -> bool {
    0 <= p && p + pat.len() <= t.len() && t.subrange(p, p + pat.len()) == pat
}

/// The separator that starts at position `p` of `t`, if any: the first one
/// that occurs there in the order `:=@`, `=@`, `==`, `:=`, `@`, `=`, `:`, which
/// puts longer separators before their prefixes.
pub open spec fn separator_at(t: Seq<char>, p: int) -> Option<Separator> {
    if occurs_at(t, p, Separator::Snail.text()) {
        Some(Separator::Snail)
    } else if occurs_at(t, p, Separator::EqualAt.text()) {
        Some(Separator::EqualAt)
    } else if occurs_at(t, p, Separator::EqualEqual.text()) {
        Some(Separator::EqualEqual)
    } else if occurs_at(t, p, Separator::ColonEqual.text()) {
        Some(Separator::ColonEqual)
    } else if occurs_at(t, p, Separator::At.text()) {
        Some(Separator::At)
    } else if occurs_at(t, p, Separator::Equal.text()) {
        Some(Separator::Equal)
    } else if occurs_at(t, p, Separator::Colon.text()) {
        Some(Separator::Colon)
    } else {
        None
    }
}

/// The earliest position at or after `p` where a separator starts in `t`,
/// with the separator found there.
pub open spec fn first_separator_from(t: Seq<char>, p: int) -> Option<(int, Separator)>
    decreases t.len() - p,
{
    if p < 0 || p >= t.len() {
        None
    } else {
        match separator_at(t, p) {
            Some(sep) => Some((p, sep)),
            None => first_separator_from(t, p + 1),
        }
    }
}

/// The earliest separator in `t`, with its position.
pub open spec fn first_separator(t: Seq<char>) -> Option<(int, Separator)> {
    first_separator_from(t, 0)
}

/// A unit of a scanned argument: a span of plain text, or one escaped character.
#[derive(Debug, Clone, PartialEq, Eq)]
pub enum Token {
    Text(String),
    Escape(char),
}

/// What a [`Token`] stands for.
pub enum TokenModel {
    Text(Seq<char>),
    Escape(char),
}

impl Token {
    pub open spec fn view(&self) -> TokenModel {
        match self {
            Token::Text(s) => TokenModel::Text(s@),
            Token::Escape(c) => TokenModel::Escape(*c),
        }
    }
}

/// The abstract contents of a token list.
pub open spec fn tokens_view(ts: Seq<Token>) -> Seq<TokenModel> {
    ts.map_values(|t: Token| t.view())
}

/// The characters that a backslash escapes.
pub open spec fn is_escapable(c: char) -> bool {
    c == '\\' || c == '=' || c == '@' || c == ':'
}

/// A text token for `pending`, or nothing when it is empty.
pub open spec fn flush(pending: Seq<char>) -> Seq<TokenModel> {
    if pending.len() > 0 {
        seq![TokenModel::Text(pending)]
    } else {
        seq![]
    }
}

/// The tokens of `s` from position `i` on, where `pending` is the text span
/// gathered so far and not yet emitted.
pub open spec fn scan(s: Seq<char>, i: int, pending: Seq<char>) -> Seq<TokenModel>
    decreases s.len() - i,
{
    if i >= s.len() {
        flush(pending)
    } else if s[i] != '\\' {
        scan(s, i + 1, pending.push(s[i]))
    } else if i + 1 >= s.len() {
        seq![TokenModel::Text(pending.push('\\'))]
    } else if is_escapable(s[i + 1]) {
        flush(pending) + seq![TokenModel::Escape(s[i + 1])] + scan(s, i + 2, seq![])
    } else {
        scan(s, i + 2, pending.push('\\').push(s[i + 1]))
    }
}

/// The tokens of a whole argument.
pub open spec fn tokenize(s: Seq<char>) -> Seq<TokenModel> {
    scan(s, 0, seq![])
}

/// The characters that a token stands for: a text span as it is; an escape
/// as the backslash and the escaped character when `raw`, else as the
/// escaped character alone.
pub open spec fn token_text(t: TokenModel, raw: bool) -> Seq<char> {
    match t {
        TokenModel::Text(s) => s,
        TokenModel::Escape(c) => if raw {
            seq!['\\', c]
        } else {
            seq![c]
        },
    }
}

/// The characters of a token list, in order: the raw argument when `raw`,
/// else the argument with its escaping backslashes removed.
pub open spec fn join_tokens(ts: Seq<TokenModel>, raw: bool) -> Seq<char>
    decreases ts.len(),
{
    if ts.len() == 0 {
        seq![]
    } else {
        join_tokens(ts.drop_last(), raw) + token_text(ts.last(), raw)
    }
}

/// The text of a text token; empty for an escape.
pub open spec fn text_of(t: TokenModel) -> Seq<char> {
    match t {
        TokenModel::Text(s) => s,
        TokenModel::Escape(_) => seq![],
    }
}

/// The first text token at or after index `j` that holds a separator: its
/// index, the separator's position in it and the separator. Escaped
/// characters are never separators.
pub open spec fn winning_token(ts: Seq<TokenModel>, j: int) -> Option<(int, int, Separator)>
    decreases ts.len() - j,
{
    if j < 0 || j >= ts.len() {
        None
    } else {
        match ts[j] {
            TokenModel::Text(s) => match first_separator(s) {
                Some((p, sep)) => Some((j, p, sep)),
                None => winning_token(ts, j + 1),
            },
            TokenModel::Escape(_) => winning_token(ts, j + 1),
        }
    }
}

/// How an argument splits: the separator, the key before it and the value
/// after it, or `None` when the argument holds no unescaped separator. The key
/// is the text of the tokens before the winning one and the text before the
/// separator; the value is the text after the separator and the text of the
/// tokens after the winning one. An escape adds only the character it escapes.
pub open spec fn classify(s: Seq<char>) -> Option<(Separator, Seq<char>, Seq<char>)> {
    let ts = tokenize(s);
    match winning_token(ts, 0) {
        None => None,
        Some((j, p, sep)) => {
            let t = text_of(ts[j]);
            Some(
                (
                    sep,
                    join_tokens(ts.take(j), false) + t.take(p),
                    t.skip(p + sep.text().len()) + join_tokens(ts.skip(j + 1), false),
                ),
            )
        },
    }
}

/// Whether `pat` occurs in `t` starting at position `p`.
fn occurs_in_at(t: &Vec<char>, p: usize, pat: &Vec<char>) -> (r: bool)
    ensures
        r == occurs_at(t@, p as int, pat@),
{
    if pat.len() > t.len() || p > t.len() - pat.len() {
        return false;
    }
    let mut k: usize = 0;
    while k < pat.len()
        invariant
            p + pat@.len() <= t@.len(),
            t@.len() == t.len(),
            pat@.len() == pat.len(),
            k <= pat@.len(),
            forall|m: int| 0 <= m < k ==> t@[p + m] == pat@[m],
        decreases pat.len() - k,
    {
        if t[p + k] != pat[k] {
            proof {
                assert(t@.subrange(p as int, p + pat@.len())[k as int] != pat@[k as int]);
            }
            return false;
        }
        k = k + 1;
    }
    proof {
        assert(t@.subrange(p as int, p + pat@.len()) =~= pat@);
    }
    true
}

/// The separator that starts at position `p` of `t`, longest first.
fn separator_starting_at(t: &Vec<char>, p: usize) -> (r: Option<Separator>)
    ensures
        r == separator_at(t@, p as int),
{
    if occurs_in_at(t, p, &Separator::Snail.chars()) {
        Some(Separator::Snail)
    } else if occurs_in_at(t, p, &Separator::EqualAt.chars()) {
        Some(Separator::EqualAt)
    } else if occurs_in_at(t, p, &Separator::EqualEqual.chars()) {
        Some(Separator::EqualEqual)
    } else if occurs_in_at(t, p, &Separator::ColonEqual.chars()) {
        Some(Separator::ColonEqual)
    } else if occurs_in_at(t, p, &Separator::At.chars()) {
        Some(Separator::At)
    } else if occurs_in_at(t, p, &Separator::Equal.chars()) {
        Some(Separator::Equal)
    } else if occurs_in_at(t, p, &Separator::Colon.chars()) {
        Some(Separator::Colon)
    } else {
        None
    }
}

/// The earliest separator in `t` and its position; at one position the
/// longest separator wins.
pub fn find_separator(t: &Vec<char>) -> (r: Option<(usize, Separator)>)
    ensures
        match r {
            Some((p, sep)) => first_separator(t@) == Some((p as int, sep)),
            None => first_separator(t@) is None,
        },
{
    let mut p: usize = 0;
    while p < t.len()
        invariant
            p <= t@.len(),
            first_separator(t@) == first_separator_from(t@, p as int),
        decreases t.len() - p,
    {
        match separator_starting_at(t, p) {
            Some(sep) => {
                return Some((p, sep));
            },
            None => {},
        }
        p = p + 1;
    }
    None
}

/// Scans `src` for escaped `\`, `=`, `@` and `:` (each preceded by a
/// backslash), and gathers the characters between them into text spans. A
/// backslash before any other character, or at the end, is plain text.
pub fn gather_escapes(src: &str) -> (tokens: Vec<Token>)
    ensures
        tokens_view(tokens@) == tokenize(src@),
{
    let cs = chars_of(src);
    let n = cs.len();
    let mut tokens: Vec<Token> = Vec::new();
    let mut pending = String::new();
    let mut i: usize = 0;
    while i < n
        invariant
            n == cs@.len(),
            cs@ == src@,
            i <= n,
            tokens_view(tokens@) + scan(cs@, i as int, pending@) == tokenize(src@),
        decreases n - i,
    {
        let ghost before = tokens@;
        let c = cs[i];
        if c != '\\' {
            push_char(&mut pending, c);
            i = i + 1;
        } else if i + 1 == n {
            push_char(&mut pending, '\\');
            tokens.push(Token::Text(pending));
            proof {
                assert(tokens_view(tokens@) =~= tokens_view(before) + seq![
                    TokenModel::Text(pending@),
                ]);
            }
            return tokens;
        } else {
            let d = cs[i + 1];
            if d == '\\' || d == '=' || d == '@' || d == ':' {
                let ghost old_pending = pending@;
                if !pending.as_str().is_empty() {
                    tokens.push(Token::Text(pending));
                    pending = String::new();
                }
                let ghost mid = tokens@;
                tokens.push(Token::Escape(d));
                proof {
                    assert(tokens_view(mid) =~= tokens_view(before) + flush(old_pending));
                    assert(tokens_view(tokens@) =~= tokens_view(mid) + seq![TokenModel::Escape(d)]);
                    assert(pending@ =~= Seq::<char>::empty());
                }
            } else {
                push_char(&mut pending, c);
                push_char(&mut pending, d);
            }
            i = i + 2;
        }
    }
    let ghost before = tokens@;
    if !pending.as_str().is_empty() {
        tokens.push(Token::Text(pending));
    }
    proof {
        assert(tokens_view(tokens@) =~= tokens_view(before) + flush(pending@));
    }
    tokens
}

/// Appends the characters that `t` stands for, an escape without its
/// backslash.
fn push_token(s: &mut String, t: &Token)
    ensures
        final(s)@ == old(s)@ + token_text(t.view(), false),
{
    match t {
        Token::Text(x) => {
            s.append(x.as_str());
        },
        Token::Escape(c) => {
            push_char(s, *c);
            proof {
                assert(final(s)@ =~= old(s)@ + token_text(t.view(), false));
            }
        },
    }
}

/// Parses one `key<SEP>value` argument. The separator is the earliest one in
/// the first unescaped text span that holds any, the longest where several
/// start at the same place; escaped characters stay in the key and the value
/// without their backslash.
pub fn parse_param(src: &str) -> (r: Result<Parameter, Error>)
    ensures
        match classify(src@) {
            Some((sep, key, value)) => r is Ok && r->Ok_0.kind() == sep && r->Ok_0.key_view()
                == key && r->Ok_0.value_view() == value,
            None => r is Err && r->Err_0.is_missing_separator_for(src@),
        },
{
    let tokens = gather_escapes(src);
    let ghost ts = tokens_view(tokens@);
    let mut hit: Option<(usize, usize, Separator)> = None;
    let mut text: Vec<char> = Vec::new();
    let mut j: usize = 0;
    while j < tokens.len() && hit.is_none()
        invariant
            ts == tokens_view(tokens@),
            j <= tokens@.len(),
            hit is None ==> winning_token(ts, 0) == winning_token(ts, j as int),
            hit matches Some((idx, p, sep)) ==> idx < ts.len() && text@ == text_of(ts[idx as int])
                && first_separator(text@) == Some((p as int, sep)) && winning_token(ts, 0) == Some(
                (idx as int, p as int, sep)),
        decreases tokens.len() - j,
    {
        match &tokens[j] {
            Token::Text(s) => {
                let cs = chars_of(s.as_str());
                proof {
                    lemma_first_separator_fits(cs@, 0);
                    assert(ts[j as int] == TokenModel::Text(s@));
                }
                match find_separator(&cs) {
                    Some((p, sep)) => {
                        proof {
                            assert(first_separator(s@) == Some((p as int, sep)));
                            assert(winning_token(ts, j as int) == Some((j as int, p as int, sep)));
                        }
                        hit = Some((j, p, sep));
                        text = cs;
                    },
                    None => {},
                }
            },
            Token::Escape(c) => {
                proof {
                    assert(ts[j as int] == TokenModel::Escape(*c));
                }
            },
        }
        j = j + 1;
    }
    match hit {
        None => Err(Error::ParameterMissingSeparator(src.to_owned())),
        Some((idx, p, sep)) => {
            let ghost t = text_of(ts[idx as int]);
            proof {
                assert(first_separator(t) == Some((p as int, sep)));
                lemma_first_separator_fits(t, 0);
            }
            let mut key = String::new();
            let mut i: usize = 0;
            while i < idx
                invariant
                    ts == tokens_view(tokens@),
                    idx < tokens@.len(),
                    i <= idx,
                    key@ == join_tokens(ts.take(i as int), false),
                decreases idx - i,
            {
                push_token(&mut key, &tokens[i]);
                proof {
                    assert(ts.take(i + 1).drop_last() =~= ts.take(i as int));
                }
                i = i + 1;
            }
            let mut k: usize = 0;
            while k < p
                invariant
                    p + sep.text().len() <= text@.len(),
                    k <= p,
                    key@ == join_tokens(ts.take(idx as int), false) + text@.take(k as int),
                decreases p - k,
            {
                push_char(&mut key, text[k]);
                proof {
                    assert(text@.take(k + 1) =~= text@.take(k as int).push(text@[k as int]));
                }
                k = k + 1;
            }
            assert(p + sep.text().len() <= text.len());
            let start = p + sep.len();
            let mut value = String::new();
            let mut k: usize = start;
            while k < text.len()
                invariant
                    start <= k <= text@.len(),
                    value@ == text@.subrange(start as int, k as int),
                decreases text.len() - k,
            {
                push_char(&mut value, text[k]);
                proof {
                    assert(text@.subrange(start as int, k + 1) =~= text@.subrange(
                        start as int,
                        k as int,
                    ).push(text@[k as int]));
                }
                k = k + 1;
            }
            let mut i: usize = idx + 1;
            while i < tokens.len()
                invariant
                    ts == tokens_view(tokens@),
                    idx < i <= tokens@.len(),
                    value@ == text@.skip(start as int) + join_tokens(
                        ts.subrange(idx + 1, i as int),
                        false,
                    ),
                decreases tokens.len() - i,
            {
                push_token(&mut value, &tokens[i]);
                proof {
                    assert(ts.subrange(idx + 1, i + 1).drop_last() =~= ts.subrange(
                        idx + 1,
                        i as int,
                    ));
                }
                i = i + 1;
            }
            proof {
                assert(ts.subrange(idx + 1, ts.len() as int) =~= ts.skip(idx + 1));
                assert(text@.subrange(start as int, text@.len() as int) =~= text@.skip(
                    start as int,
                ));
            }
            Ok(Parameter::from_parts(sep, key, value))
        },
    }
}

/// A separator found from position `p` on lies inside `t`.
proof fn lemma_first_separator_fits(t: Seq<char>, p: int)
    ensures
        first_separator_from(t, p) matches Some((q, sep)) ==> p <= q && separator_at(t, q) == Some(
            sep,
        ) && q + sep.text().len() <= t.len(),
    decreases t.len() - p,
{
    if 0 <= p < t.len() && separator_at(t, p) is None {
        lemma_first_separator_fits(t, p + 1);
    }
}

/// Whether `c` can be, or begin, a separator.
pub open spec fn is_separator_char(c: char) -> bool {
    c == ':' || c == '=' || c == '@'
}

/// The one-character separator that `c` is.
pub open spec fn single_char_separator(c: char) -> Separator {
    if c == ':' {
        Separator::Colon
    } else if c == '=' {
        Separator::Equal
    } else {
        Separator::At
    }
}

proof fn lemma_join_concat(a: Seq<TokenModel>, b: Seq<TokenModel>, raw: bool)
    ensures
        join_tokens(a + b, raw) == join_tokens(a, raw) + join_tokens(b, raw),
    decreases b.len(),
{
    if b.len() == 0 {
        assert(a + b =~= a);
        assert(join_tokens(a, raw) + join_tokens(b, raw) =~= join_tokens(a, raw));
    } else {
        lemma_join_concat(a, b.drop_last(), raw);
        assert((a + b).drop_last() =~= a + b.drop_last());
        assert((a + b).last() == b.last());
        assert(join_tokens(a + b, raw) =~= join_tokens(a, raw) + join_tokens(b, raw));
    }
}

proof fn lemma_join_one(t: TokenModel, raw: bool)
    ensures
        join_tokens(seq![t], raw) == token_text(t, raw),
{
    let e = Seq::<TokenModel>::empty();
    assert(seq![t].drop_last() =~= e);
    assert(seq![t].last() == t);
    assert(join_tokens(e, raw) == Seq::<char>::empty());
    assert(join_tokens(seq![t], raw) == join_tokens(e, raw) + token_text(t, raw));
    assert(join_tokens(seq![t], raw) =~= token_text(t, raw));
}

proof fn lemma_join_flush(pending: Seq<char>, raw: bool)
    ensures
        join_tokens(flush(pending), raw) == pending,
{
    if pending.len() > 0 {
        lemma_join_one(TokenModel::Text(pending), raw);
    } else {
        assert(pending =~= Seq::<char>::empty());
    }
}

proof fn lemma_join_scan(s: Seq<char>, i: int, pending: Seq<char>)
    requires
        0 <= i <= s.len(),
    ensures
        join_tokens(scan(s, i, pending), true) == pending + s.skip(i),
    decreases s.len() - i,
{
    if i >= s.len() {
        lemma_join_flush(pending, true);
        assert(pending + s.skip(i) =~= pending);
    } else if s[i] != '\\' {
        lemma_join_scan(s, i + 1, pending.push(s[i]));
        assert(pending.push(s[i]) + s.skip(i + 1) =~= pending + s.skip(i));
    } else if i + 1 >= s.len() {
        lemma_join_one(TokenModel::Text(pending.push('\\')), true);
        assert(pending.push('\\') =~= pending + s.skip(i));
    } else if is_escapable(s[i + 1]) {
        let e = seq![TokenModel::Escape(s[i + 1])];
        lemma_join_scan(s, i + 2, seq![]);
        lemma_join_concat(flush(pending) + e, scan(s, i + 2, seq![]), true);
        lemma_join_concat(flush(pending), e, true);
        lemma_join_flush(pending, true);
        lemma_join_one(TokenModel::Escape(s[i + 1]), true);
        assert(pending + seq!['\\', s[i + 1]] + (seq![] + s.skip(i + 2)) =~= pending + s.skip(i));
    } else {
        lemma_join_scan(s, i + 2, pending.push('\\').push(s[i + 1]));
        assert(pending.push('\\').push(s[i + 1]) + s.skip(i + 2) =~= pending + s.skip(i));
    }
}

/// The raw characters of the tokens of `s` are `s` itself: escapes keep
/// their backslash.
pub proof fn lemma_tokens_reassemble(s: Seq<char>)
    ensures
        join_tokens(tokenize(s), true) == s,
{
    lemma_join_scan(s, 0, seq![]);
    assert(Seq::<char>::empty() + s.skip(0) =~= s);
}

proof fn lemma_join_scan_plain(s: Seq<char>, i: int, pending: Seq<char>)
    requires
        0 <= i <= s.len(),
        forall|k: int| 0 <= k < s.len() ==> s[k] != '\\',
    ensures
        join_tokens(scan(s, i, pending), false) == pending + s.skip(i),
    decreases s.len() - i,
{
    if i >= s.len() {
        lemma_join_flush(pending, false);
        assert(pending + s.skip(i) =~= pending);
    } else {
        lemma_join_scan_plain(s, i + 1, pending.push(s[i]));
        assert(pending.push(s[i]) + s.skip(i + 1) =~= pending + s.skip(i));
    }
}

/// An argument without backslashes has nothing to unescape.
pub proof fn lemma_unescaped_plain(s: Seq<char>)
    requires
        forall|k: int| 0 <= k < s.len() ==> s[k] != '\\',
    ensures
        join_tokens(tokenize(s), false) == s,
{
    lemma_join_scan_plain(s, 0, seq![]);
    assert(Seq::<char>::empty() + s.skip(0) =~= s);
}

proof fn lemma_separator_at_occurs(t: Seq<char>, p: int)
    ensures
        separator_at(t, p) matches Some(sep) ==> occurs_at(t, p, sep.text()),
{
}

proof fn lemma_winning_token_found(ts: Seq<TokenModel>, a: int)
    ensures
        winning_token(ts, a) matches Some((j, p, sep)) ==> a <= j < ts.len() && ts[j] is Text
            && first_separator(text_of(ts[j])) == Some((p, sep)),
    decreases ts.len() - a,
{
    if 0 <= a < ts.len() {
        lemma_winning_token_found(ts, a + 1);
    }
}

/// An argument that parses is exactly its key, then its separator, then its
/// value, once its escaping backslashes are removed.
pub proof fn lemma_parse_param_reassembles(s: Seq<char>)
    ensures
        classify(s) matches Some((sep, key, value)) ==> key + sep.text() + value == join_tokens(
            tokenize(s),
            false,
        ),
{
    let ts = tokenize(s);
    lemma_winning_token_found(ts, 0);
    if let Some((j, p, sep)) = winning_token(ts, 0) {
        let t = text_of(ts[j]);
        lemma_first_separator_fits(t, 0);
        lemma_separator_at_occurs(t, p);
        lemma_join_around(ts, j, false);
        assert(token_text(ts[j], false) == t);
        assert(t.take(p) + sep.text() + t.skip(p + sep.text().len()) =~= t);
        assert(join_tokens(ts.take(j), false) + t.take(p) + sep.text() + (t.skip(
            p + sep.text().len(),
        ) + join_tokens(ts.skip(j + 1), false)) =~= join_tokens(ts.take(j), false) + (t.take(p)
            + sep.text() + t.skip(p + sep.text().len())) + join_tokens(ts.skip(j + 1), false));
    }
}

proof fn lemma_first_separator_from_no_later(t: Seq<char>, r: int, q: int)
    requires
        0 <= r <= q,
        separator_at(t, q) is Some,
    ensures
        first_separator_from(t, r) matches Some((p, sep)) && r <= p <= q && (p == q ==> sep
            == separator_at(t, q)->0),
    decreases q - r,
{
    if separator_at(t, r) is None {
        lemma_first_separator_from_no_later(t, r + 1, q);
    }
}

/// In one span of text the chosen separator is the earliest, and where
/// several start at the same position, the longest: no separator occurs
/// before it, and none that starts where it does is longer.
pub proof fn lemma_separator_earliest_longest(t: Seq<char>, q: int, other: Separator)
    requires
        occurs_at(t, q, other.text()),
    ensures
        first_separator(t) matches Some((p, sep)) && p <= q && (p == q ==> other.text().len()
            <= sep.text().len()),
{
    assert(separator_at(t, q) is Some);
    lemma_first_separator_from_no_later(t, 0, q);
}

proof fn lemma_separator_chars(t: Seq<char>, p: int, sep: Separator)
    requires
        occurs_at(t, p, sep.text()),
    ensures
        forall|i: int| 0 <= i < sep.text().len() ==> is_separator_char(#[trigger] t[p + i]),
{
    assert forall|i: int| 0 <= i < sep.text().len() implies is_separator_char(#[trigger] t[p + i]) by {
        assert(t.subrange(p, p + sep.text().len())[i] == t[p + i]);
    }
}

proof fn lemma_winning_token_skips(ts: Seq<TokenModel>, a: int, b: int)
    requires
        0 <= a <= b <= ts.len(),
        forall|j: int| a <= j < b ==> first_separator(#[trigger] text_of(ts[j])) is None,
    ensures
        winning_token(ts, a) == winning_token(ts, b),
    decreases b - a,
{
    if a < b {
        lemma_winning_token_skips(ts, a + 1, b);
        assert(first_separator(text_of(ts[a])) is None);
    }
}

proof fn lemma_separator_at_char(t: Seq<char>, n: int)
    requires
        0 <= n < t.len(),
        is_separator_char(t[n]),
    ensures
        separator_at(t, n) is Some,
{
    assert(t.subrange(n, n + 1) =~= seq![t[n]]);
}

/// A span whose only separator character stands at `n` has the one-character
/// separator there as its first separator.
proof fn lemma_only_separator_char(t: Seq<char>, n: int)
    requires
        0 <= n < t.len(),
        is_separator_char(t[n]),
        forall|n2: int| 0 <= n2 < t.len() && is_separator_char(#[trigger] t[n2]) ==> n2 == n,
    ensures
        first_separator(t) == Some((n, single_char_separator(t[n]))),
{
    lemma_separator_at_char(t, n);
    lemma_first_separator_from_no_later(t, 0, n);
    lemma_first_separator_fits(t, 0);
    let (p, sep) = first_separator(t)->0;
    lemma_separator_at_occurs(t, p);
    lemma_separator_chars(t, p, sep);
    assert(is_separator_char(t[p + 0]));
    assert(p == n);
    if sep.text().len() > 1 {
        assert(is_separator_char(t[p + 1]));
    }
    assert(t.subrange(p, p + 1)[0] == t[n]);
}

/// The characters of a token list split around token `j`.
proof fn lemma_join_around(ts: Seq<TokenModel>, j: int, raw: bool)
    requires
        0 <= j < ts.len(),
    ensures
        join_tokens(ts, raw) == join_tokens(ts.take(j), raw) + token_text(ts[j], raw) + join_tokens(
            ts.skip(j + 1),
            raw,
        ),
{
    lemma_join_concat(ts.take(j), ts.skip(j), raw);
    assert(ts.take(j) + ts.skip(j) =~= ts);
    lemma_join_concat(seq![ts[j]], ts.skip(j + 1), raw);
    assert(seq![ts[j]] + ts.skip(j + 1) =~= ts.skip(j));
    lemma_join_one(ts[j], raw);
    assert(join_tokens(ts.take(j), raw) + (token_text(ts[j], raw) + join_tokens(ts.skip(j + 1), raw))
        =~= join_tokens(ts.take(j), raw) + token_text(ts[j], raw) + join_tokens(ts.skip(j + 1), raw));
}

/// An argument whose unescaped text holds exactly one separator character,
/// at character `n` of text token `j`, parses as the one-character separator
/// that this character is. With the escaping backslashes removed, the key is
/// exactly what stands before that character and the value exactly what
/// follows it; for an argument without backslashes these are the exact
/// substrings around it (`lemma_unescaped_plain`).
pub proof fn lemma_single_separator(s: Seq<char>, j: int, n: int)
    requires
        0 <= j < tokenize(s).len(),
        0 <= n < text_of(tokenize(s)[j]).len(),
        is_separator_char(text_of(tokenize(s)[j])[n]),
        forall|j2: int, n2: int|
            0 <= j2 < tokenize(s).len() && 0 <= n2 < text_of(tokenize(s)[j2]).len()
                && is_separator_char(#[trigger] text_of(tokenize(s)[j2])[n2]) ==> j2 == j && n2
                == n,
    ensures
        ({
            let u = join_tokens(tokenize(s), false);
            let q = join_tokens(tokenize(s).take(j), false).len() + n;
            &&& u[q] == text_of(tokenize(s)[j])[n]
            &&& classify(s) == Some((single_char_separator(u[q]), u.take(q), u.skip(q + 1)))
        }),
{
    let ts = tokenize(s);
    assert forall|j2: int| 0 <= j2 < j implies first_separator(#[trigger] text_of(ts[j2])) is None by {
        let t2 = text_of(ts[j2]);
        lemma_first_separator_fits(t2, 0);
        if let Some((p2, sep2)) = first_separator(t2) {
            lemma_separator_at_occurs(t2, p2);
            lemma_separator_chars(t2, p2, sep2);
            assert(is_separator_char(t2[p2 + 0]));
        }
    }
    lemma_winning_token_skips(ts, 0, j);
    let t = text_of(ts[j]);
    assert(ts[j] is Text);
    assert forall|n2: int| 0 <= n2 < t.len() && is_separator_char(#[trigger] t[n2]) implies n2
        == n by {}
    lemma_only_separator_char(t, n);
    assert(winning_token(ts, j) == Some((j, n, single_char_separator(t[n]))));
    lemma_join_around(ts, j, false);
    let f = join_tokens(ts.take(j), false);
    let g = join_tokens(ts.skip(j + 1), false);
    let u = join_tokens(ts, false);
    assert(token_text(ts[j], false) == t);
    let q = f.len() + n;
    assert(u[q] == t[n]);
    assert(u.take(q) =~= f + t.take(n));
    assert(u.skip(q + 1) =~= t.skip(n + 1) + g);
}

} // verus!
