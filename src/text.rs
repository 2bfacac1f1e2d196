//! Character-level helpers shared by the parsers and the session store.
use vstd::prelude::*;

verus! {

/// Relies on `String::push`: appends one character to the end of the string.
#[verifier::external_body]
pub(crate) fn push_char(s: &mut String, c: char)
    ensures
        final(s)@ == old(s)@.push(c),
{
    s.push(c)
}

/// The characters of `s`, in order.
pub fn chars_of(s: &str) -> (r: Vec<char>)
    ensures
        r@ == s@,
{
    let mut r: Vec<char> = Vec::new();
    for c in it: s.chars()
        invariant
            it.seq() == s@,
            r@ == s@.take(it.index() as int),
    {
        r.push(c);
    }
    proof {
        assert(r@ =~= s@);
    }
    r
}

/// `b` appended to the path `a` as one more component: a `/` goes between
/// them unless `a` is empty or already ends with one.
pub open spec fn path_join(a: Seq<char>, b: Seq<char>) -> Seq<char> {
    if a.len() == 0 || a.last() == '/' {
        a + b
    } else {
        a + seq!['/'] + b
    }
}

/// Appends `b` to the path `a` as one more component.
pub fn join_path(a: &str, b: &str) -> (r: String)
    ensures
        r@ == path_join(a@, b@),
{
    let mut r = a.to_owned();
    let n = a.unicode_len();
    if n > 0 && a.get_char(n - 1) != '/' {
        push_char(&mut r, '/');
    }
    r.append(b);
    r
}

/// The ASCII lower-case form of `c`; other characters are kept.
pub open spec fn ascii_lower(c: char) -> char {
    if 'A' <= c && c <= 'Z' {
        ((c as u8) + 32) as char
    } else {
        c
    }
}

/// Whether `s` begins with `prefix`, comparing ASCII letters without regard
/// to case. `prefix` is taken to be in lower case.
pub open spec fn starts_with_lower(s: Seq<char>, prefix: Seq<char>) -> bool {
    prefix.len() <= s.len() && s.take(prefix.len() as int).map_values(|c: char| ascii_lower(c))
        == prefix
}

/// Whether `s` begins with the lower-case `prefix`, ignoring ASCII case in `s`.
pub fn has_prefix_ignore_ascii_case(s: &str, prefix: &str) -> (r: bool)
    ensures
        r == starts_with_lower(s@, prefix@),
{
    let cs = chars_of(s);
    let ps = chars_of(prefix);
    if ps.len() > cs.len() {
        return false;
    }
    let mut i: usize = 0;
    while i < ps.len()
        invariant
            ps@ == prefix@,
            cs@ == s@,
            ps@.len() <= cs@.len(),
            i <= ps@.len(),
            forall|m: int| 0 <= m < i ==> ascii_lower(cs@[m]) == ps@[m],
        decreases ps.len() - i,
    {
        let c = cs[i];
        let lower = if 'A' <= c && c <= 'Z' {
            ((c as u8) + 32) as char
        } else {
            c
        };
        if lower != ps[i] {
            proof {
                assert(s@.take(prefix@.len() as int).map_values(|c: char| ascii_lower(c))[i as int]
                    != prefix@[i as int]);
            }
            return false;
        }
        i = i + 1;
    }
    proof {
        assert(s@.take(prefix@.len() as int).map_values(|c: char| ascii_lower(c)) =~= prefix@);
    }
    true
}

} // verus!
