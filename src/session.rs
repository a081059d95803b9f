//! The session store: the client-held token that carries the session's key
//! as a JSON object with string members `key` and `key_id`.
use vstd::prelude::*;
use crate::credential::KeyCreateData;
use crate::json::{
    chars_of, escape, lemma_scan_escape, literal_at, push_quoted, quoted, read_literal,
    skip_whitespace, skip_ws, string_of,
};
use crate::json_value::{skip_value, value_end};

verus! {

/// The member name that holds the key.
pub open spec fn key_name() -> Seq<char> {
    "key"@
}

/// The member name that holds the key's identifier.
pub open spec fn key_id_name() -> Seq<char> {
    "key_id"@
}

/// The token that carries the key `key` with identifier `key_id`: the
/// compact JSON object with those two members, in that order.
pub open spec fn token_of(key: Seq<char>, key_id: Seq<char>) -> Seq<char> {
    seq!['{'] + quoted(key_name()) + seq![':'] + quoted(key) + seq![','] + quoted(key_id_name())
        + seq![':'] + quoted(key_id) + seq!['}']
}

/// Reads the members of an object from the one at `i` on, with the key and
/// identifier found so far. Gives both, and the position past the closing
/// brace, when each was found exactly once as a string. Members of other
/// names may hold any JSON value and are passed over; a value cannot nest
/// deeper than the text is long, so its depth is bounded by that length.
pub open spec fn fields(
    t: Seq<char>,
    i: int,
    key: Option<Seq<char>>,
    key_id: Option<Seq<char>>,
) -> Option<(Seq<char>, Seq<char>, int)>
    decreases t.len() - i,
{
    if i < 0 || i >= t.len() {
        None
    } else {
        match literal_at(t, i) {
            None => None,
            Some((name, j)) => {
                let k = skip_ws(t, j);
                if !(0 <= k < t.len() && t[k] == ':') {
                    None
                } else {
                    let v = skip_ws(t, k + 1);
                    let read: Option<(Option<Seq<char>>, Option<Seq<char>>, int)> = if name
                        == key_name() {
                        match (key, literal_at(t, v)) {
                            (None, Some((s, e))) => Some((Some(s), key_id, e)),
                            _ => None,
                        }
                    } else if name == key_id_name() {
                        match (key_id, literal_at(t, v)) {
                            (None, Some((s, e))) => Some((key, Some(s), e)),
                            _ => None,
                        }
                    } else {
                        match value_end(t, v, t.len()) {
                            Some(e) => Some((key, key_id, e)),
                            None => None,
                        }
                    };
                    match read {
                        None => None,
                        Some((key2, key_id2, e)) => {
                            let m = skip_ws(t, e);
                            if 0 <= m < t.len() && t[m] == ',' {
                                let n = skip_ws(t, m + 1);
                                if i < n < t.len() {
                                    fields(t, n, key2, key_id2)
                                } else {
                                    None
                                }
                            } else if 0 <= m < t.len() && t[m] == '}' {
                                match (key2, key_id2) {
                                    (Some(a), Some(b)) => Some((a, b, m + 1)),
                                    _ => None,
                                }
                            } else {
                                None
                            }
                        },
                    }
                }
            },
        }
    }
}

/// The two strings of the array whose elements start at `i`, and the
/// position past its closing bracket.
pub open spec fn pair_elements(t: Seq<char>, i: int) -> Option<(Seq<char>, Seq<char>, int)> {
    match literal_at(t, i) {
        None => None,
        Some((key, j)) => {
            let m = skip_ws(t, j);
            if !(0 <= m < t.len() && t[m] == ',') {
                None
            } else {
                match literal_at(t, skip_ws(t, m + 1)) {
                    None => None,
                    Some((key_id, e)) => {
                        let n = skip_ws(t, e);
                        if 0 <= n < t.len() && t[n] == ']' {
                            Some((key, key_id, n + 1))
                        } else {
                            None
                        }
                    },
                }
            }
        },
    }
}

/// The key and identifier that the token `t` carries: `t` is, up to
/// whitespace around it, a JSON object whose `key` and `key_id` members are
/// strings, or an array of exactly those two strings in that order. `None`
/// for any other text.
pub open spec fn parse_token(t: Seq<char>) -> Option<(Seq<char>, Seq<char>)> {
    let i = skip_ws(t, 0);
    if 0 <= i < t.len() && t[i] == '[' {
        match pair_elements(t, skip_ws(t, i + 1)) {
            Some((key, key_id, e)) => if skip_ws(t, e) == t.len() {
                Some((key, key_id))
            } else {
                None
            },
            None => None,
        }
    } else if !(0 <= i < t.len() && t[i] == '{') {
        None
    } else {
        match fields(t, skip_ws(t, i + 1), None, None) {
            Some((key, key_id, e)) => if skip_ws(t, e) == t.len() {
                Some((key, key_id))
            } else {
                None
            },
            None => None,
        }
    }
}

/// The key that a session whose token is `token` holds.
pub open spec fn held_key(token: Option<Seq<char>>) -> Option<(Seq<char>, Seq<char>)> {
    match token {
        None => None,
        Some(t) => parse_token(t),
    }
}

/// The literal for `s` that stands at `a` in `t` reads back as `s`.
proof fn lemma_literal_in(t: Seq<char>, a: int, s: Seq<char>)
    requires
        0 <= a,
        a + quoted(s).len() <= t.len(),
        t.subrange(a, a + quoted(s).len()) == quoted(s),
    ensures
        literal_at(t, a) == Some((s, a + quoted(s).len())),
{
    let q = quoted(s);
    let p = t.subrange(0, a + 1);
    let rest = t.subrange(a + q.len(), t.len() as int);
    assert(t[a] == q[0]);
    assert(t =~= p + escape(s) + seq!['"'] + rest) by {
        assert(t =~= t.subrange(0, a) + q + rest);
    }
    lemma_scan_escape(p, s, rest, Seq::empty());
    assert(Seq::<char>::empty() + s =~= s);
}

/// A key and identifier read back from the token written for them are the
/// same key and identifier.
pub proof fn lemma_token_round_trip(key: Seq<char>, key_id: Seq<char>)
    ensures
        parse_token(token_of(key, key_id)) == Some((key, key_id)),
{
    let t = token_of(key, key_id);
    let q0 = quoted(key_name());
    let q1 = quoted(key);
    let q2 = quoted(key_id_name());
    let q3 = quoted(key_id);
    let a1 = (1 + q0.len()) as int;
    let a2 = a1 + 1;
    let a3 = a2 + q1.len() as int;
    let a4 = a3 + 1;
    let a5 = a4 + q2.len() as int;
    let a6 = a5 + 1;
    let a7 = a6 + q3.len() as int;
    assert(t.len() == a7 + 1);
    assert(t.subrange(1, a1) =~= q0);
    assert(t.subrange(a2, a3) =~= q1);
    assert(t.subrange(a4, a5) =~= q2);
    assert(t.subrange(a6, a7) =~= q3);
    lemma_literal_in(t, 1, key_name());
    lemma_literal_in(t, a2, key);
    lemma_literal_in(t, a4, key_id_name());
    lemma_literal_in(t, a6, key_id);
    assert(t[0] == '{' && t[1] == '"' && t[a1] == ':' && t[a2] == '"' && t[a3] == ','
        && t[a4] == '"' && t[a5] == ':' && t[a6] == '"' && t[a7] == '}');
    assert(skip_ws(t, 0) == 0);
    assert(skip_ws(t, 1) == 1);
    assert(skip_ws(t, a1) == a1);
    assert(skip_ws(t, a2) == a2);
    assert(skip_ws(t, a3) == a3);
    assert(skip_ws(t, a4) == a4);
    assert(skip_ws(t, a5) == a5);
    assert(skip_ws(t, a6) == a6);
    assert(skip_ws(t, a7) == a7);
    assert(skip_ws(t, a7 + 1) == a7 + 1);
    reveal_strlit("key");
    reveal_strlit("key_id");
    assert(key_id_name() != key_name()) by {
        assert(key_id_name().len() != key_name().len());
    }
    assert(fields(t, a4, Some(key), None) == Some((key, key_id, a7 + 1)));
    assert(fields(t, 1, None, None) == Some((key, key_id, a7 + 1)));
}

/// Writes the token that carries `c`.
pub fn encode_token(c: &KeyCreateData) -> (r: String)
    ensures
        r@ == token_of(c.key@, c.key_id@),
{
    let mut out: Vec<char> = Vec::new();
    out.push('{');
    push_quoted(&mut out, &chars_of("key"));
    out.push(':');
    push_quoted(&mut out, &chars_of(c.key.as_str()));
    out.push(',');
    push_quoted(&mut out, &chars_of("key_id"));
    out.push(':');
    push_quoted(&mut out, &chars_of(c.key_id.as_str()));
    out.push('}');
    proof {
        assert(out@ =~= token_of(c.key@, c.key_id@));
    }
    string_of(&out)
}

/// The text of an optional piece of text.
pub open spec fn text_view(o: Option<Vec<char>>) -> Option<Seq<char>> {
    match o {
        Some(v) => Some(v@),
        None => None,
    }
}

/// Whether `a` and `b` hold the same characters.
fn same_text(a: &Vec<char>, b: &Vec<char>) -> (r: bool)
    ensures
        r == (a@ == b@),
{
    if a.len() != b.len() {
        return false;
    }
    let mut k: usize = 0;
    while k < a.len()
        invariant
            k <= a@.len(),
            a@.len() == b@.len(),
            forall|m: int| 0 <= m < k ==> a@[m] == b@[m],
        decreases a@.len() - k,
    {
        if a[k] != b[k] {
            return false;
        }
        k = k + 1;
    }
    assert(a@ =~= b@);
    true
}

/// Reads members from `i` on, the way `fields` says; `names` holds the
/// names of the key's member and of the identifier's.
fn read_fields(
    t: &Vec<char>,
    i: usize,
    key: Option<Vec<char>>,
    key_id: Option<Vec<char>>,
    names: &(Vec<char>, Vec<char>),
) -> (r: Option<(Vec<char>, Vec<char>, usize)>)
    requires
        names.0@ == key_name(),
        names.1@ == key_id_name(),
    ensures
        match r {
            Some((a, b, e)) => fields(t@, i as int, text_view(key), text_view(key_id)) == Some(
                (a@, b@, e as int),
            ),
            None => fields(t@, i as int, text_view(key), text_view(key_id)) is None,
        },
    decreases t@.len() - i,
{
    if i >= t.len() {
        return None;
    }
    let (name, j) = match read_literal(t, i) {
        Some(found) => found,
        None => {
            return None;
        },
    };
    let k = skip_whitespace(t, j);
    if !(k < t.len() && t[k] == ':') {
        return None;
    }
    let v = skip_whitespace(t, k + 1);
    let (key2, key_id2, e) = if same_text(&name, &names.0) {
        match (key, read_literal(t, v)) {
            (None, Some((s, e))) => (Some(s), key_id, e),
            _ => {
                return None;
            },
        }
    } else if same_text(&name, &names.1) {
        match (key_id, read_literal(t, v)) {
            (None, Some((s, e))) => (key, Some(s), e),
            _ => {
                return None;
            },
        }
    } else {
        match skip_value(t, v, t.len()) {
            Some(e) => (key, key_id, e),
            None => {
                return None;
            },
        }
    };
    let m = skip_whitespace(t, e);
    if m < t.len() && t[m] == ',' {
        let n = skip_whitespace(t, m + 1);
        if i < n && n < t.len() {
            read_fields(t, n, key2, key_id2, names)
        } else {
            None
        }
    } else if m < t.len() && t[m] == '}' {
        match (key2, key_id2) {
            (Some(a), Some(b)) => Some((a, b, m + 1)),
            _ => None,
        }
    } else {
        None
    }
}

/// Reads the two strings of an array from `i` on, the way `pair_elements`
/// says.
fn read_pair(t: &Vec<char>, i: usize) -> (r: Option<(Vec<char>, Vec<char>, usize)>)
    ensures
        match r {
            Some((a, b, e)) => pair_elements(t@, i as int) == Some((a@, b@, e as int)),
            None => pair_elements(t@, i as int) is None,
        },
{
    let (key, j) = match read_literal(t, i) {
        Some(found) => found,
        None => {
            return None;
        },
    };
    let m = skip_whitespace(t, j);
    if !(m < t.len() && t[m] == ',') {
        return None;
    }
    let (key_id, e) = match read_literal(t, skip_whitespace(t, m + 1)) {
        Some(found) => found,
        None => {
            return None;
        },
    };
    let n = skip_whitespace(t, e);
    if n < t.len() && t[n] == ']' {
        Some((key, key_id, n + 1))
    } else {
        None
    }
}

/// Reads the key that the token `token` carries; `None` for a token that is
/// not in a form `parse_token` reads.
pub fn decode_token(token: &str) -> (r: Option<KeyCreateData>)
    ensures
        match r {
            Some(c) => parse_token(token@) == Some((c.key@, c.key_id@)),
            None => parse_token(token@) is None,
        },
{
    let t = chars_of(token);
    let i = skip_whitespace(&t, 0);
    if i < t.len() && t[i] == '[' {
        return match read_pair(&t, skip_whitespace(&t, i + 1)) {
            Some((key, key_id, e)) => if skip_whitespace(&t, e) == t.len() {
                Some(KeyCreateData { key: string_of(&key), key_id: string_of(&key_id) })
            } else {
                None
            },
            None => None,
        };
    }
    if !(i < t.len() && t[i] == '{') {
        return None;
    }
    let names = (chars_of("key"), chars_of("key_id"));
    let start = skip_whitespace(&t, i + 1);
    match read_fields(&t, start, None, None, &names) {
        Some((key, key_id, e)) => if skip_whitespace(&t, e) == t.len() {
            Some(KeyCreateData { key: string_of(&key), key_id: string_of(&key_id) })
        } else {
            None
        },
        None => None,
    }
}

/// A client's session: the token it carries, if any.
#[derive(Clone, Debug, PartialEq, Eq)]
pub struct Session {
    pub token: Option<String>,
}

impl Session {
    /// The token as text.
    pub open spec fn token_view(&self) -> Option<Seq<char>> {
        match self.token {
            None => None,
            Some(t) => Some(t@),
        }
    }

    /// The key the session holds.
    pub open spec fn held(&self) -> Option<(Seq<char>, Seq<char>)> {
        held_key(self.token_view())
    }

    /// A session that carries no token, as on a first visit.
    pub fn new() -> (r: Session)
        ensures
            r.token_view() is None,
    {
        Session { token: None }
    }

    /// A session that carries `token`, as it came from the client.
    pub fn from_token(token: Option<String>) -> (r: Session)
        ensures
            r.token == token,
    {
        Session { token }
    }

    /// The key the session holds; `None` when it carries no token or one
    /// that cannot be read.
    pub fn get(&self) -> (r: Option<KeyCreateData>)
        ensures
            match r {
                Some(c) => self.held() == Some((c.key@, c.key_id@)),
                None => self.held() is None,
            },
    {
        match &self.token {
            None => None,
            Some(t) => decode_token(t.as_str()),
        }
    }

    /// Stores `c` in the session, replacing whatever it held.
    pub fn put(&mut self, c: &KeyCreateData)
        ensures
            final(self).token_view() == Some(token_of(c.key@, c.key_id@)),
            final(self).held() == Some((c.key@, c.key_id@)),
    {
        self.token = Some(encode_token(c));
        proof {
            lemma_token_round_trip(c.key@, c.key_id@);
        }
    }
}

} // verus!
