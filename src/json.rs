//! JSON string literals: escaping text into the body of a literal, and
//! scanning a literal back out of a character sequence.
use vstd::prelude::*;

verus! {

/// Whether `c` is a control character, which a JSON string may not hold raw.
pub open spec fn is_control(c: char) -> bool {
    (c as u32) < 0x20
}

/// Whether `c` is a hexadecimal digit, of either case.
pub open spec fn is_hex_digit(c: char) -> bool {
    ('0' <= c && c <= '9') || ('a' <= c && c <= 'f') || ('A' <= c && c <= 'F')
}

/// The value of the hexadecimal digit `c`.
pub open spec fn hex_value(c: char) -> u32 {
    if c <= '9' {
        (c as u32 - 0x30) as u32
    } else if c <= 'F' {
        (c as u32 - 0x37) as u32
    } else {
        (c as u32 - 0x57) as u32
    }
}

/// The number that four hexadecimal digits at `i` in `t` write.
pub open spec fn hex4(t: Seq<char>, i: int) -> Option<u32> {
    if 0 <= i && i + 4 <= t.len() && is_hex_digit(t[i]) && is_hex_digit(t[i + 1])
        && is_hex_digit(t[i + 2]) && is_hex_digit(t[i + 3]) {
        Some(
            (hex_value(t[i]) * 4096 + hex_value(t[i + 1]) * 256 + hex_value(t[i + 2]) * 16
                + hex_value(t[i + 3])) as u32,
        )
    } else {
        None
    }
}

pub open spec fn is_high_surrogate(n: u32) -> bool {
    0xD800 <= n <= 0xDBFF
}

pub open spec fn is_low_surrogate(n: u32) -> bool {
    0xDC00 <= n <= 0xDFFF
}

/// The character whose code is `n`, if `n` is a Unicode scalar value.
pub open spec fn scalar_char(n: u32) -> Option<char> {
    if vstd::utf8::is_scalar(n) {
        Some(n as char)
    } else {
        None
    }
}

/// The code that the surrogate pair `hi`, `lo` stands for.
pub open spec fn surrogate_pair(hi: u32, lo: u32) -> u32 {
    ((hi - 0xD800) * 0x400 + (lo - 0xDC00) + 0x10000) as u32
}

/// The escape that starts with the backslash at `i` in `t`: the character
/// it stands for and its length. A `\u` escape of a high surrogate must be
/// followed by one of a low surrogate; a lone surrogate is refused.
pub open spec fn escape_at(t: Seq<char>, i: int) -> Option<(char, int)> {
    if i < 0 || i + 1 >= t.len() {
        None
    } else {
        let d = t[i + 1];
        if d == '"' || d == '\\' || d == '/' {
            Some((d, 2))
        } else if d == 'b' {
            Some(('\u{8}', 2))
        } else if d == 'f' {
            Some(('\u{c}', 2))
        } else if d == 'n' {
            Some(('\n', 2))
        } else if d == 'r' {
            Some(('\r', 2))
        } else if d == 't' {
            Some(('\t', 2))
        } else if d == 'u' {
            match hex4(t, i + 2) {
                None => None,
                Some(n) => if is_low_surrogate(n) {
                    None
                } else if !is_high_surrogate(n) {
                    match scalar_char(n) {
                        Some(c) => Some((c, 6)),
                        None => None,
                    }
                } else if i + 7 < t.len() && t[i + 6] == '\\' && t[i + 7] == 'u' {
                    match hex4(t, i + 8) {
                        Some(lo) => if is_low_surrogate(lo) {
                            match scalar_char(surrogate_pair(n, lo)) {
                                Some(c) => Some((c, 12)),
                                None => None,
                            }
                        } else {
                            None
                        },
                        None => None,
                    }
                } else {
                    None
                },
            }
        } else {
            None
        }
    }
}

/// The lower-case hexadecimal digit for `d`, where `d < 16`.
pub open spec fn hex_digit(d: u32) -> char {
    if d < 10 {
        ((d + 0x30) as u8) as char
    } else {
        ((d + 0x57) as u8) as char
    }
}

/// How one character is written inside a JSON string literal.
pub open spec fn escape_char(c: char) -> Seq<char> {
    if c == '"' {
        seq!['\\', '"']
    } else if c == '\\' {
        seq!['\\', '\\']
    } else if c == '\u{8}' {
        seq!['\\', 'b']
    } else if c == '\t' {
        seq!['\\', 't']
    } else if c == '\n' {
        seq!['\\', 'n']
    } else if c == '\u{c}' {
        seq!['\\', 'f']
    } else if c == '\r' {
        seq!['\\', 'r']
    } else if is_control(c) {
        seq!['\\', 'u', '0', '0', hex_digit(c as u32 / 16), hex_digit(c as u32 % 16)]
    } else {
        seq![c]
    }
}

/// The body of the JSON string literal for `s` (without the quotes).
pub open spec fn escape(s: Seq<char>) -> Seq<char>
    decreases s.len(),
{
    if s.len() == 0 {
        Seq::empty()
    } else {
        escape_char(s[0]) + escape(s.subrange(1, s.len() as int))
    }
}

/// The JSON string literal for `s`, quotes included.
pub open spec fn quoted(s: Seq<char>) -> Seq<char> {
    seq!['"'] + escape(s) + seq!['"']
}

/// Reads the body of a string literal in `t` from position `i` on, with
/// `acc` already read. On success gives the text and the position just past
/// the closing quote. Raw control characters and malformed escapes are
/// refused.
pub open spec fn scan(t: Seq<char>, i: int, acc: Seq<char>) -> Option<(Seq<char>, int)>
    decreases t.len() - i,
{
    if i < 0 || i >= t.len() {
        None
    } else if t[i] == '"' {
        Some((acc, i + 1))
    } else if t[i] == '\\' {
        match escape_at(t, i) {
            Some((c, n)) => if n > 0 {
                scan(t, i + n, acc.push(c))
            } else {
                None
            },
            None => None,
        }
    } else if is_control(t[i]) {
        None
    } else {
        scan(t, i + 1, acc.push(t[i]))
    }
}

/// The string literal that opens `t` at position `i`: its text and the
/// position just past it.
pub open spec fn literal_at(t: Seq<char>, i: int) -> Option<(Seq<char>, int)> {
    if 0 <= i < t.len() && t[i] == '"' {
        scan(t, i + 1, Seq::empty())
    } else {
        None
    }
}

/// Escaping distributes over concatenation.
pub proof fn lemma_escape_concat(a: Seq<char>, b: Seq<char>)
    ensures
        escape(a + b) == escape(a) + escape(b),
    decreases a.len(),
{
    if a.len() == 0 {
        assert(a + b =~= b);
        assert(escape(a) + escape(b) =~= escape(b));
    } else {
        assert((a + b).subrange(1, (a + b).len() as int) =~= a.subrange(1, a.len() as int) + b);
        lemma_escape_concat(a.subrange(1, a.len() as int), b);
        assert(escape(a + b) =~= escape(a) + escape(b));
    }
}

/// Escaping one more character appends its escape.
pub proof fn lemma_escape_push(s: Seq<char>, c: char)
    ensures
        escape(s.push(c)) == escape(s) + escape_char(c),
{
    assert(s.push(c) =~= s + seq![c]);
    lemma_escape_concat(s, seq![c]);
    assert(seq![c].subrange(1, 1) =~= Seq::<char>::empty());
    assert(escape(Seq::<char>::empty()) =~= Seq::<char>::empty());
    assert(escape(seq![c]) =~= escape_char(c) + escape(Seq::<char>::empty()));
    assert(escape(seq![c]) =~= escape_char(c));
}

proof fn lemma_hex_round_trip(d: u32)
    requires
        d < 16,
    ensures
        is_hex_digit(hex_digit(d)),
        hex_value(hex_digit(d)) == d,
{
}

/// Scanning the escaped body of `s` followed by a quote yields `s` back and
/// stops just past that quote, whatever precedes or follows.
pub proof fn lemma_scan_escape(p: Seq<char>, s: Seq<char>, rest: Seq<char>, acc: Seq<char>)
    ensures
        scan(p + escape(s) + seq!['"'] + rest, p.len() as int, acc) == Some(
            (acc + s, (p.len() + escape(s).len() + 1) as int),
        ),
    decreases s.len(),
{
    let t = p + escape(s) + seq!['"'] + rest;
    let i = p.len() as int;
    if s.len() == 0 {
        assert(t[i] == '"');
        assert(acc + s =~= acc);
    } else {
        let c = s[0];
        let tail = s.subrange(1, s.len() as int);
        let e = escape_char(c);
        let p2 = p + e;
        assert(t =~= p2 + escape(tail) + seq!['"'] + rest);
        assert(acc.push(c) + tail =~= acc + s);
        lemma_scan_escape(p2, tail, rest, acc.push(c));
        if c == '"' || c == '\\' {
            assert(t[i] == '\\' && t[i + 1] == c);
        } else if c == '\u{8}' || c == '\t' || c == '\n' || c == '\u{c}' || c == '\r' {
            assert(t[i] == '\\' && t[i + 1] == e[1]);
        } else if is_control(c) {
            let v = c as u32;
            lemma_hex_round_trip(v / 16);
            lemma_hex_round_trip(v % 16);
            assert(t[i] == '\\' && t[i + 1] == 'u' && t[i + 2] == '0' && t[i + 3] == '0');
            assert(t[i + 4] == hex_digit(v / 16) && t[i + 5] == hex_digit(v % 16));
            assert(hex4(t, i + 2) == Some(v));
            vstd::utf8::char_u32_cast(c, v);
            vstd::utf8::char_is_scalar(c);
            assert(scalar_char(v) == Some(c));
        } else {
            assert(t[i] == c);
        }
    }
}

/// Reads the literal whose opening quote stands at `i`, the way `literal_at`
/// says.
pub fn read_literal(t: &Vec<char>, i: usize) -> (r: Option<(Vec<char>, usize)>)
    ensures
        match r {
            Some((s, j)) => literal_at(t@, i as int) == Some((s@, j as int)) && j <= t@.len(),
            None => literal_at(t@, i as int) is None,
        },
{
    if i >= t.len() || t[i] != '"' {
        return None;
    }
    let mut acc: Vec<char> = Vec::new();
    let mut k: usize = i + 1;
    while k < t.len()
        invariant
            i < k <= t@.len(),
            literal_at(t@, i as int) == scan(t@, k as int, acc@),
        decreases t@.len() - k,
    {
        let c = t[k];
        if c == '"' {
            return Some((acc, k + 1));
        } else if c == '\\' {
            match read_escape(t, k) {
                Some((e, n)) => {
                    acc.push(e);
                    k = k + n;
                },
                None => {
                    return None;
                },
            }
        } else if (c as u32) < 0x20 {
            return None;
        } else {
            acc.push(c);
            k = k + 1;
        }
    }
    None
}

/// Reads four hexadecimal digits at `i`, the way `hex4` says.
pub fn read_hex4(t: &Vec<char>, i: usize) -> (r: Option<u32>)
    ensures
        r == hex4(t@, i as int),
{
    if i > t.len() || t.len() - i < 4 {
        return None;
    }
    match (hex_value_of(t[i]), hex_value_of(t[i + 1]), hex_value_of(t[i + 2]), hex_value_of(t[i + 3])) {
        (Some(a), Some(b), Some(c), Some(d)) => Some(a * 4096 + b * 256 + c * 16 + d),
        _ => None,
    }
}

/// Reads the escape whose backslash stands at `i`, the way `escape_at` says.
pub fn read_escape(t: &Vec<char>, i: usize) -> (r: Option<(char, usize)>)
    ensures
        match r {
            Some((c, n)) => escape_at(t@, i as int) == Some((c, n as int)) && 2 <= n && i + n
                <= t@.len(),
            None => escape_at(t@, i as int) is None,
        },
{
    if i >= t.len() || t.len() - i < 2 {
        return None;
    }
    let d = t[i + 1];
    if d == '"' || d == '\\' || d == '/' {
        Some((d, 2))
    } else if d == 'b' {
        Some(('\u{8}', 2))
    } else if d == 'f' {
        Some(('\u{c}', 2))
    } else if d == 'n' {
        Some(('\n', 2))
    } else if d == 'r' {
        Some(('\r', 2))
    } else if d == 't' {
        Some(('\t', 2))
    } else if d == 'u' {
        let n = match read_hex4(t, i + 2) {
            Some(n) => n,
            None => {
                return None;
            },
        };
        if 0xDC00 <= n && n <= 0xDFFF {
            None
        } else if n < 0xD800 || n > 0xDBFF {
            match char_of(n) {
                Some(c) => Some((c, 6)),
                None => None,
            }
        } else if t.len() - i > 7 && t[i + 6] == '\\' && t[i + 7] == 'u' {
            match read_hex4(t, i + 8) {
                Some(lo) => if 0xDC00 <= lo && lo <= 0xDFFF {
                    match char_of((n - 0xD800) * 0x400 + (lo - 0xDC00) + 0x10000) {
                        Some(c) => Some((c, 12)),
                        None => None,
                    }
                } else {
                    None
                },
                None => None,
            }
        } else {
            None
        }
    } else {
        None
    }
}

/// The value of `c` as a hexadecimal digit, if it is one.
pub fn hex_value_of(c: char) -> (r: Option<u32>)
    ensures
        r == (if is_hex_digit(c) {
            Some(hex_value(c))
        } else {
            None::<u32>
        }),
        r matches Some(v) ==> v < 16,
{
    if '0' <= c && c <= '9' {
        Some((c as u32) - 0x30)
    } else if 'A' <= c && c <= 'F' {
        Some((c as u32) - 0x37)
    } else if 'a' <= c && c <= 'f' {
        Some((c as u32) - 0x57)
    } else {
        None
    }
}

/// Relies on `char::from_u32`: the character with code `n`, exactly when
/// `n` is a Unicode scalar value.
#[verifier::external_body]
fn char_of(n: u32) -> (r: Option<char>)
    ensures
        r == scalar_char(n),
{
    char::from_u32(n)
}

/// Appends the escaped form of `s` to `out`.
pub fn push_escaped(out: &mut Vec<char>, s: &Vec<char>)
    ensures
        final(out)@ == old(out)@ + escape(s@),
{
    let mut k: usize = 0;
    while k < s.len()
        invariant
            k <= s@.len(),
            out@ == old(out)@ + escape(s@.subrange(0, k as int)),
        decreases s@.len() - k,
    {
        let c = s[k];
        proof {
            lemma_escape_push(s@.subrange(0, k as int), c);
            assert(s@.subrange(0, k as int).push(c) =~= s@.subrange(0, k + 1));
        }
        if c == '"' || c == '\\' {
            out.push('\\');
            out.push(c);
        } else if c == '\u{8}' {
            out.push('\\');
            out.push('b');
        } else if c == '\t' {
            out.push('\\');
            out.push('t');
        } else if c == '\n' {
            out.push('\\');
            out.push('n');
        } else if c == '\u{c}' {
            out.push('\\');
            out.push('f');
        } else if c == '\r' {
            out.push('\\');
            out.push('r');
        } else if (c as u32) < 0x20 {
            let v = c as u32;
            out.push('\\');
            out.push('u');
            out.push('0');
            out.push('0');
            out.push(hex_digit_of(v / 16));
            out.push(hex_digit_of(v % 16));
        } else {
            out.push(c);
        }
        proof {
            assert(out@ =~= old(out)@ + escape(s@.subrange(0, k + 1)));
        }
        k = k + 1;
    }
    proof {
        assert(s@.subrange(0, k as int) =~= s@);
    }
}

/// The lower-case hexadecimal digit for `d`.
pub fn hex_digit_of(d: u32) -> (r: char)
    requires
        d < 16,
    ensures
        r == hex_digit(d),
{
    if d < 10 {
        ((d + 0x30) as u8) as char
    } else {
        ((d + 0x57) as u8) as char
    }
}

/// Appends the JSON string literal for `s`, quotes included, to `out`.
pub fn push_quoted(out: &mut Vec<char>, s: &Vec<char>)
    ensures
        final(out)@ == old(out)@ + quoted(s@),
{
    out.push('"');
    push_escaped(out, s);
    out.push('"');
    proof {
        assert(final(out)@ =~= old(out)@ + quoted(s@));
    }
}

/// Whether `c` is JSON whitespace.
pub open spec fn is_ws(c: char) -> bool {
    c == ' ' || c == '\n' || c == '\t' || c == '\r'
}

/// The first position at or after `i` that holds no whitespace.
pub open spec fn skip_ws(t: Seq<char>, i: int) -> int
    decreases t.len() - i,
{
    if 0 <= i < t.len() && is_ws(t[i]) {
        skip_ws(t, i + 1)
    } else {
        i
    }
}

/// Skips whitespace from `i` on, the way `skip_ws` says.
pub fn skip_whitespace(t: &Vec<char>, i: usize) -> (r: usize)
    ensures
        r as int == skip_ws(t@, i as int),
        i <= r,
        i <= t@.len() ==> r <= t@.len(),
{
    let mut k = i;
    while k < t.len() && (t[k] == ' ' || t[k] == '\n' || t[k] == '\t' || t[k] == '\r')
        invariant
            i <= k,
            i <= t@.len() ==> k <= t@.len(),
            skip_ws(t@, i as int) == skip_ws(t@, k as int),
        decreases t@.len() - k,
    {
        k = k + 1;
    }
    k
}

/// Whether `lit` stands in `t` at position `i`.
pub open spec fn occurs_at(t: Seq<char>, i: int, lit: Seq<char>) -> bool {
    0 <= i && i + lit.len() <= t.len() && t.subrange(i, i + lit.len()) == lit
}

/// Tests whether `lit` stands in `t` at position `i`.
pub fn has_at(t: &Vec<char>, i: usize, lit: &Vec<char>) -> (r: bool)
    ensures
        r == occurs_at(t@, i as int, lit@),
{
    if i > t.len() || t.len() - i < lit.len() {
        return false;
    }
    let mut k: usize = 0;
    while k < lit.len()
        invariant
            k <= lit@.len(),
            i + lit@.len() <= t@.len(),
            t@.len() <= usize::MAX,
            forall|m: int| 0 <= m < k ==> t@[i + m] == lit@[m],
        decreases lit@.len() - k,
    {
        if t[i + k] != lit[k] {
            assert(t@.subrange(i as int, i + lit@.len())[k as int] != lit@[k as int]);
            return false;
        }
        k = k + 1;
    }
    assert(t@.subrange(i as int, i + lit@.len()) =~= lit@);
    true
}

/// Relies on `str::chars`, collected into a `Vec`: the characters of `s` in
/// order.
#[verifier::external_body]
pub(crate) fn chars_of(s: &str) -> (r: Vec<char>)
    ensures
        r@ == s@,
{
    s.chars().collect()
}

/// Relies on `String`'s `FromIterator<&char>`: the characters of `v` in order.
#[verifier::external_body]
pub(crate) fn string_of(v: &Vec<char>) -> (r: String)
    ensures
        r@ == v@,
{
    v.iter().collect()
}

} // verus!
