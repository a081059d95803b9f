//! Skipping over one JSON value of any kind, checking its grammar, as a
//! reader does with members it does not need.
use vstd::prelude::*;
use crate::json::{
    has_at, literal_at, occurs_at, read_literal, skip_whitespace, skip_ws,
};

verus! {

pub open spec fn is_digit(c: char) -> bool {
    '0' <= c && c <= '9'
}

/// The first position at or after `i` that holds no digit.
pub open spec fn digits_end(t: Seq<char>, i: int) -> int
    decreases t.len() - i,
{
    if 0 <= i < t.len() && is_digit(t[i]) {
        digits_end(t, i + 1)
    } else {
        i
    }
}

/// Where the optional exponent that may start at `f` ends; `None` when it
/// has no digits.
pub open spec fn exponent_end(t: Seq<char>, f: int) -> Option<int> {
    if 0 <= f < t.len() && (t[f] == 'e' || t[f] == 'E') {
        let s = if f + 1 < t.len() && (t[f + 1] == '+' || t[f + 1] == '-') {
            f + 2
        } else {
            f + 1
        };
        let m = digits_end(t, s);
        if m == s {
            None
        } else {
            Some(m)
        }
    } else {
        Some(f)
    }
}

/// Where the optional fraction that may start at `k` ends; `None` when it
/// has no digits.
pub open spec fn fraction_end(t: Seq<char>, k: int) -> Option<int> {
    if 0 <= k < t.len() && t[k] == '.' {
        let m = digits_end(t, k + 1);
        if m == k + 1 {
            None
        } else {
            Some(m)
        }
    } else {
        Some(k)
    }
}

/// Where the number that starts at `i` ends.
pub open spec fn number_end(t: Seq<char>, i: int) -> Option<int> {
    let j = if 0 <= i < t.len() && t[i] == '-' {
        i + 1
    } else {
        i
    };
    if !(0 <= j < t.len() && is_digit(t[j])) {
        None
    } else {
        let k = if t[j] == '0' {
            j + 1
        } else {
            digits_end(t, j + 1)
        };
        match fraction_end(t, k) {
            None => None,
            Some(f) => exponent_end(t, f),
        }
    }
}

/// Where the value that starts at `i` ends; arrays and objects may nest
/// `d` deep.
pub open spec fn value_end(t: Seq<char>, i: int, d: nat) -> Option<int>
    decreases d, t.len() - i, 0nat,
{
    if i < 0 || i >= t.len() {
        None
    } else if t[i] == '"' {
        match literal_at(t, i) {
            Some((_, j)) => Some(j),
            None => None,
        }
    } else if t[i] == '{' || t[i] == '[' {
        if d == 0 {
            None
        } else {
            let j = skip_ws(t, i + 1);
            if t[i] == '{' {
                if 0 <= j < t.len() && t[j] == '}' {
                    Some(j + 1)
                } else {
                    members_end(t, j, (d - 1) as nat)
                }
            } else {
                if 0 <= j < t.len() && t[j] == ']' {
                    Some(j + 1)
                } else {
                    elements_end(t, j, (d - 1) as nat)
                }
            }
        }
    } else if t[i] == 't' {
        if occurs_at(t, i, seq!['t', 'r', 'u', 'e']) {
            Some(i + 4)
        } else {
            None
        }
    } else if t[i] == 'f' {
        if occurs_at(t, i, seq!['f', 'a', 'l', 's', 'e']) {
            Some(i + 5)
        } else {
            None
        }
    } else if t[i] == 'n' {
        if occurs_at(t, i, seq!['n', 'u', 'l', 'l']) {
            Some(i + 4)
        } else {
            None
        }
    } else {
        number_end(t, i)
    }
}

/// Where the elements of an array that start at `i` end, past the `]`.
pub open spec fn elements_end(t: Seq<char>, i: int, d: nat) -> Option<int>
    decreases d, t.len() - i, 1nat,
{
    if i < 0 || i >= t.len() {
        None
    } else {
        match value_end(t, i, d) {
            None => None,
            Some(e) => {
                let m = skip_ws(t, e);
                if 0 <= m < t.len() && t[m] == ',' {
                    let n = skip_ws(t, m + 1);
                    if i < n < t.len() {
                        elements_end(t, n, d)
                    } else {
                        None
                    }
                } else if 0 <= m < t.len() && t[m] == ']' {
                    Some(m + 1)
                } else {
                    None
                }
            },
        }
    }
}

/// Where the members of an object that start at `i` end, past the `}`.
pub open spec fn members_end(t: Seq<char>, i: int, d: nat) -> Option<int>
    decreases d, t.len() - i, 1nat,
{
    if i < 0 || i >= t.len() {
        None
    } else {
        match literal_at(t, i) {
            None => None,
            Some((_, j)) => {
                let k = skip_ws(t, j);
                if 0 <= k < t.len() && t[k] == ':' {
                    let v = skip_ws(t, k + 1);
                    if !(i < v < t.len()) {
                        None
                    } else {
                        match value_end(t, v, d) {
                            None => None,
                            Some(e) => {
                                let m = skip_ws(t, e);
                                if 0 <= m < t.len() && t[m] == ',' {
                                    let n = skip_ws(t, m + 1);
                                    if i < n < t.len() {
                                        members_end(t, n, d)
                                    } else {
                                        None
                                    }
                                } else if 0 <= m < t.len() && t[m] == '}' {
                                    Some(m + 1)
                                } else {
                                    None
                                }
                            },
                        }
                    }
                } else {
                    None
                }
            },
        }
    }
}

/// Skips digits from `i` on, the way `digits_end` says.
fn skip_digits(t: &Vec<char>, i: usize) -> (r: usize)
    ensures
        r as int == digits_end(t@, i as int),
        i <= r,
        i <= t@.len() ==> r <= t@.len(),
{
    let mut k = i;
    while k < t.len() && '0' <= t[k] && t[k] <= '9'
        invariant
            i <= k,
            i <= t@.len() ==> k <= t@.len(),
            digits_end(t@, i as int) == digits_end(t@, k as int),
        decreases t@.len() - k,
    {
        k = k + 1;
    }
    k
}

/// Skips the number at `i`, the way `number_end` says.
pub fn skip_number(t: &Vec<char>, i: usize) -> (r: Option<usize>)
    requires
        i <= t@.len(),
    ensures
        match r {
            Some(e) => number_end(t@, i as int) == Some(e as int) && e <= t@.len(),
            None => number_end(t@, i as int) is None,
        },
{
    let j = if i < t.len() && t[i] == '-' {
        i + 1
    } else {
        i
    };
    if !(j < t.len() && '0' <= t[j] && t[j] <= '9') {
        return None;
    }
    let k = if t[j] == '0' {
        j + 1
    } else {
        skip_digits(t, j + 1)
    };
    let f = if k < t.len() && t[k] == '.' {
        let m = skip_digits(t, k + 1);
        if m == k + 1 {
            return None;
        }
        m
    } else {
        k
    };
    if f < t.len() && (t[f] == 'e' || t[f] == 'E') {
        let s = if f + 1 < t.len() && (t[f + 1] == '+' || t[f + 1] == '-') {
            f + 2
        } else {
            f + 1
        };
        let m = skip_digits(t, s);
        if m == s {
            None
        } else {
            Some(m)
        }
    } else {
        Some(f)
    }
}

/// Skips the value at `i`, the way `value_end` says.
pub fn skip_value(t: &Vec<char>, i: usize, d: usize) -> (r: Option<usize>)
    ensures
        match r {
            Some(e) => value_end(t@, i as int, d as nat) == Some(e as int) && e <= t@.len(),
            None => value_end(t@, i as int, d as nat) is None,
        },
    decreases d, t@.len() - i, 0nat,
{
    if i >= t.len() {
        return None;
    }
    let c = t[i];
    if c == '"' {
        match read_literal(t, i) {
            Some((_, j)) => Some(j),
            None => None,
        }
    } else if c == '{' || c == '[' {
        if d == 0 {
            return None;
        }
        let j = skip_whitespace(t, i + 1);
        if c == '{' {
            if j < t.len() && t[j] == '}' {
                Some(j + 1)
            } else {
                skip_members(t, j, d - 1)
            }
        } else {
            if j < t.len() && t[j] == ']' {
                Some(j + 1)
            } else {
                skip_elements(t, j, d - 1)
            }
        }
    } else if c == 't' {
        if has_at(t, i, &vec!['t', 'r', 'u', 'e']) {
            Some(i + 4)
        } else {
            None
        }
    } else if c == 'f' {
        if has_at(t, i, &vec!['f', 'a', 'l', 's', 'e']) {
            Some(i + 5)
        } else {
            None
        }
    } else if c == 'n' {
        if has_at(t, i, &vec!['n', 'u', 'l', 'l']) {
            Some(i + 4)
        } else {
            None
        }
    } else {
        skip_number(t, i)
    }
}

/// Skips the elements of an array from `i` on, the way `elements_end` says.
fn skip_elements(t: &Vec<char>, i: usize, d: usize) -> (r: Option<usize>)
    ensures
        match r {
            Some(e) => elements_end(t@, i as int, d as nat) == Some(e as int) && e <= t@.len(),
            None => elements_end(t@, i as int, d as nat) is None,
        },
    decreases d, t@.len() - i, 1nat,
{
    if i >= t.len() {
        return None;
    }
    let e = match skip_value(t, i, d) {
        Some(e) => e,
        None => {
            return None;
        },
    };
    let m = skip_whitespace(t, e);
    if m < t.len() && t[m] == ',' {
        let n = skip_whitespace(t, m + 1);
        if i < n && n < t.len() {
            skip_elements(t, n, d)
        } else {
            None
        }
    } else if m < t.len() && t[m] == ']' {
        Some(m + 1)
    } else {
        None
    }
}

/// Skips the members of an object from `i` on, the way `members_end` says.
fn skip_members(t: &Vec<char>, i: usize, d: usize) -> (r: Option<usize>)
    ensures
        match r {
            Some(e) => members_end(t@, i as int, d as nat) == Some(e as int) && e <= t@.len(),
            None => members_end(t@, i as int, d as nat) is None,
        },
    decreases d, t@.len() - i, 1nat,
{
    if i >= t.len() {
        return None;
    }
    let j = match read_literal(t, i) {
        Some((_, j)) => j,
        None => {
            return None;
        },
    };
    let k = skip_whitespace(t, j);
    if !(k < t.len() && t[k] == ':') {
        return None;
    }
    let v = skip_whitespace(t, k + 1);
    if !(i < v && v < t.len()) {
        return None;
    }
    let e = match skip_value(t, v, d) {
        Some(e) => e,
        None => {
            return None;
        },
    };
    let m = skip_whitespace(t, e);
    if m < t.len() && t[m] == ',' {
        let n = skip_whitespace(t, m + 1);
        if i < n && n < t.len() {
            skip_members(t, n, d)
        } else {
            None
        }
    } else if m < t.len() && t[m] == '}' {
        Some(m + 1)
    } else {
        None
    }
}

} // verus!
