//! The textual building blocks of the service's wire format: optional
//! whitespace, quoted strings with escapes, unsigned numbers, and fixed
//! literals. Each piece has a specification-level reading of the text and
//! an executable parser proved to agree with it.

use vstd::prelude::*;

use crate::text::str_chars;

verus! {

pub open spec fn is_ws(c: char) -> bool {
    c == ' ' || c == '\n' || c == '\r' || c == '\t'
}

/// First position at or after `i` holding no whitespace.
pub open spec fn skip_ws(s: Seq<char>, i: int) -> int
    decreases s.len() - i
    when 0 <= i <= s.len()
{
    if i < s.len() && is_ws(s[i]) {
        skip_ws(s, i + 1)
    } else {
        i
    }
}

/// The character named by a single-character escape, if the escape exists.
pub open spec fn esc_char(c: char) -> Option<char> {
    if c == '"' {
        Some('"')
    } else if c == '\\' {
        Some('\\')
    } else if c == '/' {
        Some('/')
    } else if c == 'n' {
        Some('\n')
    } else if c == 't' {
        Some('\t')
    } else if c == 'r' {
        Some('\r')
    } else if c == 'b' {
        Some('\u{08}')
    } else if c == 'f' {
        Some('\u{0C}')
    } else {
        None
    }
}

pub open spec fn is_digit(c: char) -> bool {
    48 <= c as u32 <= 57
}

pub open spec fn digit(c: char) -> int {
    c as u32 - 48
}

/// Value of a hexadecimal digit, or -1 for any other character.
pub open spec fn hex_val(c: char) -> int {
    if is_digit(c) {
        digit(c)
    } else if 97 <= c as u32 <= 102 {
        c as u32 - 87
    } else if 65 <= c as u32 <= 70 {
        c as u32 - 55
    } else {
        -1
    }
}

/// Reads a string body starting just after the opening quote, up to and
/// including the closing quote: the decoded contents and the position
/// after the quote. Raw control characters and unknown escapes are
/// refused; `\uXXXX` is accepted for code points up to `U+00FF`.
pub open spec fn parse_str_body(s: Seq<char>, i: int) -> Option<(Seq<char>, int)>
    decreases s.len() - i
    when 0 <= i <= s.len()
{
    if i >= s.len() {
        None
    } else {
        let c = s[i];
        if c == '"' {
            Some((Seq::empty(), i + 1))
        } else if c == '\\' {
            if i + 1 < s.len() {
                let e = s[i + 1];
                if e == 'u' {
                    if s.len() - i >= 6 && hex_val(s[i + 2]) >= 0 && hex_val(s[i + 3]) >= 0
                        && hex_val(s[i + 4]) >= 0 && hex_val(s[i + 5]) >= 0 && 4096 * hex_val(
                        s[i + 2],
                    ) + 256 * hex_val(s[i + 3]) + 16 * hex_val(s[i + 4]) + hex_val(s[i + 5])
                        <= 255 {
                        let ch = ((4096 * hex_val(s[i + 2]) + 256 * hex_val(s[i + 3]) + 16
                            * hex_val(s[i + 4]) + hex_val(s[i + 5])) as u8) as char;
                        match parse_str_body(s, i + 6) {
                            Some((t, j)) => Some((seq![ch] + t, j)),
                            None => None,
                        }
                    } else {
                        None
                    }
                } else {
                    match esc_char(e) {
                        Some(c2) => match parse_str_body(s, i + 2) {
                            Some((t, j)) => Some((seq![c2] + t, j)),
                            None => None,
                        },
                        None => None,
                    }
                }
            } else {
                None
            }
        } else if (c as u32) < 32 {
            None
        } else {
            match parse_str_body(s, i + 1) {
                Some((t, j)) => Some((seq![c] + t, j)),
                None => None,
            }
        }
    }
}

/// A quoted string after optional whitespace.
pub open spec fn parse_string(s: Seq<char>, i: int) -> Option<(Seq<char>, int)> {
    let j = skip_ws(s, i);
    if j < s.len() && s[j] == '"' {
        parse_str_body(s, j + 1)
    } else {
        None
    }
}

/// A single punctuation character after optional whitespace.
pub open spec fn tok(s: Seq<char>, i: int, c: char) -> Option<int> {
    let j = skip_ws(s, i);
    if j < s.len() && s[j] == c {
        Some(j + 1)
    } else {
        None
    }
}

/// The exact characters of `lit` at position `i`.
pub open spec fn expect(s: Seq<char>, i: int, lit: Seq<char>) -> Option<int> {
    if 0 <= i && i + lit.len() <= s.len() && s.subrange(i, i + lit.len()) == lit {
        Some(i + lit.len())
    } else {
        None
    }
}

/// An object member's opening: its quoted key, then a colon, each after
/// optional whitespace. `qkey` carries the quotes.
pub open spec fn member_key(s: Seq<char>, i: int, qkey: Seq<char>) -> Option<int> {
    let j = skip_ws(s, i);
    match expect(s, j, qkey) {
        None => None,
        Some(k) => tok(s, k, ':'),
    }
}

/// End of the run of decimal digits starting at `i`.
pub open spec fn digits_end(s: Seq<char>, i: int) -> int
    decreases s.len() - i
    when 0 <= i <= s.len()
{
    if i < s.len() && is_digit(s[i]) {
        digits_end(s, i + 1)
    } else {
        i
    }
}

/// Value of the digits in positions `i..j`.
pub open spec fn digits_val(s: Seq<char>, i: int, j: int) -> int
    decreases j - i,
{
    if j <= i {
        0
    } else {
        10 * digits_val(s, i, j - 1) + digit(s[j - 1])
    }
}

/// An unsigned number after optional whitespace: a non-empty digit run
/// whose value fits in a machine word.
pub open spec fn parse_u64(s: Seq<char>, i: int) -> Option<(u64, int)> {
    let j0 = skip_ws(s, i);
    let j = digits_end(s, j0);
    if j0 < j && digits_val(s, j0, j) <= u64::MAX {
        Some((digits_val(s, j0, j) as u64, j))
    } else {
        None
    }
}

proof fn lemma_digits_val_nonneg(s: Seq<char>, i: int, j: int)
    requires
        forall|k: int| i <= k < j ==> is_digit(s[k]),
    ensures
        digits_val(s, i, j) >= 0,
    decreases j - i,
{
    if j > i {
        lemma_digits_val_nonneg(s, i, j - 1);
    }
}

fn exec_is_digit(c: char) -> (r: bool)
    ensures
        r == is_digit(c),
{
    let u = c as u32;
    48 <= u && u <= 57
}

fn exec_is_ws(c: char) -> (r: bool)
    ensures
        r == is_ws(c),
{
    c == ' ' || c == '\n' || c == '\r' || c == '\t'
}

/// Executable form of `skip_ws`.
pub(crate) fn p_ws(v: &Vec<char>, i: usize) -> (j: usize)
    requires
        i <= v@.len(),
    ensures
        j == skip_ws(v@, i as int),
        i <= j <= v@.len(),
{
    let n = v.len();
    let mut j = i;
    while j < n && exec_is_ws(v[j])
        invariant
            i <= j <= n == v@.len(),
            skip_ws(v@, i as int) == skip_ws(v@, j as int),
        decreases n - j,
    {
        j = j + 1;
    }
    j
}

/// Executable form of `parse_str_body`.
pub(crate) fn p_str_body(v: &Vec<char>, i: usize) -> (r: Option<(Vec<char>, usize)>)
    requires
        i <= v@.len(),
    ensures
        (r matches Some(p) ==> parse_str_body(v@, i as int) matches Some(q) && p.0@ == q.0 && p.1
            == q.1 && i < p.1 <= v@.len()),
        (r is None ==> parse_str_body(v@, i as int) is None),
    decreases v@.len() - i,
{
    let n = v.len();
    if i >= n {
        return None;
    }
    let c = v[i];
    if c == '"' {
        let out: Vec<char> = Vec::new();
        proof {
            assert(out@ =~= Seq::<char>::empty());
        }
        return Some((out, i + 1));
    }
    if c == '\\' {
        if n - i < 2 {
            return None;
        }
        let e = v[i + 1];
        if e == 'u' {
            if n - i < 6 {
                return None;
            }
            let h0 = hex_at(v, i + 2);
            let h1 = hex_at(v, i + 3);
            let h2 = hex_at(v, i + 4);
            let h3 = hex_at(v, i + 5);
            match (h0, h1, h2, h3) {
                (Some(a), Some(b), Some(c2), Some(d)) => {
                    let val: u32 = 4096 * a as u32 + 256 * b as u32 + 16 * c2 as u32 + d as u32;
                    if val > 255 {
                        return None;
                    }
                    let ch = (val as u8) as char;
                    match p_str_body(v, i + 6) {
                        Some((rest, j)) => {
                            let mut out: Vec<char> = Vec::new();
                            out.push(ch);
                            let mut rest = rest;
                            out.append(&mut rest);
                            proof {
                                let q = parse_str_body(v@, i as int + 6)->Some_0;
                                assert(out@ =~= seq![ch] + q.0);
                            }
                            Some((out, j))
                        },
                        None => None,
                    }
                },
                _ => None,
            }
        } else {
            let mapped: Option<char> = if e == '"' {
                Some('"')
            } else if e == '\\' {
                Some('\\')
            } else if e == '/' {
                Some('/')
            } else if e == 'n' {
                Some('\n')
            } else if e == 't' {
                Some('\t')
            } else if e == 'r' {
                Some('\r')
            } else if e == 'b' {
                Some('\u{08}')
            } else if e == 'f' {
                Some('\u{0C}')
            } else {
                None
            };
            proof {
                assert(mapped == esc_char(e));
            }
            match mapped {
                Some(c2) => match p_str_body(v, i + 2) {
                    Some((rest, j)) => {
                        let mut out: Vec<char> = Vec::new();
                        out.push(c2);
                        let mut rest = rest;
                        out.append(&mut rest);
                        proof {
                            let q = parse_str_body(v@, i as int + 2)->Some_0;
                            assert(out@ =~= seq![c2] + q.0);
                        }
                        Some((out, j))
                    },
                    None => None,
                },
                None => None,
            }
        }
    } else if (c as u32) < 32 {
        None
    } else {
        match p_str_body(v, i + 1) {
            Some((rest, j)) => {
                let mut out: Vec<char> = Vec::new();
                out.push(c);
                let mut rest = rest;
                out.append(&mut rest);
                proof {
                    let q = parse_str_body(v@, i as int + 1)->Some_0;
                    assert(out@ =~= seq![c] + q.0);
                }
                Some((out, j))
            },
            None => None,
        }
    }
}

/// Value of the hexadecimal digit at `j`, if it is one.
fn hex_at(v: &Vec<char>, j: usize) -> (r: Option<u16>)
    requires
        j < v@.len(),
    ensures
        r is Some <==> hex_val(v@[j as int]) >= 0,
        r matches Some(d) ==> d == hex_val(v@[j as int]) && d <= 15,
{
    let u = v[j] as u32;
    if 48 <= u && u <= 57 {
        Some((u - 48) as u16)
    } else if 97 <= u && u <= 102 {
        Some((u - 87) as u16)
    } else if 65 <= u && u <= 70 {
        Some((u - 55) as u16)
    } else {
        None
    }
}

/// Executable form of `parse_string`.
pub(crate) fn p_string(v: &Vec<char>, i: usize) -> (r: Option<(Vec<char>, usize)>)
    requires
        i <= v@.len(),
    ensures
        (r matches Some(p) ==> parse_string(v@, i as int) matches Some(q) && p.0@ == q.0 && p.1
            == q.1 && i < p.1 <= v@.len()),
        (r is None ==> parse_string(v@, i as int) is None),
{
    let n = v.len();
    let j = p_ws(v, i);
    if j < n && v[j] == '"' {
        p_str_body(v, j + 1)
    } else {
        None
    }
}

/// Executable form of `tok`.
pub(crate) fn p_tok(v: &Vec<char>, i: usize, c: char) -> (r: Option<usize>)
    requires
        i <= v@.len(),
    ensures
        (r matches Some(j) ==> tok(v@, i as int, c) == Some(j as int) && i < j <= v@.len()),
        (r is None ==> tok(v@, i as int, c) is None),
{
    let n = v.len();
    let j = p_ws(v, i);
    if j < n && v[j] == c {
        Some(j + 1)
    } else {
        None
    }
}

/// Executable form of `expect`.
pub(crate) fn p_lit(v: &Vec<char>, i: usize, lit: &str) -> (r: Option<usize>)
    requires
        i <= v@.len(),
    ensures
        (r matches Some(j) ==> expect(v@, i as int, lit@) == Some(j as int) && i <= j <= v@.len()),
        (r is None ==> expect(v@, i as int, lit@) is None),
{
    let lv = str_chars(lit);
    let m = lv.len();
    let n = v.len();
    if n - i < m {
        return None;
    }
    let mut k: usize = 0;
    while k < m
        invariant
            0 <= k <= m == lv@.len(),
            lv@ == lit@,
            i + m <= n == v@.len(),
            forall|t: int| 0 <= t < k ==> v@[i + t] == lit@[t],
        decreases m - k,
    {
        if v[i + k] != lv[k] {
            proof {
                assert(v@.subrange(i as int, i as int + lit@.len())[k as int] != lit@[k as int]);
            }
            return None;
        }
        k = k + 1;
    }
    proof {
        assert(v@.subrange(i as int, i as int + lit@.len()) =~= lit@);
    }
    Some(i + m)
}

/// Executable form of `member_key`.
pub(crate) fn p_member_key(v: &Vec<char>, i: usize, qkey: &str) -> (r: Option<usize>)
    requires
        i <= v@.len(),
    ensures
        (r matches Some(j) ==> member_key(v@, i as int, qkey@) == Some(j as int) && i < j
            <= v@.len()),
        (r is None ==> member_key(v@, i as int, qkey@) is None),
{
    let j = p_ws(v, i);
    match p_lit(v, j, qkey) {
        None => None,
        Some(k) => p_tok(v, k, ':'),
    }
}

/// Executable form of `parse_u64`.
pub(crate) fn p_u64(v: &Vec<char>, i: usize) -> (r: Option<(u64, usize)>)
    requires
        i <= v@.len(),
    ensures
        (r matches Some(p) ==> parse_u64(v@, i as int) matches Some(q) && p.0 == q.0 && p.1 == q.1
            && i < p.1 <= v@.len()),
        (r is None ==> parse_u64(v@, i as int) is None),
{
    let n = v.len();
    let j0 = p_ws(v, i);
    let mut j = j0;
    let mut acc: u64 = 0;
    let mut overflowed = false;
    while j < n && exec_is_digit(v[j])
        invariant
            i <= j0 <= j <= n == v@.len(),
            j0 == skip_ws(v@, i as int),
            digits_end(v@, j0 as int) == digits_end(v@, j as int),
            forall|k: int| j0 <= k < j ==> is_digit(v@[k]),
            !overflowed ==> acc == digits_val(v@, j0 as int, j as int),
            overflowed ==> digits_val(v@, j0 as int, j as int) > u64::MAX,
        decreases n - j,
    {
        let d = (v[j] as u32 - 48) as u64;
        proof {
            lemma_digits_val_nonneg(v@, j0 as int, j as int);
            assert(digits_val(v@, j0 as int, j as int + 1) == 10 * digits_val(
                v@,
                j0 as int,
                j as int,
            ) + digit(v@[j as int]));
        }
        if !overflowed {
            match acc.checked_mul(10) {
                Some(t) => match t.checked_add(d) {
                    Some(t2) => {
                        acc = t2;
                    },
                    None => {
                        overflowed = true;
                    },
                },
                None => {
                    overflowed = true;
                },
            }
        }
        j = j + 1;
    }
    if overflowed || j == j0 {
        None
    } else {
        Some((acc, j))
    }
}

} // verus!
