//! The render cache's naming scheme: a deterministic, fixed-width key
//! computed from all four fields of a message summary, and the artifact
//! path under the process-scoped temporary directory. Equal summaries
//! always map to the same path, so re-rendering a message overwrites
//! its own artifact instead of accumulating files.

use vstd::prelude::*;

use crate::addr::addr_text;
use crate::osm::MessageInfo;
use crate::text::{dec_digits, dig_char, str_chars, string_from_chars};
use crate::timestamp::ts_text;

verus! {

/// One step of the 64-bit FNV-1a fold.
pub open spec fn fnv_step(h: u64, c: char) -> u64 {
    (h ^ (c as u64)).wrapping_mul(0x100000001b3u64)
}

/// 64-bit FNV-1a over a sequence of characters.
pub open spec fn fnv_hash(s: Seq<char>) -> u64
    decreases s.len(),
{
    if s.len() == 0 {
        0xcbf29ce484222325u64
    } else {
        fnv_step(fnv_hash(s.drop_last()), s.last())
    }
}

/// The character spelling a single hexadecimal digit.
pub open spec fn hex_digit(d: int) -> char {
    if d < 10 {
        dig_char(d)
    } else {
        ((87 + d) as u8) as char
    }
}

/// The fixed-width spelling of a hash: 16 hexadecimal digits, most
/// significant nibble first.
pub open spec fn hex16(h: u64) -> Seq<char> {
    Seq::new(16, |i: int| hex_digit(((h >> (((15 - i) * 4) as u64)) & 0xf) as int))
}

/// The text hashed for a summary: all four fields, joined with
/// separators.
pub open spec fn cache_encoding(m: MessageInfo) -> Seq<char> {
    dec_digits(m.id.0 as nat) + "|"@ + addr_text(m.from.login@, m.from.domain@) + "|"@ + m.subject@
        + "|"@ + ts_text(m.date)
}

/// The cache key of a summary: a pure function of its four fields.
pub open spec fn spec_key(m: MessageInfo) -> Seq<char> {
    hex16(fnv_hash(cache_encoding(m)))
}

/// The path a cache key names under the temporary directory.
pub open spec fn path_text(key: Seq<char>) -> Seq<char> {
    "/tmp/osm/"@ + key + ".html"@
}

/// The artifact path of a summary.
pub open spec fn tmp_file_path_text(m: MessageInfo) -> Seq<char> {
    path_text(spec_key(m))
}

/// The process-scoped directory holding rendered artifacts; recreated
/// empty at every start.
pub fn tmp_dir_path() -> (r: &'static str)
    ensures
        r@ == "/tmp/osm"@,
{
    "/tmp/osm"
}

proof fn lemma_nibble(x: u64)
    ensures
        x & 0xf < 16,
{
    assert(x & 0xf < 16) by (bit_vector);
}

fn hash_chars(v: &Vec<char>) -> (h: u64)
    ensures
        h == fnv_hash(v@),
{
    let n = v.len();
    let mut h: u64 = 0xcbf29ce484222325;
    let mut i: usize = 0;
    while i < n
        invariant
            0 <= i <= n == v@.len(),
            h == fnv_hash(v@.take(i as int)),
        decreases n - i,
    {
        h = (h ^ (v[i] as u64)).wrapping_mul(0x100000001b3);
        i = i + 1;
        proof {
            assert(v@.take(i as int).drop_last() =~= v@.take(i as int - 1));
            assert(v@.take(i as int).last() == v@[i as int - 1]);
        }
    }
    proof {
        assert(v@.take(n as int) =~= v@);
    }
    h
}

fn hex_digit_exec(d: u64) -> (c: char)
    requires
        d < 16,
    ensures
        c == hex_digit(d as int),
{
    if d < 10 {
        (48 + d as u8) as char
    } else {
        (87 + d as u8) as char
    }
}

fn hex16_exec(h: u64) -> (r: Vec<char>)
    ensures
        r@ == hex16(h),
{
    let mut r: Vec<char> = Vec::new();
    let mut k: usize = 0;
    while k < 16
        invariant
            0 <= k <= 16,
            r@.len() == k,
            forall|t: int| 0 <= t < k ==> r@[t] == hex16(h)[t],
        decreases 16 - k,
    {
        let shift: u64 = (60 - 4 * k) as u64;
        let nib = (h >> shift) & 0xf;
        proof {
            lemma_nibble(h >> shift);
        }
        r.push(hex_digit_exec(nib));
        k = k + 1;
    }
    proof {
        assert(r@ =~= hex16(h));
    }
    r
}

/// The stable cache key of a summary: hashing the encoding of all four
/// fields gives a fixed-width name, identical exactly when recomputed
/// from field-identical summaries.
pub fn key_for(m: &MessageInfo) -> (r: String)
    requires
        m.date.wf(),
    ensures
        r@ == spec_key(*m),
{
    let mut enc = m.id.to_dec_string();
    enc.append("|");
    let from = m.from.to_text();
    enc.append(from.as_str());
    enc.append("|");
    enc.append(m.subject.as_str());
    enc.append("|");
    let date = m.date.format();
    enc.append(date.as_str());
    proof {
        assert(enc@ =~= cache_encoding(*m));
    }
    let v = str_chars(enc.as_str());
    let h = hash_chars(&v);
    let hex = hex16_exec(h);
    string_from_chars(&hex)
}

/// The file a cache key names: `<key>.html` under the temporary
/// directory.
pub fn path_for(key: &str) -> (r: String)
    ensures
        r@ == path_text(key@),
{
    let mut r = String::from_str("/tmp/osm/");
    r.append(key);
    r.append(".html");
    proof {
        assert(r@ =~= path_text(key@));
    }
    r
}

/// The artifact path a summary renders to, under the temporary
/// directory, named by the summary's cache key.
pub fn get_tmp_file_path(m: &MessageInfo) -> (r: String)
    requires
        m.date.wf(),
    ensures
        r@ == tmp_file_path_text(*m),
{
    let key = key_for(m);
    path_for(key.as_str())
}

/// Cache determinism: the key, and with it the artifact path, is a
/// function of the summary's four fields alone, so field-equal
/// summaries — from the same listing or separate ones — name the same
/// artifact, and storing twice for the same summary writes one path.
pub proof fn lemma_key_deterministic(m1: MessageInfo, m2: MessageInfo)
    requires
        m1.id == m2.id,
        m1.from.login@ == m2.from.login@,
        m1.from.domain@ == m2.from.domain@,
        m1.subject@ == m2.subject@,
        m1.date == m2.date,
    ensures
        spec_key(m1) == spec_key(m2),
        tmp_file_path_text(m1) == tmp_file_path_text(m2),
{
    assert(cache_encoding(m1) == cache_encoding(m2));
}

} // verus!
