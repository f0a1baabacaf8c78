//! Projects anchored on chain, as the subgraph reports them, and the radicle
//! URN that each anchor names.
use vstd::prelude::*;

use crate::oid::Oid;
use crate::text::{chars_of, has_prefix, string_of_range};

verus! {

/// Org identifier (Ethereum address).
pub type OrgId = String;

/// A radicle URN: the id of a project's identity, and a path within it.
#[derive(Debug, Clone)]
pub struct Urn {
    pub id: Oid,
    pub path: Option<String>,
}

/// The anchor of a project: the id of the anchored object, as hexadecimal
/// text, and its multihash.
#[derive(Debug, Clone)]
pub struct Anchor {
    pub object_id: String,
    pub multihash: String,
}

/// The org that anchored a project.
#[derive(Debug, Clone)]
pub struct Org {
    pub id: OrgId,
}

/// A project anchor event.
#[derive(Debug, Clone)]
pub struct Project {
    pub timestamp: u64,
    pub anchor: Anchor,
    pub org: Org,
}

/// Error parsing a Radicle URN.
#[derive(Debug, Clone)]
pub enum ParseUrnError {
    /// The id is not `0x` and the hexadecimal text of 32 bytes; the text is given.
    Invalid(String),
    /// A pair of characters is not a hexadecimal byte.
    Int,
}

// ---------------------------------------------------------------------------
// Hexadecimal bytes
// ---------------------------------------------------------------------------

/// Value of a byte that is an ASCII hexadecimal digit of either case, or -1.
pub open spec fn hex_digit_of_byte(b: u8) -> int {
    if 48 <= b <= 57 {
        b - 48
    } else if 97 <= b <= 102 {
        b - 87
    } else if 65 <= b <= 70 {
        b - 55
    } else {
        -1
    }
}

/// What `u8::from_str_radix(.., 16)` gives for a text of the two bytes `b0 b1`:
/// an optional `+` followed by hexadecimal digits.
pub open spec fn pair_value(b0: u8, b1: u8) -> Option<u8> {
    if b0 == 43 {
        if hex_digit_of_byte(b1) >= 0 {
            Some(hex_digit_of_byte(b1) as u8)
        } else {
            None
        }
    } else if hex_digit_of_byte(b0) >= 0 && hex_digit_of_byte(b1) >= 0 {
        Some((16 * hex_digit_of_byte(b0) + hex_digit_of_byte(b1)) as u8)
    } else {
        None
    }
}

/// The first even position from `i` on where no whole pair of bytes parses as
/// a hexadecimal byte (the end of `b` when every pair does).
pub open spec fn first_bad_pair(b: Seq<u8>, i: int) -> int
    decreases b.len() - i,
{
    if i < 0 || i >= b.len() {
        b.len() as int
    } else if i + 2 > b.len() || pair_value(b[i], b[i + 1]) is None {
        i
    } else {
        first_bad_pair(b, i + 2)
    }
}

/// A character of the encoded text starts at byte `i` (or `i` is its end).
pub open spec fn starts_char(b: Seq<u8>, i: int) -> bool {
    i == b.len() || !(128 <= b[i] < 192)
}

/// The bytes that the pairs of `b` give.
pub open spec fn pair_bytes(b: Seq<u8>) -> Seq<u8> {
    Seq::new(b.len() / 2, |j: int| pair_value(b[2 * j], b[2 * j + 1])->0)
}

/// Parsing the hexadecimal text `h` pair by pair would cut it in the middle
/// of a character (or past its end) before any pair fails to parse.
pub open spec fn hex_text_panics(h: Seq<char>) -> bool {
    let b = vstd::utf8::encode_utf8(h);
    let k = first_bad_pair(b, 0);
    k < b.len() && (k + 2 > b.len() || !starts_char(b, k + 2))
}

/// Reading the URN of `object_id` would panic.
pub open spec fn object_id_panics(object_id: Seq<char>) -> bool {
    has_prefix(object_id, "0x"@) && hex_text_panics(object_id.skip(2))
}

/// The result of reading the URN of an anchored object id.
pub open spec fn urn_result_ok(object_id: Seq<char>, r: Result<Urn, ParseUrnError>) -> bool {
    if !has_prefix(object_id, "0x"@) {
        r matches Err(ParseUrnError::Invalid(t)) && t@ == object_id
    } else {
        let h = object_id.skip(2);
        let b = vstd::utf8::encode_utf8(h);
        if first_bad_pair(b, 0) < b.len() {
            r matches Err(ParseUrnError::Int)
        } else if b.len() / 2 != 32 {
            r matches Err(ParseUrnError::Invalid(t)) && t@ == h
        } else {
            r matches Ok(urn) && urn.id.bytes@ == pair_bytes(b).skip(12) && urn.path is None
        }
    }
}

/// Parses two bytes as one hexadecimal byte, as `u8::from_str_radix` does.
fn parse_pair(b0: u8, b1: u8) -> (r: Option<u8>)
    ensures
        r == pair_value(b0, b1),
{
    let d1: i32 = digit_of(b1);
    if b0 == 43u8 {
        if d1 >= 0 {
            return Some(d1 as u8);
        }
        return None;
    }
    let d0: i32 = digit_of(b0);
    if d0 >= 0 && d1 >= 0 {
        Some((16 * d0 + d1) as u8)
    } else {
        None
    }
}

/// The value of a hexadecimal digit byte, or -1.
fn digit_of(b: u8) -> (r: i32)
    ensures
        r == hex_digit_of_byte(b),
{
    if 48 <= b && b <= 57 {
        (b - 48) as i32
    } else if 97 <= b && b <= 102 {
        (b - 87) as i32
    } else if 65 <= b && b <= 70 {
        (b - 55) as i32
    } else {
        -1
    }
}

impl Project {
    /// The URN of the anchored project: the object id is `0x` followed by the
    /// hexadecimal text of 32 bytes (Ethereum `bytes32`), of which the last 20
    /// are the git hash of the project's identity.
    pub fn urn(&self) -> (r: Result<Urn, ParseUrnError>)
        requires
            !object_id_panics(self.anchor.object_id@),
        ensures
            urn_result_ok(self.anchor.object_id@, r),
    {
        let chars = chars_of(self.anchor.object_id.as_str());
        proof {
            reveal_strlit("0x");
            assert("0x"@ =~= seq!['0', 'x']);
        }
        let ghost oid = self.anchor.object_id@;
        if !(chars.len() >= 2 && chars[0] == '0' && chars[1] == 'x') {
            proof {
                if has_prefix(oid, "0x"@) {
                    assert(oid.take(2)[0] == oid[0]);
                    assert(oid.take(2)[1] == oid[1]);
                }
            }
            return Err(ParseUrnError::Invalid(self.anchor.object_id.clone()));
        }
        assert(oid.take(2) =~= seq!['0', 'x']);
        assert(has_prefix(oid, "0x"@));
        let hex = string_of_range(chars.as_slice(), 2, chars.len());
        assert(hex@ =~= self.anchor.object_id@.skip(2));
        let b = hex.as_str().as_bytes();
        let ghost bs = b@;
        assert(bs == vstd::utf8::encode_utf8(hex@));
        let mut out: Vec<u8> = Vec::new();
        let mut i: usize = 0;
        while i < b.len()
            invariant
                b@ == bs,
                oid == self.anchor.object_id@,
                has_prefix(oid, "0x"@),
                hex@ == oid.skip(2),
                !hex_text_panics(hex@),
                bs == vstd::utf8::encode_utf8(hex@),
                i % 2 == 0,
                i <= bs.len(),
                first_bad_pair(bs, 0) == first_bad_pair(bs, i as int),
                out@.len() == i / 2,
                forall|j: int| 0 <= j < out@.len() ==> pair_value(bs[2 * j], bs[2 * j + 1]) == Some(#[trigger] out@[j]),
            decreases bs.len() - i,
        {
            if i + 2 > b.len() {
                assert(first_bad_pair(bs, i as int) == i);
                return Err(ParseUrnError::Int);
            }
            match parse_pair(b[i], b[i + 1]) {
                None => {
                    assert(first_bad_pair(bs, i as int) == i);
                    return Err(ParseUrnError::Int);
                },
                Some(v) => {
                    out.push(v);
                },
            }
            i = i + 2;
        }
        assert(first_bad_pair(bs, i as int) == bs.len());
        if out.len() != 32 {
            return Err(ParseUrnError::Invalid(hex));
        }
        let mut id = [0u8; 20];
        let mut k: usize = 0;
        while k < 20
            invariant
                out@.len() == 32,
                k <= 20,
                forall|j: int| 0 <= j < k ==> id@[j] == out@[12 + j],
            decreases 20 - k,
        {
            id[k] = out[12 + k];
            k = k + 1;
        }
        proof {
            assert(bs.len() / 2 == 32);
            assert(id@ =~= pair_bytes(bs).skip(12)) by {
                assert forall|j: int| 0 <= j < 20 implies id@[j] == pair_bytes(bs).skip(12)[j] by {
                    assert(pair_value(bs[2 * (12 + j)], bs[2 * (12 + j) + 1]) == Some(out@[12 + j]));
                }
            }
        }
        Ok(Urn { id: Oid { bytes: id }, path: None })
    }
}

/// Every pair from the even position `i` on parses: no pair fails to parse.
proof fn lemma_all_pairs_parse(b: Seq<u8>, i: int)
    requires
        0 <= i <= b.len(),
        b.len() % 2 == 0,
        i % 2 == 0,
        forall|k: int| 0 <= k < b.len() ==> hex_digit_of_byte(#[trigger] b[k]) >= 0,
    ensures
        first_bad_pair(b, i) == b.len(),
    decreases b.len() - i,
{
    if i < b.len() {
        assert(hex_digit_of_byte(b[i]) >= 0 && hex_digit_of_byte(b[i + 1]) >= 0);
        lemma_all_pairs_parse(b, i + 2);
    }
}

/// The value of a hexadecimal digit, read as a byte of its UTF-8 encoding.
proof fn lemma_hex_digit_byte(c: char)
    requires
        crate::oid::hex_digit_value(c) >= 0,
    ensures
        hex_digit_of_byte(c as u8) == crate::oid::hex_digit_value(c),
        (c as u8) as int == c as int,
{
}

/// The URN of an anchor `0x` + `a` + `c`, with `a` 24 and `c` 40 hexadecimal
/// digits, is the object id written by `c`, with no path: the leading 12
/// bytes of the anchor never matter, and reading it does not fail.
pub proof fn law_urn_ignores_leading_bytes(a: Seq<char>, c: Seq<char>)
    requires
        a.len() == 24,
        c.len() == 40,
        forall|i: int| 0 <= i < a.len() ==> crate::oid::hex_digit_value(#[trigger] a[i]) >= 0,
        forall|i: int| 0 <= i < c.len() ==> crate::oid::hex_digit_value(#[trigger] c[i]) >= 0,
    ensures
        !object_id_panics("0x"@ + a + c),
        forall|r: Result<Urn, ParseUrnError>|
            urn_result_ok("0x"@ + a + c, r) ==> (r matches Ok(u) && u.id.bytes@ == crate::oid::oid_bytes_of(c)
                && u.path is None),
{
    reveal_strlit("0x");
    let oid = "0x"@ + a + c;
    let h = a + c;
    assert(oid.take(2) =~= "0x"@);
    assert(oid.skip(2) =~= h);
    assert forall|i: int| 0 <= i < h.len() implies crate::oid::hex_digit_value(#[trigger] h[i]) >= 0 by {
        if i < 24 {
            assert(h[i] == a[i]);
        } else {
            assert(h[i] == c[i - 24]);
        }
    }
    assert(vstd::utf8::is_ascii_chars(h)) by {
        assert forall|i: int| 0 <= i < h.len() implies '\0' <= #[trigger] h[i] <= '\u{7f}' by {
            assert(crate::oid::hex_digit_value(h[i]) >= 0);
        }
    }
    vstd::utf8::is_ascii_chars_encode_utf8(h);
    let b = vstd::utf8::encode_utf8(h);
    assert(b.len() == 64);
    assert forall|k: int| 0 <= k < b.len() implies hex_digit_of_byte(#[trigger] b[k]) >= 0 by {
        assert(crate::oid::hex_digit_value(h[k]) >= 0);
        lemma_hex_digit_byte(h[k]);
        assert(h[k] as u8 == b[k]);
    }
    lemma_all_pairs_parse(b, 0);
    assert(!hex_text_panics(h));
    assert forall|j: int| 0 <= j < 20 implies pair_bytes(b).skip(12)[j] == #[trigger] crate::oid::oid_bytes_of(c)[j] by {
        let p0 = 24 + 2 * j;
        let p1 = 25 + 2 * j;
        assert(h[p0] == c[2 * j]);
        assert(h[p1] == c[2 * j + 1]);
        assert(crate::oid::hex_digit_value(c[2 * j]) >= 0);
        assert(crate::oid::hex_digit_value(c[2 * j + 1]) >= 0);
        lemma_hex_digit_byte(h[p0]);
        lemma_hex_digit_byte(h[p1]);
        assert(h[p0] as u8 == b[p0]);
        assert(h[p1] as u8 == b[p1]);
        assert(b[p0] != 43);
        assert(pair_bytes(b)[12 + j] == pair_value(b[2 * (12 + j)], b[2 * (12 + j) + 1])->0);
    }
    assert(pair_bytes(b).skip(12) =~= crate::oid::oid_bytes_of(c));
}

/// Two anchors that differ only in their leading 12 bytes (`0x` + `a` + `c`
/// and `0x` + `b` + `c`) give the same URN.
pub proof fn law_urn_same_for_any_leading_bytes(a: Seq<char>, b: Seq<char>, c: Seq<char>)
    requires
        a.len() == 24,
        b.len() == 24,
        c.len() == 40,
        forall|i: int| 0 <= i < a.len() ==> crate::oid::hex_digit_value(#[trigger] a[i]) >= 0,
        forall|i: int| 0 <= i < b.len() ==> crate::oid::hex_digit_value(#[trigger] b[i]) >= 0,
        forall|i: int| 0 <= i < c.len() ==> crate::oid::hex_digit_value(#[trigger] c[i]) >= 0,
    ensures
        forall|r: Result<Urn, ParseUrnError>, q: Result<Urn, ParseUrnError>|
            urn_result_ok("0x"@ + a + c, r) && urn_result_ok("0x"@ + b + c, q) ==> (r matches Ok(u) && q matches Ok(
                v,
            ) && u.id.bytes@ == v.id.bytes@ && u.path is None && v.path is None),
{
    law_urn_ignores_leading_bytes(a, c);
    law_urn_ignores_leading_bytes(b, c);
}

// ---------------------------------------------------------------------------
// Timestamps
// ---------------------------------------------------------------------------

/// Decimal value of a text of digits.
pub open spec fn digits_value(s: Seq<char>) -> int
    decreases s.len(),
{
    if s.len() == 0 {
        0
    } else {
        digits_value(s.drop_last()) * 10 + (s.last() as int - '0' as int)
    }
}

/// Every character is an ASCII digit.
pub open spec fn all_digits(s: Seq<char>) -> bool {
    forall|i: int| 0 <= i < s.len() ==> '0' <= #[trigger] s[i] <= '9'
}

/// What `u64::from_str` gives: an optional `+` followed by at least one
/// decimal digit, whose value fits in 64 bits.
pub open spec fn u64_of_text(s: Seq<char>) -> Option<u64> {
    let d = if s.len() > 0 && s[0] == '+' {
        s.skip(1)
    } else {
        s
    };
    if d.len() > 0 && all_digits(d) && digits_value(d) <= u64::MAX {
        Some(digits_value(d) as u64)
    } else {
        None
    }
}

/// A prefix of digits has no greater value than the whole text.
proof fn lemma_digits_value_prefix(s: Seq<char>, k: int)
    requires
        all_digits(s),
        0 <= k <= s.len(),
    ensures
        0 <= digits_value(s.take(k)) <= digits_value(s),
    decreases s.len(),
{
    if s.len() > 0 {
        let init = s.drop_last();
        assert(all_digits(init)) by {
            assert forall|i: int| 0 <= i < init.len() implies '0' <= #[trigger] init[i] <= '9' by {
                assert(init[i] == s[i]);
            }
        }
        if k == s.len() {
            assert(s.take(k) =~= s);
            lemma_digits_value_prefix(init, init.len() as int);
            assert(init.take(init.len() as int) =~= init);
        } else {
            assert(s.take(k) =~= init.take(k));
            lemma_digits_value_prefix(init, k);
            lemma_digits_value_prefix(init, init.len() as int);
            assert(init.take(init.len() as int) =~= init);
        }
    }
}

/// Reads a timestamp written in decimal, as `u64::from_str` does.
pub fn parse_timestamp(s: &str) -> (r: Option<u64>)
    ensures
        r == u64_of_text(s@),
{
    let v = chars_of(s);
    let start: usize = if v.len() > 0 && v[0] == '+' {
        1
    } else {
        0
    };
    let ghost d = if s@.len() > 0 && s@[0] == '+' {
        s@.skip(1)
    } else {
        s@
    };
    assert(d =~= v@.skip(start as int));
    if start == v.len() {
        return None;
    }
    let mut acc: u64 = 0;
    let mut i: usize = start;
    while i < v.len()
        invariant
            v@ == s@,
            start <= i <= v.len(),
            d =~= v@.skip(start as int),
            d == (if s@.len() > 0 && s@[0] == '+' {
                s@.skip(1)
            } else {
                s@
            }),
            acc == digits_value(d.take(i - start)),
            all_digits(d.take(i - start)),
        decreases v.len() - i,
    {
        let c = v[i];
        assert(d.take(i - start + 1).drop_last() =~= d.take(i - start));
        assert(d.take(i - start + 1).last() == c);
        if !('0' <= c && c <= '9') {
            assert(!all_digits(d)) by {
                assert(d[i - start] == c);
            }
            return None;
        }
        let digit: u64 = (c as u32 - '0' as u32) as u64;
        match acc.checked_mul(10) {
            None => {
                proof {
                    assert(all_digits(d.take(i - start + 1))) by {
                        assert forall|j: int| 0 <= j < i - start + 1 implies '0' <= #[trigger] d.take(
                            i - start + 1,
                        )[j] <= '9' by {
                            if j < i - start {
                                assert(d.take(i - start + 1)[j] == d.take(i - start)[j]);
                            }
                        }
                    }
                    no_overflow_or_not_digits(d, i - start + 1);
                }
                return None;
            },
            Some(m) => match m.checked_add(digit) {
                None => {
                    proof {
                        assert(all_digits(d.take(i - start + 1))) by {
                            assert forall|j: int| 0 <= j < i - start + 1 implies '0' <= #[trigger] d.take(
                                i - start + 1,
                            )[j] <= '9' by {
                                if j < i - start {
                                    assert(d.take(i - start + 1)[j] == d.take(i - start)[j]);
                                }
                            }
                        }
                        no_overflow_or_not_digits(d, i - start + 1);
                    }
                    return None;
                },
                Some(n) => {
                    acc = n;
                },
            },
        }
        proof {
            assert(all_digits(d.take(i - start + 1))) by {
                assert forall|j: int| 0 <= j < i - start + 1 implies '0' <= #[trigger] d.take(i - start + 1)[j]
                    <= '9' by {
                    if j < i - start {
                        assert(d.take(i - start + 1)[j] == d.take(i - start)[j]);
                    }
                }
            }
        }
        i = i + 1;
    }
    assert(d.take(i - start) =~= d);
    Some(acc)
}

/// When a prefix of `d` of digits already exceeds 64 bits, `d` is no timestamp.
proof fn no_overflow_or_not_digits(d: Seq<char>, k: int)
    requires
        0 < k <= d.len(),
        all_digits(d.take(k)),
        digits_value(d.take(k)) > u64::MAX,
    ensures
        !(all_digits(d) && digits_value(d) <= u64::MAX),
{
    if all_digits(d) {
        lemma_digits_value_prefix(d, k);
    }
}

// ---------------------------------------------------------------------------
// Subgraph queries
// ---------------------------------------------------------------------------

/// Which projects to ask the subgraph for.
#[derive(Debug, Clone, Copy, PartialEq, Eq, Structural)]
pub enum QueryKind {
    /// The projects of every org.
    AllProjects,
    /// The projects of the given orgs.
    OrgProjects,
}

/// The query for the projects anchored since the last sync: of all orgs when
/// none is given, else of the given orgs.
pub fn query_kind(orgs: &[String]) -> (r: QueryKind)
    ensures
        orgs@.len() == 0 ==> r == QueryKind::AllProjects,
        orgs@.len() > 0 ==> r == QueryKind::OrgProjects,
{
    if orgs.len() == 0 {
        QueryKind::AllProjects
    } else {
        QueryKind::OrgProjects
    }
}

} // verus!
