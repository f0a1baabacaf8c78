//! SSH key fingerprints of ed25519 public keys (peer ids).
use byteorder::{BigEndian, WriteBytesExt};
use sha2::Digest;

use vstd::prelude::*;

use crate::text::{append_chars, chars_of};

verus! {

/// The big-endian bytes of a 32-bit number.
pub open spec fn be32(n: u32) -> Seq<u8> {
    seq![(n / 0x1000000) as u8, (n / 0x10000 % 0x100) as u8, (n / 0x100 % 0x100) as u8, (n % 0x100) as u8]
}

/// The name of the key type in an SSH public key blob.
pub open spec fn ssh_ed25519_name() -> Seq<u8> {
    seq![0x73u8, 0x73, 0x68, 0x2d, 0x65, 0x64, 0x32, 0x35, 0x35, 0x31, 0x39]
}

/// The SSH wire form of an ed25519 public key: the length and name of the key
/// type, then the length of the key and the key itself.
pub open spec fn ssh_key_blob_of(key: Seq<u8>) -> Seq<u8> {
    be32(11) + ssh_ed25519_name() + be32(key.len() as u32) + key
}

/// The SHA-256 digest of `data`, as the `sha2` crate computes it.
pub uninterp spec fn sha256(data: Seq<u8>) -> Seq<u8>;

/// The base64 digit of a six-bit value: `A`-`Z`, `a`-`z`, `0`-`9`, `+`, `/`.
pub open spec fn base64_digit(v: int) -> char {
    if v < 26 {
        (65 + v) as char
    } else if v < 52 {
        (97 + v - 26) as char
    } else if v < 62 {
        (48 + v - 52) as char
    } else if v == 62 {
        '+'
    } else {
        '/'
    }
}

/// The four base64 digits of a 24-bit group.
pub open spec fn base64_group(n: int) -> Seq<char> {
    seq![base64_digit(n / 262144), base64_digit(n / 4096 % 64), base64_digit(n / 64 % 64), base64_digit(n % 64)]
}

/// The standard base64 encoding of `data` (RFC 4648, with `=` padding), as
/// `base64::encode` writes it: each three bytes become four digits; a last
/// group of two bytes ends in one `=`, of one byte in two.
pub open spec fn base64_standard(data: Seq<u8>) -> Seq<char>
    decreases data.len(),
{
    if data.len() == 0 {
        seq![]
    } else if data.len() == 1 {
        base64_group(data[0] * 65536).take(2) + seq!['=', '=']
    } else if data.len() == 2 {
        base64_group(data[0] * 65536 + data[1] * 256).take(3) + seq!['=']
    } else {
        base64_group(data[0] * 65536 + data[1] * 256 + data[2]) + base64_standard(data.subrange(3, data.len() as int))
    }
}

proof fn base64_digit_is_not_padding(v: int)
    requires
        0 <= v < 64,
    ensures
        base64_digit(v) != '=',
{
}

/// The encoding of a length that leaves two bytes over ends in exactly one `=`:
/// four digits for each group of three, then three digits and the `=`.
proof fn lemma_base64_two_left(data: Seq<u8>)
    requires
        data.len() % 3 == 2,
    ensures
        base64_standard(data).len() == (data.len() + 1) / 3 * 4,
        base64_standard(data).last() == '=',
        forall|i: int| 0 <= i < base64_standard(data).len() - 1 ==> base64_standard(data)[i] != '=',
    decreases data.len(),
{
    if data.len() == 2 {
        let n = data[0] * 65536 + data[1] * 256;
        base64_digit_is_not_padding(n / 262144);
        base64_digit_is_not_padding(n / 4096 % 64);
        base64_digit_is_not_padding(n / 64 % 64);
    } else {
        let n = data[0] * 65536 + data[1] * 256 + data[2];
        let rest = data.subrange(3, data.len() as int);
        lemma_base64_two_left(rest);
        base64_digit_is_not_padding(n / 262144);
        base64_digit_is_not_padding(n / 4096 % 64);
        base64_digit_is_not_padding(n / 64 % 64);
        base64_digit_is_not_padding(n % 64);
        let e = base64_standard(data);
        assert(e == base64_group(n) + base64_standard(rest));
        assert forall|i: int| 0 <= i < e.len() - 1 implies e[i] != '=' by {
            if i >= 4 {
                assert(e[i] == base64_standard(rest)[i - 4]);
            }
        }
    }
}

/// The fingerprint text of a 32-byte digest: `SHA256:` and 43 base64 digits,
/// 50 characters with no `=` among them.
proof fn lemma_fingerprint_shape(digest: Seq<u8>)
    requires
        digest.len() == 32,
    ensures
        ("SHA256:"@ + trim_end_eq(base64_standard(digest))).len() == 50,
        !("SHA256:"@ + trim_end_eq(base64_standard(digest))).contains('='),
{
    let e = base64_standard(digest);
    lemma_base64_two_left(digest);
    assert(e.len() == 44);
    assert(trim_end_eq(e.drop_last()) == e.drop_last());
    assert(trim_end_eq(e) == e.drop_last());
    reveal_strlit("SHA256:");
    let fp = "SHA256:"@ + e.drop_last();
    assert forall|i: int| 0 <= i < fp.len() implies fp[i] != '=' by {
        if i >= 7 {
            assert(fp[i] == e[i - 7]);
        }
    }
}

/// Appends a number in big-endian order (`WriteBytesExt::write_u32::<BigEndian>`):
/// byteorder writes the four bytes of `n.to_be_bytes()`; writing to a vector
/// does not fail.
#[verifier::external_body]
fn write_u32_be(buf: &mut Vec<u8>, n: u32)
    ensures
        final(buf)@ == old(buf)@ + be32(n),
{
    buf.write_u32::<BigEndian>(n).unwrap()
}

/// The SHA-256 digest of bytes (`sha2::Sha256::digest`), 32 bytes long.
#[verifier::external_body]
fn sha256_digest(data: &[u8]) -> (r: Vec<u8>)
    ensures
        r@ == sha256(data@),
        r@.len() == 32,
{
    sha2::Sha256::digest(data).to_vec()
}

/// The standard base64 encoding of bytes, with padding (`base64::encode`).
#[verifier::external_body]
fn base64_encode(data: &[u8]) -> (r: String)
    ensures
        r@ == base64_standard(data@),
{
    base64::encode(data)
}

/// The SSH wire form of an ed25519 public key.
pub fn ssh_key_blob(key: &[u8]) -> (blob: Vec<u8>)
    ensures
        blob@ == ssh_key_blob_of(key@),
        blob@.len() == 19 + key@.len(),
        blob@.skip(19) == key@,
{
    let mut buf: Vec<u8> = Vec::new();
    let name: [u8; 11] = [0x73, 0x73, 0x68, 0x2d, 0x65, 0x64, 0x32, 0x35, 0x35, 0x31, 0x39];
    write_u32_be(&mut buf, 11);
    let mut i: usize = 0;
    while i < 11
        invariant
            i <= 11,
            buf@ == be32(11) + name@.take(i as int),
        decreases 11 - i,
    {
        buf.push(name[i]);
        assert(name@.take(i + 1) =~= name@.take(i as int).push(name@[i as int]));
        i = i + 1;
    }
    assert(name@.take(11) =~= ssh_ed25519_name());
    #[verifier::truncate]
    let key_len = key.len() as u32;
    write_u32_be(&mut buf, key_len);
    let ghost head = buf@;
    let mut j: usize = 0;
    while j < key.len()
        invariant
            j <= key.len(),
            buf@ == head + key@.take(j as int),
        decreases key.len() - j,
    {
        buf.push(key[j]);
        assert(key@.take(j + 1) =~= key@.take(j as int).push(key@[j as int]));
        j = j + 1;
    }
    assert(key@.take(key.len() as int) =~= key@);
    assert(buf@ =~= ssh_key_blob_of(key@));
    assert(buf@.skip(19) =~= key@);
    buf
}

/// The SHA-256 digest of the SSH wire form of an ed25519 public key: the raw
/// SSH fingerprint of the key.
pub fn ssh_fingerprint_digest(key: &[u8]) -> (digest: Vec<u8>)
    ensures
        digest@ == sha256(ssh_key_blob_of(key@)),
        digest@.len() == 32,
{
    let blob = ssh_key_blob(key);
    sha256_digest(blob.as_slice())
}

/// `s` without the `=` characters at its end.
pub open spec fn trim_end_eq(s: Seq<char>) -> Seq<char>
    decreases s.len(),
{
    if s.len() > 0 && s.last() == '=' {
        trim_end_eq(s.drop_last())
    } else {
        s
    }
}

/// The text of an SSH fingerprint: `SHA256:` and the base64 digest without padding.
pub open spec fn ssh_fingerprint_text(key: Seq<u8>) -> Seq<char> {
    "SHA256:"@ + trim_end_eq(base64_standard(sha256(ssh_key_blob_of(key))))
}

/// `s` without the `=` characters at its end (`str::trim_end_matches('=')`).
pub fn trim_end_padding(s: &[char]) -> (r: Vec<char>)
    ensures
        r@ == trim_end_eq(s@),
{
    let mut end = s.len();
    assert(s@.take(end as int) =~= s@);
    while end > 0 && s[end - 1] == '='
        invariant
            end <= s.len(),
            trim_end_eq(s@.take(end as int)) == trim_end_eq(s@),
        decreases end,
    {
        assert(s@.take(end as int).drop_last() =~= s@.take(end - 1));
        end = end - 1;
    }
    let mut r: Vec<char> = Vec::new();
    let mut i: usize = 0;
    while i < end
        invariant
            i <= end <= s.len(),
            r@ == s@.take(i as int),
        decreases end - i,
    {
        r.push(s[i]);
        assert(s@.take(i + 1) =~= s@.take(i as int).push(s@[i as int]));
        i = i + 1;
    }
    assert(trim_end_eq(s@.take(end as int)) == s@.take(end as int));
    r
}

/// Get the SSH key fingerprint of an ed25519 public key (a peer id's key).
/// This is the output of `ssh-add -l`: `SHA256:` followed by the base64 of the
/// SHA-256 digest of the key's SSH wire form, without padding.
pub fn to_ssh_fingerprint(key: &[u8]) -> (fp: String)
    ensures
        fp@ == ssh_fingerprint_text(key@),
        fp@.len() == 50,
        !fp@.contains('='),
{
    let digest = ssh_fingerprint_digest(key);
    proof {
        lemma_fingerprint_shape(digest@);
    }
    let encoded = base64_encode(digest.as_slice());
    let chars = chars_of(encoded.as_str());
    let trimmed = trim_end_padding(chars.as_slice());
    let mut fp = "SHA256:".to_owned();
    append_chars(&mut fp, trimmed.as_slice());
    fp
}

/// The four bytes of `be32(n)` read back, most significant first, give `n`.
pub proof fn law_be32_reads_back(n: u32)
    ensures
        be32(n).len() == 4,
        be32(n)[0] * 0x1000000 + be32(n)[1] * 0x10000 + be32(n)[2] * 0x100 + be32(n)[3] == n,
{
}

/// The SSH wire form of a key is 19 bytes of header (the length 11, the name
/// `ssh-ed25519`, the length of the key) followed by the key itself, byte for
/// byte and in order.
pub proof fn law_ssh_blob_layout(key: Seq<u8>)
    requires
        key.len() <= u32::MAX,
    ensures
        ssh_key_blob_of(key).len() == 19 + key.len(),
        ssh_key_blob_of(key).take(4) == be32(11),
        ssh_key_blob_of(key).subrange(4, 15) == ssh_ed25519_name(),
        ssh_key_blob_of(key).subrange(15, 19) == be32(key.len() as u32),
        ssh_key_blob_of(key).skip(19) == key,
        forall|i: int| 0 <= i < key.len() ==> ssh_key_blob_of(key)[19 + i] == key[i],
{
    let b = ssh_key_blob_of(key);
    assert(b.take(4) =~= be32(11));
    assert(b.subrange(4, 15) =~= ssh_ed25519_name());
    assert(b.subrange(15, 19) =~= be32(key.len() as u32));
    assert(b.skip(19) =~= key);
}

} // verus!
