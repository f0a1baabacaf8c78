//! Git object ids and their hexadecimal form.
use vstd::prelude::*;

verus! {

/// The value of an ASCII hexadecimal digit (either case), or -1 for any other character.
pub open spec fn hex_digit_value(c: char) -> int {
    if '0' <= c <= '9' {
        c as int - 0x30
    } else if 'a' <= c <= 'f' {
        c as int - 0x61 + 10
    } else if 'A' <= c <= 'F' {
        c as int - 0x41 + 10
    } else {
        -1
    }
}

/// The lower-case hexadecimal digit of a value below 16.
pub open spec fn hex_char(n: int) -> char {
    if n < 10 {
        (0x30 + n) as char
    } else {
        (0x61 + n - 10) as char
    }
}

/// Lower-case hexadecimal encoding: two digits per byte, high nibble first.
pub open spec fn hex_lower(bytes: Seq<u8>) -> Seq<char>
    decreases bytes.len(),
{
    if bytes.len() == 0 {
        Seq::empty()
    } else {
        seq![hex_char((bytes[0] / 16) as int), hex_char((bytes[0] % 16) as int)] + hex_lower(bytes.drop_first())
    }
}

/// The hexadecimal encoding has two lower-case digits per byte.
pub proof fn lemma_hex_lower_len(bytes: Seq<u8>)
    ensures
        hex_lower(bytes).len() == 2 * bytes.len(),
        forall|i: int|
            0 <= i < hex_lower(bytes).len() ==> ('0' <= #[trigger] hex_lower(bytes)[i] <= '9') || ('a'
                <= hex_lower(bytes)[i] <= 'f'),
    decreases bytes.len(),
{
    if bytes.len() > 0 {
        lemma_hex_lower_len(bytes.drop_first());
        let hi = (bytes[0] / 16) as int;
        let lo = (bytes[0] % 16) as int;
        assert(0 <= hi < 16 && 0 <= lo < 16);
        let h = hex_lower(bytes);
        let t = hex_lower(bytes.drop_first());
        assert forall|i: int| 0 <= i < h.len() implies ('0' <= #[trigger] h[i] <= '9') || ('a' <= h[i] <= 'f') by {
            if i >= 2 {
                assert(h[i] == t[i - 2]);
            }
        }
    }
}

/// The two digits of byte `j` in the hexadecimal encoding.
proof fn lemma_hex_lower_index(bytes: Seq<u8>, j: int)
    requires
        0 <= j < bytes.len(),
    ensures
        hex_lower(bytes).len() == 2 * bytes.len(),
        hex_lower(bytes)[2 * j] == hex_char((bytes[j] / 16) as int),
        hex_lower(bytes)[2 * j + 1] == hex_char((bytes[j] % 16) as int),
    decreases bytes.len(),
{
    lemma_hex_lower_len(bytes);
    if j > 0 {
        lemma_hex_lower_index(bytes.drop_first(), j - 1);
        assert(hex_lower(bytes)[2 * j] == hex_lower(bytes.drop_first())[2 * j - 2]);
        assert(hex_lower(bytes)[2 * j + 1] == hex_lower(bytes.drop_first())[2 * j - 1]);
    }
}

/// A hexadecimal digit reads back as its value.
proof fn lemma_hex_char_value(n: int)
    requires
        0 <= n < 16,
    ensures
        hex_digit_value(hex_char(n)) == n,
{
}

/// An object id written in hexadecimal reads back as the same id.
pub proof fn law_hex_round_trip(bytes: Seq<u8>)
    requires
        bytes.len() == 20,
    ensures
        oid_text_ok(hex_lower(bytes)),
        oid_bytes_of(hex_lower(bytes)) == bytes,
{
    lemma_hex_lower_len(bytes);
    let h = hex_lower(bytes);
    assert forall|i: int| 0 <= i < h.len() implies hex_digit_value(#[trigger] h[i]) >= 0 by {
        let j = i / 2;
        lemma_hex_lower_index(bytes, j);
        lemma_hex_char_value((bytes[j] / 16) as int);
        lemma_hex_char_value((bytes[j] % 16) as int);
        assert(i == 2 * j || i == 2 * j + 1);
    }
    assert forall|j: int| 0 <= j < 20 implies #[trigger] oid_bytes_of(h)[j] == bytes[j] by {
        lemma_hex_lower_index(bytes, j);
        lemma_hex_char_value((bytes[j] / 16) as int);
        lemma_hex_char_value((bytes[j] % 16) as int);
        assert(oid_nibble(h, 2 * j) == bytes[j] / 16);
        assert(oid_nibble(h, 2 * j + 1) == bytes[j] % 16);
        assert((bytes[j] / 16) * 16 + bytes[j] % 16 == bytes[j]);
    }
    assert(oid_bytes_of(h) =~= bytes);
}

/// `text` is an abbreviated or full object id: 1 to 40 hexadecimal digits.
/// (All its characters are then ASCII, so it is as many bytes long.)
pub open spec fn oid_text_ok(text: Seq<char>) -> bool {
    1 <= text.len() <= 40 && forall|i: int| 0 <= i < text.len() ==> hex_digit_value(#[trigger] text[i]) >= 0
}

/// The nibble at position `p` of the object id written as `text`; positions past
/// the end of `text` are zero.
pub open spec fn oid_nibble(text: Seq<char>, p: int) -> int {
    if p < text.len() {
        hex_digit_value(text[p])
    } else {
        0
    }
}

/// The 20 bytes of the object id written as `text`, zero-padded on the right.
pub open spec fn oid_bytes_of(text: Seq<char>) -> Seq<u8> {
    Seq::new(20, |j: int| (oid_nibble(text, 2 * j) * 16 + oid_nibble(text, 2 * j + 1)) as u8)
}

/// A git object id: the 20 bytes of a SHA-1 hash.
#[derive(Debug, Clone, Copy)]
pub struct Oid {
    pub bytes: [u8; 20],
}

/// Parses an object id with libgit2 (`git2::Oid::from_str`): it accepts 1 to 40
/// hexadecimal digits of either case and zero-pads shorter ids on the right.
#[verifier::external_body]
fn git2_oid_from_str(s: &str) -> (r: Option<[u8; 20]>)
    ensures
        r is Some <==> oid_text_ok(s@),
        r matches Some(b) ==> b@ == oid_bytes_of(s@),
{
    match git2::Oid::from_str(s) {
        Ok(oid) => {
            let mut bytes = [0u8; 20];
            bytes.copy_from_slice(oid.as_bytes());
            Some(bytes)
        },
        Err(_) => None,
    }
}

/// Lower-case hexadecimal encoding of bytes (`hex::encode`).
#[verifier::external_body]
pub(crate) fn hex_encode(bytes: &[u8]) -> (r: String)
    ensures
        r@ == hex_lower(bytes@),
{
    hex::encode(bytes)
}

impl Oid {
    /// Reads an object id written in hexadecimal; `None` unless the text is 1 to 40
    /// hexadecimal digits.
    pub fn from_str(s: &str) -> (r: Option<Oid>)
        ensures
            r is Some <==> oid_text_ok(s@),
            r matches Some(o) ==> o.bytes@ == oid_bytes_of(s@),
    {
        match git2_oid_from_str(s) {
            Some(bytes) => Some(Oid { bytes }),
            None => None,
        }
    }

    /// The id in lower-case hexadecimal, as git prints it.
    pub fn to_hex(&self) -> (r: String)
        ensures
            r@ == hex_lower(self.bytes@),
    {
        hex_encode(self.bytes.as_slice())
    }

    /// Whether every byte of the id is zero (the id git uses for a ref that
    /// does not exist yet, or no longer).
    pub fn is_zero(&self) -> (r: bool)
        ensures
            r == (forall|i: int| 0 <= i < 20 ==> self.bytes@[i] == 0),
    {
        let mut i: usize = 0;
        while i < 20
            invariant
                i <= 20,
                forall|j: int| 0 <= j < i ==> self.bytes@[j] == 0,
            decreases 20 - i,
        {
            if self.bytes[i] != 0 {
                return false;
            }
            i = i + 1;
        }
        true
    }

    /// Whether two ids are the same.
    pub fn same(&self, other: &Oid) -> (r: bool)
        ensures
            r == (self.bytes@ == other.bytes@),
    {
        let mut i: usize = 0;
        while i < 20
            invariant
                i <= 20,
                forall|j: int| 0 <= j < i ==> self.bytes@[j] == other.bytes@[j],
            decreases 20 - i,
        {
            if self.bytes[i] != other.bytes[i] {
                return false;
            }
            i = i + 1;
        }
        assert(self.bytes@ =~= other.bytes@);
        true
    }
}

} // verus!
