//! A sampling scheduler substitute: decides whether a tracked resource is due
//! for a recheck now, with a probability that grows the longer the resource
//! has gone unchecked relative to how long it had been stable before.
//!
//! The crate holds the verified core: the hash value type with its hex text
//! form (this file), the per-resource record and the key-to-record store, the
//! probabilistic decision engine, and the age-bucket summary reporter.
//! Reading and writing the persisted store file, and the command line around
//! it, live outside the library.

use vstd::prelude::*;

pub mod engine;
pub mod store;
pub mod summary;

pub use store::Status;
pub use summary::summary_check_age;
pub use summary::summary_repo_age;

verus! {

/// True of the sixteen lowercase hex digits and the six uppercase ones.
pub open spec fn is_hex_digit(c: char) -> bool {
    ('0' <= c && c <= '9') || ('a' <= c && c <= 'f') || ('A' <= c && c <= 'F')
}

/// True when every character of `s` is a hex digit.
pub open spec fn is_hex_seq(s: Seq<char>) -> bool {
    forall|i: int| 0 <= i < s.len() ==> is_hex_digit(#[trigger] s[i])
}

/// The numeric value of a hex digit (lowercase or uppercase).
pub open spec fn hex_digit_value(c: char) -> int {
    if '0' <= c && c <= '9' {
        c as int - 48
    } else if 'a' <= c && c <= 'f' {
        c as int - 87
    } else {
        c as int - 55
    }
}

/// The lowercase hex digit for a value below 16.
pub open spec fn hex_char_of(n: int) -> char {
    if n < 10 {
        (48 + n) as char
    } else {
        (87 + n) as char
    }
}

/// The canonical text form of a byte sequence: two lowercase hex digits per
/// byte, high nibble first.
pub open spec fn hex_str_of(b: Seq<u8>) -> Seq<char> {
    Seq::new(
        2 * b.len(),
        |i: int|
            if i % 2 == 0 {
                hex_char_of(b[i / 2] as int / 16)
            } else {
                hex_char_of(b[i / 2] as int % 16)
            },
    )
}

/// The bytes that an even-length sequence of hex digits decodes to.
pub open spec fn bytes_of_hex(s: Seq<char>) -> Seq<u8> {
    Seq::new(
        s.len() / 2,
        |i: int| (16 * hex_digit_value(s[2 * i]) + hex_digit_value(s[2 * i + 1])) as u8,
    )
}

/// A fixed-width binary hash. The raw byte length uniquely determines the
/// variant: 20 bytes is `Sha1`, 32 bytes is `Sha256`; no other length is
/// valid.
#[derive(Debug, Clone, Copy, PartialEq, Eq)]
pub enum Hash {
    Sha1([u8; 20]),
    Sha256([u8; 32]),
}

/// Why a hash failed to parse from text: `Decode` when the text is not
/// decodable hex (a non-hex character, or an odd number of digits), `Length`
/// when it decodes but to neither 20 nor 32 bytes.
#[derive(Debug, Clone, Copy, PartialEq, Eq)]
pub enum HashParseError {
    Decode,
    Length,
}

impl View for Hash {
    type V = Seq<u8>;

    open spec fn view(&self) -> Seq<u8> {
        match *self {
            Hash::Sha1(b) => b@,
            Hash::Sha256(b) => b@,
        }
    }
}

impl Hash {
    /// Builds the 20-byte variant from a byte slice; rejects any other length.
    pub fn sha1_from_bytes(s: &[u8]) -> (r: Result<Self, HashParseError>)
        ensures
            r is Ok <==> s@.len() == 20,
            r matches Ok(h) ==> h is Sha1 && h@ == s@,
            r matches Err(e) ==> e == HashParseError::Length,
    {
        if s.len() == 20 {
            let mut b: [u8; 20] = [0u8; 20];
            let mut i: usize = 0;
            while i < 20
                invariant
                    i <= 20,
                    s@.len() == 20,
                    forall|j: int| 0 <= j < i ==> b@[j] == s@[j],
                decreases 20 - i,
            {
                b[i] = s[i];
                i += 1;
            }
            proof {
                assert(b@ =~= s@);
            }
            Ok(Hash::Sha1(b))
        } else {
            Err(HashParseError::Length)
        }
    }

    /// Builds the 32-byte variant from a byte slice; rejects any other length.
    pub fn sha256_from_bytes(s: &[u8]) -> (r: Result<Self, HashParseError>)
        ensures
            r is Ok <==> s@.len() == 32,
            r matches Ok(h) ==> h is Sha256 && h@ == s@,
            r matches Err(e) ==> e == HashParseError::Length,
    {
        if s.len() == 32 {
            let mut b: [u8; 32] = [0u8; 32];
            let mut i: usize = 0;
            while i < 32
                invariant
                    i <= 32,
                    s@.len() == 32,
                    forall|j: int| 0 <= j < i ==> b@[j] == s@[j],
                decreases 32 - i,
            {
                b[i] = s[i];
                i += 1;
            }
            proof {
                assert(b@ =~= s@);
            }
            Ok(Hash::Sha256(b))
        } else {
            Err(HashParseError::Length)
        }
    }

    /// A borrowed view of the raw bytes.
    pub fn raw_bytes(&self) -> (r: &[u8])
        ensures
            r@ == self@,
    {
        match self {
            Hash::Sha1(b) => b.as_slice(),
            Hash::Sha256(b) => b.as_slice(),
        }
    }

    /// Decodes a hash from hex text: 40 digits give `Sha1`, 64 give `Sha256`.
    /// Text that is not decodable hex (a non-hex character, or an odd number
    /// of digits) fails with `Decode`; decodable hex of any other length
    /// fails with `Length`.
    pub fn from_str(s: &str) -> (r: Result<Hash, HashParseError>)
        ensures
            r is Ok <==> is_hex_seq(s@) && (s@.len() == 40 || s@.len() == 64),
            r matches Ok(h) ==> h@ == bytes_of_hex(s@) && (h is Sha1 <==> s@.len() == 40),
            r matches Err(e) ==> ((e == HashParseError::Decode) <==> (!is_hex_seq(s@) || s@.len()
                % 2 == 1)),
    {
        let n = s.unicode_len();
        let mut i: usize = 0;
        while i < n
            invariant
                i <= n,
                n == s@.len(),
                forall|j: int| 0 <= j < i ==> is_hex_digit(#[trigger] s@[j]),
            decreases n - i,
        {
            if !is_hex_digit_x(s.get_char(i)) {
                return Err(HashParseError::Decode);
            }
            i += 1;
        }
        if n % 2 == 1 {
            return Err(HashParseError::Decode);
        }
        if n != 40 && n != 64 {
            return Err(HashParseError::Length);
        }
        let half = n / 2;
        let mut bytes: Vec<u8> = Vec::new();
        let mut j: usize = 0;
        while j < half
            invariant
                j <= half,
                half == n / 2,
                n == s@.len(),
                n == 40 || n == 64,
                is_hex_seq(s@),
                bytes@.len() == j,
                forall|k: int| 0 <= k < j ==> bytes@[k] == bytes_of_hex(s@)[k],
            decreases half - j,
        {
            let hi = hex_digit_value_x(s.get_char(2 * j));
            let lo = hex_digit_value_x(s.get_char(2 * j + 1));
            bytes.push(16 * hi + lo);
            j += 1;
        }
        proof {
            assert(bytes@ =~= bytes_of_hex(s@));
        }
        if n == 40 {
            match Hash::sha1_from_bytes(bytes.as_slice()) {
                Ok(h) => Ok(h),
                Err(e) => {
                    proof {
                        assert(false);
                    }
                    Err(e)
                },
            }
        } else {
            match Hash::sha256_from_bytes(bytes.as_slice()) {
                Ok(h) => Ok(h),
                Err(e) => {
                    proof {
                        assert(false);
                    }
                    Err(e)
                },
            }
        }
    }

    /// The canonical text form: lowercase hex of the raw bytes.
    pub fn to_text(&self) -> (r: String)
        ensures
            r@ == hex_str_of(self@),
    {
        let bytes = self.raw_bytes();
        let mut out = String::new();
        let mut i: usize = 0;
        while i < bytes.len()
            invariant
                i <= bytes@.len(),
                bytes@ == self@,
                out@ == hex_str_of(self@).take(2 * i as int),
            decreases bytes@.len() - i,
        {
            let b = bytes[i];
            out.append(hex_digit_str(b / 16));
            out.append(hex_digit_str(b % 16));
            proof {
                assert(out@ =~= hex_str_of(self@).take(2 * (i + 1) as int));
            }
            i += 1;
        }
        proof {
            assert(out@ =~= hex_str_of(self@));
        }
        out
    }
}

/// Whether `c` is a hex digit, decided on the code point.
fn is_hex_digit_x(c: char) -> (r: bool)
    ensures
        r == is_hex_digit(c),
{
    let v = c as u32;
    (48 <= v && v <= 57) || (97 <= v && v <= 102) || (65 <= v && v <= 70)
}

/// The numeric value of a hex digit.
fn hex_digit_value_x(c: char) -> (r: u8)
    requires
        is_hex_digit(c),
    ensures
        r as int == hex_digit_value(c),
        r < 16,
{
    let v = c as u32;
    if v <= 57 {
        (v - 48) as u8
    } else if v >= 97 {
        (v - 87) as u8
    } else {
        (v - 55) as u8
    }
}

/// The one-character string for a hex digit value below 16.
fn hex_digit_str(n: u8) -> (r: &'static str)
    requires
        n < 16,
    ensures
        r@.len() == 1,
        r@[0] == hex_char_of(n as int),
{
    proof {
        reveal_strlit("0");
        reveal_strlit("1");
        reveal_strlit("2");
        reveal_strlit("3");
        reveal_strlit("4");
        reveal_strlit("5");
        reveal_strlit("6");
        reveal_strlit("7");
        reveal_strlit("8");
        reveal_strlit("9");
        reveal_strlit("a");
        reveal_strlit("b");
        reveal_strlit("c");
        reveal_strlit("d");
        reveal_strlit("e");
        reveal_strlit("f");
    }
    match n {
        0 => "0",
        1 => "1",
        2 => "2",
        3 => "3",
        4 => "4",
        5 => "5",
        6 => "6",
        7 => "7",
        8 => "8",
        9 => "9",
        10 => "a",
        11 => "b",
        12 => "c",
        13 => "d",
        14 => "e",
        _ => "f",
    }
}

/// Each hex digit value below 16 encodes to a lowercase hex digit that
/// decodes back to the same value.
proof fn lemma_hex_digit_round_trip(n: int)
    requires
        0 <= n < 16,
    ensures
        is_hex_digit(hex_char_of(n)),
        '0' <= hex_char_of(n) && hex_char_of(n) <= '9' <==> n < 10,
        'a' <= hex_char_of(n) && hex_char_of(n) <= 'f' <==> n >= 10,
        hex_digit_value(hex_char_of(n)) == n,
{
}

/// Law: the canonical text form round-trips. The hex text of any hash is
/// all hex digits, twice as long as the raw bytes (so 40 or 64 characters),
/// and decodes back to exactly the raw bytes.
pub proof fn lemma_hex_round_trip(h: Hash)
    ensures
        hex_str_of(h@).len() == 2 * h@.len(),
        is_hex_seq(hex_str_of(h@)),
        bytes_of_hex(hex_str_of(h@)) == h@,
{
    let s = hex_str_of(h@);
    assert forall|i: int| 0 <= i < s.len() implies is_hex_digit(#[trigger] s[i]) by {
        if i % 2 == 0 {
            lemma_hex_digit_round_trip(h@[i / 2] as int / 16);
        } else {
            lemma_hex_digit_round_trip(h@[i / 2] as int % 16);
        }
    }
    assert forall|i: int| 0 <= i < h@.len() implies bytes_of_hex(s)[i] == h@[i] by {
        let b = h@[i] as int;
        lemma_hex_digit_round_trip(b / 16);
        lemma_hex_digit_round_trip(b % 16);
        assert(s[2 * i] == hex_char_of(b / 16));
        assert(s[2 * i + 1] == hex_char_of(b % 16));
    }
    assert(bytes_of_hex(s) =~= h@);
}

/// Law: the raw bytes determine the hash. Two hashes with equal byte views
/// are the same value, variant included, since the byte length alone picks
/// the variant.
pub proof fn lemma_hash_from_view(a: Hash, b: Hash)
    requires
        a@ == b@,
    ensures
        a == b,
{
    broadcast use vstd::array::group_array_axioms;

    match a {
        Hash::Sha1(ab) => match b {
            Hash::Sha1(bb) => {
                assert(ab =~= bb);
            },
            Hash::Sha256(bb) => {
                assert(a@.len() == 20 && b@.len() == 32);
            },
        },
        Hash::Sha256(ab) => match b {
            Hash::Sha1(bb) => {
                assert(a@.len() == 32 && b@.len() == 20);
            },
            Hash::Sha256(bb) => {
                assert(ab =~= bb);
            },
        },
    }
}

} // verus!
