//! Contract-address decoding: hex strings, with or without a `0x` prefix,
//! into 20-byte addresses, failing cleanly on malformed input.

use vstd::prelude::*;

verus! {

use vstd::string::StringSliceAdditionalSpecFns;

/// Why an address string was rejected.
#[derive(Clone, Copy, Debug, PartialEq, Eq, Structural)]
pub enum AddressError {
    /// The text after the optional prefix is not an even-length string of
    /// hex digits.
    InvalidHex,
    /// The text decodes, but not to the 20 bytes of an address.
    WrongLength,
}

/// `c` is the ASCII code of a hex digit (either case).
pub open spec fn is_hex_digit(c: u8) -> bool {
    (48 <= c <= 57) || (65 <= c <= 70) || (97 <= c <= 102)
}

/// Numeric value of the hex digit with ASCII code `c`.
pub open spec fn hex_val(c: u8) -> int {
    if 48 <= c <= 57 {
        c - 48
    } else if 65 <= c <= 70 {
        c - 55
    } else {
        c - 87
    }
}

/// Every byte of `b` is a hex digit.
pub open spec fn all_hex(b: Seq<u8>) -> bool {
    forall|i: int| 0 <= i < b.len() ==> is_hex_digit(#[trigger] b[i])
}

/// The bytes denoted by an even-length hex digit string.
pub open spec fn hex_bytes_of(b: Seq<u8>) -> Seq<u8> {
    Seq::new((b.len() / 2) as nat, |i: int| (16 * hex_val(b[2 * i]) + hex_val(b[2 * i + 1])) as u8)
}

/// ASCII code of the lower-case hex digit for the nibble `n`.
pub open spec fn hex_digit_char(n: u8) -> char {
    if n < 10 {
        ((48 + n) as u8) as char
    } else {
        ((87 + n) as u8) as char
    }
}

/// The lower-case hex rendering of `b`, two digits per byte.
pub open spec fn hex_str_of(b: Seq<u8>) -> Seq<char> {
    Seq::new(
        (2 * b.len()) as nat,
        |i: int|
            if i % 2 == 0 {
                hex_digit_char(b[i / 2] >> 4)
            } else {
                hex_digit_char(b[i / 2] & 15)
            },
    )
}

/// `b` with a leading `0x` removed, if it has one.
pub open spec fn strip_0x(b: Seq<u8>) -> Seq<u8> {
    if b.len() >= 2 && b[0] == 48 && b[1] == 120 {
        b.skip(2)
    } else {
        b
    }
}

/// Relies on hex::decode (`Vec::from_hex`): succeeds exactly on an
/// even-length string of hex digit bytes, and each output byte is the value
/// of a digit pair, high nibble first.
#[verifier::external_body]
fn hex_decode(b: &Vec<u8>) -> (r: Result<Vec<u8>, ()>)
    ensures
        match r {
            Ok(v) => b@.len() % 2 == 0 && all_hex(b@) && v@ == hex_bytes_of(b@),
            Err(_) => !(b@.len() % 2 == 0 && all_hex(b@)),
        },
{
    match hex::decode(b.as_slice()) {
        Ok(v) => Ok(v),
        Err(_) => Err(()),
    }
}

/// Relies on hex::encode: the lower-case hex rendering of the input, two
/// digits per byte.
#[verifier::external_body]
pub(crate) fn hex_encode(b: &Vec<u8>) -> (r: String)
    ensures
        r@ == hex_str_of(b@),
{
    hex::encode(b.as_slice())
}

/// Decodes a contract address given as hex text, with or without a `0x`
/// prefix, into its 20 bytes.  Malformed hex and wrong lengths are rejected,
/// never panicked on.
pub fn decode_addr(address: &str) -> (r: Result<Vec<u8>, AddressError>)
    ensures
        ({
            let t = strip_0x(address.spec_bytes());
            &&& r is Ok <==> t.len() == 40 && all_hex(t)
            &&& r is Ok ==> (r->Ok_0)@ == hex_bytes_of(t) && (r->Ok_0)@.len() == 20
            &&& r == Result::<Vec<u8>, AddressError>::Err(AddressError::InvalidHex) <==> !(
            t.len() % 2 == 0 && all_hex(t))
            &&& r == Result::<Vec<u8>, AddressError>::Err(AddressError::WrongLength) <==> (
            t.len() % 2 == 0 && all_hex(t) && t.len() != 40)
        }),
{
    let bytes: &[u8] = address.as_bytes();
    let n = bytes.len();
    let start: usize = if n >= 2 && bytes[0] == 48 && bytes[1] == 120 {
        2
    } else {
        0
    };
    let mut trimmed: Vec<u8> = Vec::new();
    let mut i: usize = start;
    while i < n
        invariant
            start <= i <= n,
            n == address.spec_bytes().len(),
            bytes@ == address.spec_bytes(),
            trimmed@ == address.spec_bytes().subrange(start as int, i as int),
        decreases n - i,
    {
        trimmed.push(bytes[i]);
        i += 1;
    }
    proof {
        assert(trimmed@ =~= strip_0x(address.spec_bytes()));
    }
    match hex_decode(&trimmed) {
        Ok(out) => {
            if out.len() == 20 {
                Ok(out)
            } else {
                Err(AddressError::WrongLength)
            }
        },
        Err(_) => Err(AddressError::InvalidHex),
    }
}

} // verus!
