//! Keys and statements of the encrypted window-log database.
use vstd::prelude::*;
use rand::RngCore;

verus! {

/// The lowercase hexadecimal digit of a value below 16.
pub open spec fn hex_digit(n: u8) -> char {
    if n < 10 {
        (48 + n) as char
    } else {
        (87 + n) as char
    }
}

/// Lowercase hexadecimal text of `bytes`: two digits per byte, high nibble first.
pub open spec fn hex_lower(bytes: Seq<u8>) -> Seq<char>
    decreases bytes.len(),
{
    if bytes.len() == 0 {
        seq![]
    } else {
        hex_lower(bytes.drop_last()) + seq![hex_digit(bytes.last() / 16), hex_digit(bytes.last() % 16)]
    }
}

/// A lowercase hexadecimal digit.
pub open spec fn is_lower_hex(c: char) -> bool {
    ('0' <= c && c <= '9') || ('a' <= c && c <= 'f')
}

proof fn lemma_hex_lower(bytes: Seq<u8>)
    ensures
        hex_lower(bytes).len() == 2 * bytes.len(),
        forall|i: int| 0 <= i < hex_lower(bytes).len() ==> is_lower_hex(#[trigger] hex_lower(bytes)[i]),
    decreases bytes.len(),
{
    if bytes.len() > 0 {
        lemma_hex_lower(bytes.drop_last());
        let b = bytes.last();
        assert(is_lower_hex(hex_digit(b / 16)));
        assert(is_lower_hex(hex_digit(b % 16)));
        let prev = hex_lower(bytes.drop_last());
        assert forall|i: int| 0 <= i < hex_lower(bytes).len() implies is_lower_hex(
            #[trigger] hex_lower(bytes)[i],
        ) by {
            if i < prev.len() {
                assert(hex_lower(bytes)[i] == prev[i]);
            }
        }
    }
}

/// Calls `hex::encode`, which its documentation describes as encoding the
/// data as a hex string using lowercase characters (two per byte, from the
/// table `0123456789abcdef`); the contract states exactly that.
#[verifier::external_body]
fn hex_encode(bytes: &[u8]) -> (r: String)
    ensures
        r@ == hex_lower(bytes@),
{
    hex::encode(bytes)
}

/// Calls `rand::thread_rng().fill_bytes` on 32 zero bytes; the bytes are
/// random, so nothing is stated of them.
#[verifier::external_body]
fn random_key_bytes() -> [u8; 32] {
    let mut key = [0u8; 32];
    rand::thread_rng().fill_bytes(&mut key);
    key
}

/// The key text of 32 key bytes: their lowercase hexadecimal digits, two
/// per byte, high nibble first.
pub fn key_hex(bytes: &[u8; 32]) -> (r: String)
    ensures
        r@ == hex_lower(bytes@),
        r@.len() == 64,
        forall|i: int| 0 <= i < r@.len() ==> is_lower_hex(#[trigger] r@[i]),
{
    let r = hex_encode(vstd::array::array_as_slice(bytes));
    proof {
        lemma_hex_lower(bytes@);
    }
    r
}

/// A fresh random 256-bit key as 64 lowercase hexadecimal digits: the
/// [`key_hex`] text of 32 random bytes.
pub fn generate_key_256bit() -> (r: String)
    ensures
        r@.len() == 64,
        forall|i: int| 0 <= i < r@.len() ==> is_lower_hex(#[trigger] r@[i]),
        exists|b: Seq<u8>| b.len() == 32 && r@ == hex_lower(b),
{
    let key = random_key_bytes();
    key_hex(&key)
}

/// The statements that unlock an SQLCipher database with `key` and set its
/// page size: `PRAGMA key='<key>'; PRAGMA cipher_page_size=4096;`.
pub fn key_pragma(key: &str) -> (r: String)
    ensures
        r@ == "PRAGMA key='"@ + key@ + "'; PRAGMA cipher_page_size=4096;"@,
{
    let mut s = String::from_str("PRAGMA key='");
    s.append(key);
    s.append("'; PRAGMA cipher_page_size=4096;");
    s
}

/// The value stored in the `is_idle` column of a window-log row.
pub fn idle_column(is_idle: bool) -> (r: i32)
    ensures
        r == (if is_idle {
            1i32
        } else {
            0i32
        }),
{
    if is_idle {
        1
    } else {
        0
    }
}

} // verus!
