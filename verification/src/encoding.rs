//! Text encodings of bytes: base58 (`bs58` crate) and hexadecimal (`hex` crate).
use vstd::prelude::*;
use vstd::array::spec_array_update;
use vstd::string::StringSliceAdditionalSpecFns;
use crate::text::hex_lower;

verus! {

/// The bytes that base58 text decodes to (Bitcoin alphabet), or `None` if it is not valid
/// base58, as the `bs58` crate decodes it.
pub uninterp spec fn bs58_decoded(text: Seq<char>) -> Option<Seq<u8>>;

/// Calls `bs58::decode(text).into_vec()`. The contract claims that decoding succeeds exactly
/// when `bs58_decoded` gives bytes, and then returns them. The error text is the crate's
/// rendering of its decode error and is not stated.
#[verifier::external_body]
pub(crate) fn bs58_decode(text: &str) -> (r: Result<Vec<u8>, String>)
    ensures
        r is Ok <==> bs58_decoded(text@) is Some,
        r matches Ok(v) ==> bs58_decoded(text@) == Some(v@),
{
    bs58::decode(text).into_vec().map_err(|e| e.to_string())
}

/// Value of one hexadecimal digit byte: '0'-'9', 'a'-'f' and 'A'-'F'.
pub open spec fn hex_digit_value(b: u8) -> Option<u8> {
    if 0x30 <= b <= 0x39 {
        Some((b - 0x30) as u8)
    } else if 0x61 <= b <= 0x66 {
        Some((b - 0x61 + 10) as u8)
    } else if 0x41 <= b <= 0x46 {
        Some((b - 0x41 + 10) as u8)
    } else {
        None
    }
}

/// The bytes are an even number of hexadecimal digits.
pub open spec fn is_hex(bytes: Seq<u8>) -> bool {
    &&& bytes.len() % 2 == 0
    &&& forall|i: int| 0 <= i < bytes.len() ==> (#[trigger] hex_digit_value(bytes[i])) is Some
}

/// The bytes that pairs of hexadecimal digits denote, high digit first.
pub open spec fn hex_decoded(bytes: Seq<u8>) -> Seq<u8> {
    Seq::new(
        bytes.len() / 2,
        |i: int|
            (hex_digit_value(bytes[2 * i])->Some_0 * 16 + hex_digit_value(bytes[2 * i + 1])->Some_0) as u8,
    )
}

/// Calls `hex::decode` on the UTF-8 bytes of `text`. As the crate's source shows, it
/// succeeds exactly when the bytes are an even number of hex digits (either case), and then
/// yields one byte per digit pair. The error text is the crate's and is not stated.
#[verifier::external_body]
pub(crate) fn hex_decode(text: &str) -> (r: Result<Vec<u8>, String>)
    ensures
        r is Ok <==> is_hex(text.spec_bytes()),
        r matches Ok(v) ==> v@ == hex_decoded(text.spec_bytes()),
{
    hex::decode(text).map_err(|e| e.to_string())
}

/// Calls `hex::encode`: two lower-case hex digits per byte, as the crate documents.
#[verifier::external_body]
pub(crate) fn hex_encode(bytes: &[u8]) -> (r: String)
    ensures
        r@ == hex_lower(bytes@),
{
    hex::encode(bytes)
}

/// The N-byte array whose first `n` bytes are those of `s`, the rest zero.
pub open spec fn array_prefix<const N: usize>(s: Seq<u8>, n: nat) -> [u8; N]
    decreases n,
{
    if n == 0 {
        vstd::array::spec_array_fill_for_copy_type::<u8, N>(0u8)
    } else {
        spec_array_update(array_prefix::<N>(s, (n - 1) as nat), n - 1, s[n - 1])
    }
}

/// The N-byte array holding the bytes of `s`.
pub open spec fn array_of<const N: usize>(s: Seq<u8>) -> [u8; N] {
    array_prefix::<N>(s, N as nat)
}

/// The 32-byte array holding the bytes of `s`.
pub open spec fn array32(s: Seq<u8>) -> [u8; 32] {
    array_of::<32>(s)
}

proof fn lemma_array_prefix<const N: usize>(s: Seq<u8>, n: nat)
    requires
        s.len() == N,
        n <= N,
    ensures
        forall|i: int| 0 <= i < n ==> array_prefix::<N>(s, n)@[i] == s[i],
        forall|i: int| n <= i < N ==> array_prefix::<N>(s, n)@[i] == 0,
    decreases n,
{
    if n > 0 {
        lemma_array_prefix::<N>(s, (n - 1) as nat);
        assert(array_prefix::<N>(s, (n - 1) as nat)@.len() == N);
    } else {
        let z = vstd::array::spec_array_fill_for_copy_type::<u8, N>(0u8);
        assert(array_prefix::<N>(s, 0) == z);
        assert(forall|i: int| 0 <= i < N ==> z@[i] == 0);
    }
}

/// `array_of` turns N bytes into the array that holds them, and an array's bytes back
/// into the array.
pub proof fn lemma_array_of<const N: usize>(s: Seq<u8>, a: [u8; N])
    ensures
        s.len() == N ==> array_of::<N>(s)@ == s,
        array_of::<N>(a@) == a,
{
    if s.len() == N {
        lemma_array_prefix::<N>(s, N as nat);
        assert(array_of::<N>(s)@ =~= s);
    }
    lemma_array_prefix::<N>(a@, N as nat);
    assert(array_of::<N>(a@) =~= a);
}

/// `array32` turns 32 bytes into the array that holds them, and an array's bytes back
/// into the array.
pub proof fn lemma_array32(s: Seq<u8>, a: [u8; 32])
    ensures
        s.len() == 32 ==> array32(s)@ == s,
        array32(a@) == a,
{
    lemma_array_of::<32>(s, a);
}

/// Copy 32 bytes into an array.
pub fn to_array32(v: &[u8]) -> (a: [u8; 32])
    requires
        v@.len() == 32,
    ensures
        a@ == v@,
        a == array32(v@),
{
    let mut a = [0u8; 32];
    let mut i: usize = 0;
    while i < 32
        invariant
            0 <= i <= 32,
            v@.len() == 32,
            a@.len() == 32,
            forall|j: int| 0 <= j < i ==> a@[j] == v@[j],
        decreases 32 - i,
    {
        a[i] = v[i];
        i = i + 1;
    }
    assert(a@ =~= v@);
    proof {
        lemma_array32(v@, a);
    }
    a
}

} // verus!
