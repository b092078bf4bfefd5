//! Hashes, addresses and payload ids: byte arrays of a fixed length.

use vstd::prelude::*;

verus! {

/// The hash of an execution block, of a state root, of a beacon block root.
pub type BlockHash = [u8; 32];

/// An execution-layer account.
pub type Address = [u8; 20];

/// The id under which a built payload is kept: a counter, most significant byte first.
pub type PayloadId = [u8; 8];

/// Whether two arrays hold the same bytes.
pub fn same_bytes<const N: usize>(a: &[u8; N], b: &[u8; N]) -> (same: bool)
    ensures
        same == (*a == *b),
        same == (a@ == b@),
{
    let mut i: usize = 0;
    while i < N
        invariant
            i <= N,
            forall|j: int| 0 <= j < i ==> a[j] == b[j],
        decreases N - i,
    {
        if a[i] != b[i] {
            return false;
        }
        i += 1;
    }
    assert(*a =~= *b);
    true
}

/// The bytes of an array, appended to a vector.
pub fn extend_with<const N: usize>(out: &mut Vec<u8>, bytes: &[u8; N])
    ensures
        final(out)@ == old(out)@ + bytes@,
{
    let mut i: usize = 0;
    while i < N
        invariant
            i <= N,
            out@ == old(out)@ + bytes@.subrange(0, i as int),
        decreases N - i,
    {
        out.push(bytes[i]);
        i += 1;
        assert(out@ =~= old(out)@ + bytes@.subrange(0, i as int));
    }
    assert(bytes@.subrange(0, N as int) =~= bytes@);
}

/// The bytes of an array as a vector, to key a cache with.
pub fn key_of_hash<const N: usize>(hash: &[u8; N]) -> (key: Vec<u8>)
    ensures
        key@ == hash@,
{
    let mut key: Vec<u8> = Vec::new();
    extend_with(&mut key, hash);
    assert(key@ =~= hash@);
    key
}

/// The eight bytes of a number, most significant first.
#[verifier::opaque]
pub open spec fn be_bytes(n: u64) -> Seq<u8> {
    seq![
        (n / 0x100_0000_0000_0000 % 0x100) as u8,
        (n / 0x1_0000_0000_0000 % 0x100) as u8,
        (n / 0x100_0000_0000 % 0x100) as u8,
        (n / 0x1_0000_0000 % 0x100) as u8,
        (n / 0x100_0000 % 0x100) as u8,
        (n / 0x1_0000 % 0x100) as u8,
        (n / 0x100 % 0x100) as u8,
        (n % 0x100) as u8,
    ]
}

/// The number that eight bytes stand for, most significant first.
pub open spec fn be_value(bytes: Seq<u8>) -> nat
    recommends
        bytes.len() == 8,
{
    (bytes[0] as nat) * 0x100_0000_0000_0000 + (bytes[1] as nat) * 0x1_0000_0000_0000 + (
    bytes[2] as nat) * 0x100_0000_0000 + (bytes[3] as nat) * 0x1_0000_0000 + (bytes[4] as nat)
        * 0x100_0000 + (bytes[5] as nat) * 0x1_0000 + (bytes[6] as nat) * 0x100 + (bytes[7] as nat)
}

/// The bytes of a number stand for that number.
pub proof fn lemma_be_round_trip(n: u64)
    ensures
        be_bytes(n).len() == 8,
        be_value(be_bytes(n)) == n,
{
    reveal(be_bytes);
    assert((n / 0x100_0000_0000_0000 % 0x100) * 0x100_0000_0000_0000 + (n / 0x1_0000_0000_0000
        % 0x100) * 0x1_0000_0000_0000 + (n / 0x100_0000_0000 % 0x100) * 0x100_0000_0000 + (n
        / 0x1_0000_0000 % 0x100) * 0x1_0000_0000 + (n / 0x100_0000 % 0x100) * 0x100_0000 + (n
        / 0x1_0000 % 0x100) * 0x1_0000 + (n / 0x100 % 0x100) * 0x100 + (n % 0x100) == n)
        by (bit_vector);
}

/// Different numbers have different bytes.
pub proof fn lemma_be_bytes_injective(m: u64, n: u64)
    requires
        be_bytes(m) == be_bytes(n),
    ensures
        m == n,
{
    lemma_be_round_trip(m);
    lemma_be_round_trip(n);
}

/// Where two byte strings that begin with parts of one length are the same,
/// the parts are the same and the rests are the same.
pub proof fn lemma_same_parts(a1: Seq<u8>, b1: Seq<u8>, a2: Seq<u8>, b2: Seq<u8>)
    requires
        a1.len() == a2.len(),
        a1 + b1 == a2 + b2,
    ensures
        a1 == a2,
        b1 == b2,
{
    let n = a1.len() as int;
    assert(a1 =~= (a1 + b1).subrange(0, n));
    assert(a2 =~= (a2 + b2).subrange(0, n));
    assert(b1 =~= (a1 + b1).subrange(n, (a1 + b1).len() as int));
    assert(b2 =~= (a2 + b2).subrange(n, (a2 + b2).len() as int));
}

/// Arrays of the same bytes are the same array.
pub proof fn lemma_same_array<const N: usize>(a: [u8; N], b: [u8; N])
    requires
        a@ == b@,
    ensures
        a == b,
{
    assert(a =~= b);
}

/// The payload id that a counter stands for: its eight bytes, most significant first.
pub open spec fn payload_id_of(n: u64) -> PayloadId {
    [
        (n / 0x100_0000_0000_0000 % 0x100) as u8,
        (n / 0x1_0000_0000_0000 % 0x100) as u8,
        (n / 0x100_0000_0000 % 0x100) as u8,
        (n / 0x1_0000_0000 % 0x100) as u8,
        (n / 0x100_0000 % 0x100) as u8,
        (n / 0x1_0000 % 0x100) as u8,
        (n / 0x100 % 0x100) as u8,
        (n % 0x100) as u8,
    ]
}

/// The hash of 32 zero bytes.
pub open spec fn zero_hash() -> BlockHash {
    vstd::array::spec_array_fill_for_copy_type::<u8, 32>(0u8)
}

/// The eight bytes of a number, most significant first.
pub fn to_be_bytes(n: u64) -> (bytes: [u8; 8])
    ensures
        bytes@ == be_bytes(n),
        bytes == payload_id_of(n),
{
    let bytes: [u8; 8] = [
        (n / 0x100_0000_0000_0000 % 0x100) as u8,
        (n / 0x1_0000_0000_0000 % 0x100) as u8,
        (n / 0x100_0000_0000 % 0x100) as u8,
        (n / 0x1_0000_0000 % 0x100) as u8,
        (n / 0x100_0000 % 0x100) as u8,
        (n / 0x1_0000 % 0x100) as u8,
        (n / 0x100 % 0x100) as u8,
        (n % 0x100) as u8,
    ];
    proof {
        reveal(be_bytes);
    }
    assert(bytes@ =~= be_bytes(n));
    assert(bytes =~= payload_id_of(n));
    bytes
}

/// The number that eight bytes stand for, most significant first.
pub fn from_be_bytes(bytes: &[u8; 8]) -> (n: u64)
    ensures
        n == be_value(bytes@),
{
    (bytes[0] as u64) * 0x100_0000_0000_0000 + (bytes[1] as u64) * 0x1_0000_0000_0000 + (
    bytes[2] as u64) * 0x100_0000_0000 + (bytes[3] as u64) * 0x1_0000_0000 + (bytes[4] as u64)
        * 0x100_0000 + (bytes[5] as u64) * 0x1_0000 + (bytes[6] as u64) * 0x100 + (bytes[7] as u64)
}

} // verus!
