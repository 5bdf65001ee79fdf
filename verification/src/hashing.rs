use vstd::prelude::*;

verus! {

/// The 16-byte BLAKE2b digest that `sp_io::hashing::blake2_128` computes of a byte string.
pub uninterp spec fn blake2_128_of(data: Seq<u8>) -> Seq<u8>;

/// Calls `sp_io::hashing::blake2_128`. The contract claims only that the digest is the
/// value named `blake2_128_of` of exactly the bytes handed in; nothing is said of that value.
#[verifier::external_body]
fn blake2_128(data: &Vec<u8>) -> (digest: [u8; 16])
    ensures
        digest@ == blake2_128_of(data@),
{
    sp_io::hashing::blake2_128(data.as_slice())
}

/// The `n` low bytes of `x`, least significant first (SCALE encoding of a fixed-width integer).
pub open spec fn le_bytes(x: nat, n: nat) -> Seq<u8>
    decreases n,
{
    if n == 0 {
        Seq::empty()
    } else {
        seq![(x % 256) as u8] + le_bytes(x / 256, (n - 1) as nat)
    }
}

/// SCALE encoding of the tuple `(random, count, optional, extrinsic_index, block_number)`
/// that seeds every random draw of the pallet.
pub open spec fn random_payload(
    random: Seq<u8>,
    count: u64,
    optional: u64,
    extrinsic_index: u32,
    block_number: u32,
) -> Seq<u8> {
    random + le_bytes(count as nat, 8) + le_bytes(optional as nat, 8) + le_bytes(
        extrinsic_index as nat,
        4,
    ) + le_bytes(block_number as nat, 4)
}

/// SCALE encoding of a byte vector shorter than 64 bytes: a one-byte compact length, then the bytes.
pub open spec fn scale_short_vec(bytes: Seq<u8>) -> Seq<u8> {
    seq![(bytes.len() * 4) as u8] + bytes
}

/// The random hash drawn from a 32-byte random seed and the draw's context.
pub open spec fn random_hash_spec(
    random: Seq<u8>,
    count: u64,
    optional: u64,
    extrinsic_index: u32,
    block_number: u32,
) -> Seq<u8> {
    blake2_128_of(
        scale_short_vec(random_payload(random, count, optional, extrinsic_index, block_number)),
    )
}

/// Appends the `n` low bytes of `x`, least significant first.
fn push_le(out: &mut Vec<u8>, x: u64, n: usize)
    requires
        n <= 8,
    ensures
        final(out)@ == old(out)@ + le_bytes(x as nat, n as nat),
{
    let mut v: u64 = x;
    let mut i: usize = 0;
    while i < n
        invariant
            i <= n,
            out@ + le_bytes(v as nat, (n - i) as nat) == old(out)@ + le_bytes(x as nat, n as nat),
        decreases n - i,
    {
        let ghost before = out@;
        assert(le_bytes(v as nat, (n - i) as nat) =~= seq![(v % 256) as u8] + le_bytes(
            (v / 256) as nat,
            (n - i - 1) as nat,
        ));
        out.push((v % 256) as u8);
        assert(before + le_bytes(v as nat, (n - i) as nat) =~= out@ + le_bytes(
            (v / 256) as nat,
            (n - i - 1) as nat,
        ));
        v = v / 256;
        i = i + 1;
    }
    assert(le_bytes(v as nat, 0) =~= Seq::<u8>::empty());
    assert(out@ =~= out@ + le_bytes(v as nat, 0));
}

/// Hashes a 32-byte random seed together with the draw's context into 16 random bytes.
pub fn random_hash(
    random: &[u8; 32],
    count: u64,
    optional: u64,
    extrinsic_index: u32,
    block_number: u32,
) -> (hash: [u8; 16])
    ensures
        hash@ == random_hash_spec(random@, count, optional, extrinsic_index, block_number),
{
    let mut encoded: Vec<u8> = Vec::new();
    // the payload is 56 bytes long: its compact length prefix is 56 * 4
    encoded.push(224u8);
    let mut i: usize = 0;
    while i < 32
        invariant
            0 <= i <= 32,
            encoded@ == seq![224u8] + random@.subrange(0, i as int),
        decreases 32 - i,
    {
        encoded.push(random[i]);
        assert(random@.subrange(0, i as int + 1) =~= random@.subrange(0, i as int).push(random@[i as int]));
        i = i + 1;
    }
    assert(random@.subrange(0, 32) =~= random@);
    push_le(&mut encoded, count, 8);
    push_le(&mut encoded, optional, 8);
    push_le(&mut encoded, extrinsic_index as u64, 4);
    push_le(&mut encoded, block_number as u64, 4);
    let ghost payload = random_payload(random@, count, optional, extrinsic_index, block_number);
    assert(payload.len() == 56) by {
        reveal_with_fuel(le_bytes, 9);
    }
    assert(encoded@ =~= scale_short_vec(payload));
    blake2_128(&encoded)
}

} // verus!
