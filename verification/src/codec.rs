//! The byte format under which the finality checkpoint is persisted.
//!
//! Layout: the authority-set id as eight big-endian bytes, the block number
//! as four, the authority count as eight, then one forty-byte record per
//! authority — its thirty-two-byte public key followed by its weight as
//! eight big-endian bytes.  Decoding validates the layout and the
//! authority-set soundness, and decoding what encoding produced returns the
//! checkpoint it came from.

use vstd::prelude::*;

use crate::types::total_weight;
use crate::types::wf_authority_set;
use crate::types::Authority;
use crate::types::FinalitySyncCheckpoint;

verus! {

/// The big-endian bytes of a 64-bit number.
pub open spec fn u64_be_bytes(n: u64) -> Seq<u8> {
    seq![
        (n >> 56) as u8,
        (n >> 48) as u8,
        (n >> 40) as u8,
        (n >> 32) as u8,
        (n >> 24) as u8,
        (n >> 16) as u8,
        (n >> 8) as u8,
        n as u8,
    ]
}

/// The big-endian bytes of a 32-bit number.
pub open spec fn u32_be_bytes(n: u32) -> Seq<u8> {
    seq![(n >> 24) as u8, (n >> 16) as u8, (n >> 8) as u8, n as u8]
}

/// The 64-bit number eight big-endian bytes hold.
pub open spec fn u64_of_be(s: Seq<u8>) -> u64
    recommends
        s.len() == 8,
{
    ((s[0] as u64) << 56) | ((s[1] as u64) << 48) | ((s[2] as u64) << 40) | ((s[3] as u64) << 32)
        | ((s[4] as u64) << 24) | ((s[5] as u64) << 16) | ((s[6] as u64) << 8) | (s[7] as u64)
}

/// The 32-bit number four big-endian bytes hold.
pub open spec fn u32_of_be(s: Seq<u8>) -> u32
    recommends
        s.len() == 4,
{
    ((s[0] as u32) << 24) | ((s[1] as u32) << 16) | ((s[2] as u32) << 8) | (s[3] as u32)
}

pub proof fn lemma_u64_be_round_trip(n: u64)
    ensures
        u64_of_be(u64_be_bytes(n)) == n,
{
    assert((((n >> 56) as u8 as u64) << 56) | (((n >> 48) as u8 as u64) << 48) | (((n >> 40) as u8
        as u64) << 40) | (((n >> 32) as u8 as u64) << 32) | (((n >> 24) as u8 as u64) << 24) | (((n
        >> 16) as u8 as u64) << 16) | (((n >> 8) as u8 as u64) << 8) | (n as u8 as u64) == n)
        by (bit_vector);
}

pub proof fn lemma_u32_be_round_trip(n: u32)
    ensures
        u32_of_be(u32_be_bytes(n)) == n,
{
    assert((((n >> 24) as u8 as u32) << 24) | (((n >> 16) as u8 as u32) << 16) | (((n >> 8) as u8
        as u32) << 8) | (n as u8 as u32) == n) by (bit_vector);
}

/// One authority's forty-byte record.
pub open spec fn encode_authority(a: Authority) -> Seq<u8> {
    a.public_key@ + u64_be_bytes(a.weight)
}

/// The concatenated records of an authority sequence.
pub open spec fn encode_authorities(s: Seq<Authority>) -> Seq<u8>
    decreases s.len(),
{
    if s.len() == 0 {
        Seq::empty()
    } else {
        encode_authorities(s.drop_last()) + encode_authority(s.last())
    }
}

/// The persisted bytes of a checkpoint.
pub open spec fn encode_checkpoint_spec(c: FinalitySyncCheckpoint) -> Seq<u8> {
    u64_be_bytes(c.set_id) + u32_be_bytes(c.block_number) + u64_be_bytes(
        c.authorities@.len() as u64,
    ) + encode_authorities(c.authorities@)
}

/// An authority sequence reduced to plain values: each member's key bytes
/// and weight.
pub open spec fn authority_views(s: Seq<Authority>) -> Seq<(Seq<u8>, u64)> {
    s.map_values(|a: Authority| (a.public_key@, a.weight))
}

/// The checkpoint reduced to plain values.
pub open spec fn checkpoint_view(c: FinalitySyncCheckpoint) -> (u64, u32, Seq<(Seq<u8>, u64)>) {
    (c.set_id, c.block_number, authority_views(c.authorities@))
}

/// Sum of the weights of reduced authority records.
pub open spec fn view_total_weight(s: Seq<(Seq<u8>, u64)>) -> int
    decreases s.len(),
{
    if s.len() == 0 {
        0
    } else {
        view_total_weight(s.drop_last()) + s.last().1
    }
}

/// Soundness of reduced authority records: at least one, thirty-two-byte
/// keys, positive weights, bounded total.
pub open spec fn view_set_wf(s: Seq<(Seq<u8>, u64)>) -> bool {
    &&& s.len() >= 1
    &&& forall|i: int| 0 <= i < s.len() ==> (#[trigger] s[i]).0.len() == 32 && s[i].1 >= 1
    &&& view_total_weight(s) <= 0x5555_5555_5555_5555
}

/// The authority records that a byte sequence holds from offset twenty on.
pub open spec fn decode_authority_views(b: Seq<u8>, n: nat) -> Seq<(Seq<u8>, u64)> {
    Seq::new(
        n,
        |i: int| (b.subrange(20 + 40 * i, 20 + 40 * i + 32), u64_of_be(b.subrange(20 + 40 * i + 32, 20 + 40 * i + 40))),
    )
}

/// What a persisted byte sequence denotes: the checkpoint's plain values,
/// or nothing when the layout or the authority set is unsound.
pub open spec fn decode_checkpoint_spec(b: Seq<u8>) -> Option<(u64, u32, Seq<(Seq<u8>, u64)>)> {
    if b.len() < 20 {
        None
    } else {
        let set_id = u64_of_be(b.subrange(0, 8));
        let block_number = u32_of_be(b.subrange(8, 12));
        let n = u64_of_be(b.subrange(12, 20));
        if n < 1 || b.len() != 20 + 40 * n {
            None
        } else {
            let auths = decode_authority_views(b, n as nat);
            if view_set_wf(auths) {
                Some((set_id, block_number, auths))
            } else {
                None
            }
        }
    }
}

/// Weights reduce the same before and after the reduction to plain values.
pub proof fn lemma_view_total_weight(s: Seq<Authority>)
    ensures
        view_total_weight(authority_views(s)) == total_weight(s),
    decreases s.len(),
{
    if s.len() > 0 {
        assert(authority_views(s).drop_last() =~= authority_views(s.drop_last()));
        lemma_view_total_weight(s.drop_last());
    }
}

/// A sound authority set reduces to sound records.
pub proof fn lemma_view_set_wf(s: Seq<Authority>)
    requires
        wf_authority_set(s),
    ensures
        view_set_wf(authority_views(s)),
{
    lemma_view_total_weight(s);
}

/// Authority records concatenate to forty bytes each.
pub proof fn lemma_encode_authorities_len(s: Seq<Authority>)
    requires
        forall|i: int| 0 <= i < s.len() ==> (#[trigger] s[i]).public_key@.len() == 32,
    ensures
        encode_authorities(s).len() == 40 * s.len(),
    decreases s.len(),
{
    if s.len() > 0 {
        lemma_encode_authorities_len(s.drop_last());
    }
}

/// Each authority's record sits at its forty-byte slot of the concatenation.
pub proof fn lemma_encode_authorities_slot(s: Seq<Authority>, i: int)
    requires
        forall|j: int| 0 <= j < s.len() ==> (#[trigger] s[j]).public_key@.len() == 32,
        0 <= i < s.len(),
    ensures
        encode_authorities(s).subrange(40 * i, 40 * i + 40) =~= encode_authority(s[i]),
    decreases s.len(),
{
    lemma_encode_authorities_len(s);
    if i == s.len() - 1 {
        lemma_encode_authorities_len(s.drop_last());
        assert(encode_authorities(s).subrange(40 * i, 40 * i + 40) =~= encode_authority(s.last()));
    } else {
        lemma_encode_authorities_len(s.drop_last());
        assert(s.drop_last()[i] == s[i]);
        lemma_encode_authorities_slot(s.drop_last(), i);
        assert(encode_authorities(s).subrange(40 * i, 40 * i + 40) =~= encode_authorities(
            s.drop_last(),
        ).subrange(40 * i, 40 * i + 40));
    }
}

/// Appends the big-endian bytes of a 64-bit number.
fn push_u64_be(out: &mut Vec<u8>, n: u64)
    ensures
        final(out)@ == old(out)@ + u64_be_bytes(n),
{
    out.push(#[verifier::truncate] ((n >> 56) as u8));
    out.push(#[verifier::truncate] ((n >> 48) as u8));
    out.push(#[verifier::truncate] ((n >> 40) as u8));
    out.push(#[verifier::truncate] ((n >> 32) as u8));
    out.push(#[verifier::truncate] ((n >> 24) as u8));
    out.push(#[verifier::truncate] ((n >> 16) as u8));
    out.push(#[verifier::truncate] ((n >> 8) as u8));
    out.push(#[verifier::truncate] (n as u8));
    proof {
        assert(out@ =~= old(out)@ + u64_be_bytes(n));
    }
}

/// Appends the big-endian bytes of a 32-bit number.
fn push_u32_be(out: &mut Vec<u8>, n: u32)
    ensures
        final(out)@ == old(out)@ + u32_be_bytes(n),
{
    out.push(#[verifier::truncate] ((n >> 24) as u8));
    out.push(#[verifier::truncate] ((n >> 16) as u8));
    out.push(#[verifier::truncate] ((n >> 8) as u8));
    out.push(#[verifier::truncate] (n as u8));
    proof {
        assert(out@ =~= old(out)@ + u32_be_bytes(n));
    }
}

/// Appends a copy of a byte vector.
fn push_bytes(out: &mut Vec<u8>, bytes: &Vec<u8>)
    ensures
        final(out)@ == old(out)@ + bytes@,
{
    let mut i: usize = 0;
    while i < bytes.len()
        invariant
            i <= bytes@.len(),
            out@ == old(out)@ + bytes@.subrange(0, i as int),
        decreases bytes@.len() - i,
    {
        out.push(bytes[i]);
        i = i + 1;
        proof {
            assert(out@ =~= old(out)@ + bytes@.subrange(0, i as int));
        }
    }
    proof {
        assert(out@ =~= old(out)@ + bytes@);
    }
}

/// Renders a checkpoint into its persisted bytes.
pub fn encode_finality_sync_checkpoint(c: &FinalitySyncCheckpoint) -> (r: Vec<u8>)
    ensures
        r@ == encode_checkpoint_spec(*c),
{
    let mut out: Vec<u8> = Vec::new();
    push_u64_be(&mut out, c.set_id);
    push_u32_be(&mut out, c.block_number);
    push_u64_be(&mut out, c.authorities.len() as u64);
    let mut i: usize = 0;
    while i < c.authorities.len()
        invariant
            i <= c.authorities@.len(),
            out@ == u64_be_bytes(c.set_id) + u32_be_bytes(c.block_number) + u64_be_bytes(
                c.authorities@.len() as u64,
            ) + encode_authorities(c.authorities@.subrange(0, i as int)),
        decreases c.authorities@.len() - i,
    {
        push_bytes(&mut out, &c.authorities[i].public_key);
        push_u64_be(&mut out, c.authorities[i].weight);
        i = i + 1;
        proof {
            let pre = c.authorities@.subrange(0, i as int);
            assert(pre.drop_last() =~= c.authorities@.subrange(0, i - 1));
            assert(pre.last() == c.authorities@[i - 1]);
            assert(out@ =~= u64_be_bytes(c.set_id) + u32_be_bytes(c.block_number) + u64_be_bytes(
                c.authorities@.len() as u64,
            ) + encode_authorities(pre));
        }
    }
    proof {
        assert(c.authorities@.subrange(0, c.authorities@.len() as int) =~= c.authorities@);
        assert(out@ =~= encode_checkpoint_spec(*c));
    }
    out
}

/// Reads the 64-bit number at an offset.
fn read_u64_be(bytes: &Vec<u8>, off: usize) -> (r: u64)
    requires
        off + 8 <= bytes@.len(),
    ensures
        r == u64_of_be(bytes@.subrange(off as int, off as int + 8)),
{
    let len: usize = bytes.len();
    proof {
        assert(off + 8 <= len);
    }
    let r = ((bytes[off] as u64) << 56) | ((bytes[off + 1] as u64) << 48) | ((bytes[off + 2]
        as u64) << 40) | ((bytes[off + 3] as u64) << 32) | ((bytes[off + 4] as u64) << 24) | ((
    bytes[off + 5] as u64) << 16) | ((bytes[off + 6] as u64) << 8) | (bytes[off + 7] as u64);
    proof {
        let s = bytes@.subrange(off as int, off as int + 8);
        assert(s[0] == bytes@[off as int]);
        assert(s[1] == bytes@[off as int + 1]);
        assert(s[2] == bytes@[off as int + 2]);
        assert(s[3] == bytes@[off as int + 3]);
        assert(s[4] == bytes@[off as int + 4]);
        assert(s[5] == bytes@[off as int + 5]);
        assert(s[6] == bytes@[off as int + 6]);
        assert(s[7] == bytes@[off as int + 7]);
    }
    r
}

/// Reads the 32-bit number at an offset.
fn read_u32_be(bytes: &Vec<u8>, off: usize) -> (r: u32)
    requires
        off + 4 <= bytes@.len(),
    ensures
        r == u32_of_be(bytes@.subrange(off as int, off as int + 4)),
{
    let len: usize = bytes.len();
    proof {
        assert(off + 4 <= len);
    }
    let r = ((bytes[off] as u32) << 24) | ((bytes[off + 1] as u32) << 16) | ((bytes[off + 2]
        as u32) << 8) | (bytes[off + 3] as u32);
    proof {
        let s = bytes@.subrange(off as int, off as int + 4);
        assert(s[0] == bytes@[off as int]);
        assert(s[1] == bytes@[off as int + 1]);
        assert(s[2] == bytes@[off as int + 2]);
        assert(s[3] == bytes@[off as int + 3]);
    }
    r
}

/// A record run's weight only grows as records are taken in.
proof fn lemma_view_weight_prefix(s: Seq<(Seq<u8>, u64)>, i: int)
    requires
        0 <= i <= s.len(),
    ensures
        view_total_weight(s.subrange(0, i)) <= view_total_weight(s),
    decreases s.len() - i,
{
    if i < s.len() {
        assert(s.subrange(0, i + 1).drop_last() =~= s.subrange(0, i));
        assert(s.subrange(0, i + 1).last() == s[i]);
        lemma_view_weight_prefix(s, i + 1);
        assert(s.subrange(0, s.len() as int) =~= s);
    } else {
        assert(s.subrange(0, i) =~= s);
    }
}

/// Reads a checkpoint back from its persisted bytes, validating the layout
/// and the soundness of the authority set it holds.
pub fn decode_finality_sync_checkpoint(bytes: &Vec<u8>) -> (r: Option<FinalitySyncCheckpoint>)
    ensures
        match r {
            Some(c) => c.wf() && decode_checkpoint_spec(bytes@) == Some(checkpoint_view(c)),
            None => decode_checkpoint_spec(bytes@) is None,
        },
{
    if bytes.len() < 20 {
        return None;
    }
    let set_id = read_u64_be(bytes, 0);
    let block_number = read_u32_be(bytes, 8);
    let n = read_u64_be(bytes, 12);
    if n < 1 {
        return None;
    }
    let body: usize = bytes.len() - 20;
    if body % 40 != 0 || (body / 40) as u64 != n {
        proof {
            assert(bytes@.len() != 20 + 40 * (n as int));
        }
        return None;
    }
    let count: usize = body / 40;
    let len: usize = bytes.len();
    let ghost views = decode_authority_views(bytes@, n as nat);
    let mut authorities: Vec<Authority> = Vec::new();
    let mut total: u64 = 0;
    let mut i: usize = 0;
    while i < count
        invariant
            len == bytes@.len(),
            bytes@.len() == 20 + 40 * (count as int),
            count == n,
            i <= count,
            views == decode_authority_views(bytes@, n as nat),
            views.len() == count,
            authority_views(authorities@) =~= views.subrange(0, i as int),
            total == view_total_weight(views.subrange(0, i as int)),
            total <= 0x5555_5555_5555_5555,
            forall|j: int|
                0 <= j < i ==> (#[trigger] authorities@[j]).public_key@.len() == 32
                    && authorities@[j].weight >= 1,
        decreases count - i,
    {
        let base: usize = 20 + 40 * i;
        let mut public_key: Vec<u8> = Vec::new();
        let mut k: usize = 0;
        while k < 32
            invariant
                bytes@.len() == 20 + 40 * (count as int),
                i < count,
                base == 20 + 40 * i,
                k <= 32,
                public_key@ =~= bytes@.subrange(base as int, base as int + k as int),
            decreases 32 - k,
        {
            public_key.push(bytes[base + k]);
            k = k + 1;
            proof {
                assert(public_key@ =~= bytes@.subrange(base as int, base as int + k as int));
            }
        }
        let weight = read_u64_be(bytes, base + 32);
        proof {
            assert(views[i as int] == (
                bytes@.subrange(20 + 40 * (i as int), 20 + 40 * (i as int) + 32),
                u64_of_be(
                    bytes@.subrange(20 + 40 * (i as int) + 32, 20 + 40 * (i as int) + 40),
                ),
            ));
            assert(public_key@ =~= views[i as int].0);
        }
        if weight < 1 {
            proof {
                assert(!view_set_wf(views));
            }
            return None;
        }
        if weight > 0x5555_5555_5555_5555 - total {
            proof {
                assert(views.subrange(0, i + 1).drop_last() =~= views.subrange(0, i as int));
                assert(views.subrange(0, i + 1).last() == views[i as int]);
                assert(view_total_weight(views.subrange(0, i + 1)) > 0x5555_5555_5555_5555);
                lemma_view_weight_prefix(views, i + 1);
                assert(!view_set_wf(views));
            }
            return None;
        }
        total = total + weight;
        authorities.push(Authority { public_key, weight });
        i = i + 1;
        proof {
            assert(views.subrange(0, i as int).drop_last() =~= views.subrange(0, i - 1));
            assert(views.subrange(0, i as int).last() == views[i - 1]);
            assert(authority_views(authorities@) =~= views.subrange(0, i as int));
        }
    }
    proof {
        assert(views.subrange(0, count as int) =~= views);
        lemma_view_total_weight(authorities@);
        assert(view_set_wf(views));
    }
    Some(FinalitySyncCheckpoint { set_id, block_number, authorities })
}

/// Decoding what encoding produced returns the checkpoint it came from:
/// the persisted bytes of a sound checkpoint denote exactly its plain
/// values, so a restart resumes from the checkpoint it left behind.
pub proof fn lemma_checkpoint_codec_round_trip(c: FinalitySyncCheckpoint)
    requires
        c.wf(),
        c.authorities@.len() <= u64::MAX,
    ensures
        decode_checkpoint_spec(encode_checkpoint_spec(c)) == Some(checkpoint_view(c)),
{
    let b = encode_checkpoint_spec(c);
    let s = c.authorities@;
    let n = s.len();
    lemma_encode_authorities_len(s);
    assert(b.len() == 20 + 40 * n);
    assert(b.subrange(0, 8) =~= u64_be_bytes(c.set_id));
    assert(b.subrange(8, 12) =~= u32_be_bytes(c.block_number));
    assert(b.subrange(12, 20) =~= u64_be_bytes(n as u64));
    lemma_u64_be_round_trip(c.set_id);
    lemma_u32_be_round_trip(c.block_number);
    lemma_u64_be_round_trip(n as u64);
    assert forall|i: int| 0 <= i < n implies decode_authority_views(b, n)[i] == authority_views(
        s,
    )[i] by {
        lemma_encode_authorities_slot(s, i);
        assert(b.subrange(20 + 40 * i, 20 + 40 * i + 40) =~= encode_authorities(s).subrange(
            40 * i,
            40 * i + 40,
        ));
        assert(b.subrange(20 + 40 * i, 20 + 40 * i + 32) =~= b.subrange(
            20 + 40 * i,
            20 + 40 * i + 40,
        ).subrange(0, 32));
        assert(b.subrange(20 + 40 * i + 32, 20 + 40 * i + 40) =~= b.subrange(
            20 + 40 * i,
            20 + 40 * i + 40,
        ).subrange(32, 40));
        assert(encode_authority(s[i]).subrange(0, 32) =~= s[i].public_key@);
        assert(encode_authority(s[i]).subrange(32, 40) =~= u64_be_bytes(s[i].weight));
        lemma_u64_be_round_trip(s[i].weight);
    }
    assert(decode_authority_views(b, n) =~= authority_views(s));
    lemma_view_set_wf(s);
}

} // verus!
