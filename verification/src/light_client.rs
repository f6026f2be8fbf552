//! The live availability-sampling engine.
//!
//! Once per newly finalized header, in event order: derive how many cells
//! the target confidence demands, pick that many distinct coordinates of
//! the block's matrix, have the surrounding process fetch each cell — the
//! distributed table first, the node as fallback — and verify its proof,
//! then count what verified, derive the confidence, record it and publish
//! it.  A block whose record already exists is left exactly as it is: each
//! block is processed once, and processing it again changes nothing and
//! publishes nothing.

use vstd::prelude::*;

use crate::confidence::confidence_ppm;
use crate::confidence::confidence_ppm_spec;
use crate::confidence::required_cell_count;
use crate::confidence::PPM_SCALE;
use crate::store::is_confidence_in_db;
use crate::store::store_blocks_list_in_db;
use crate::store::store_block_header_in_db;
use crate::store::store_confidence_achieved_blocks_in_db;
use crate::store::store_confidence_achieved_message_in_db;
use crate::store::store_confidence_in_db;
use crate::store::store_latest_block_in_db;
use crate::store::Store;
use crate::types::BlockHeader;
use crate::types::ConfidenceRecord;
use crate::types::Dimensions;
use crate::types::Position;
use crate::types::PublishMessage;
use crate::types::State;

verus! {

/// How many of the flags are set.
pub open spec fn count_true(s: Seq<bool>) -> int
    decreases s.len(),
{
    if s.len() == 0 {
        0
    } else {
        count_true(s.drop_last()) + if s.last() {
            1int
        } else {
            0int
        }
    }
}

pub proof fn lemma_count_true_bounds(s: Seq<bool>)
    ensures
        0 <= count_true(s) <= s.len(),
    decreases s.len(),
{
    if s.len() > 0 {
        lemma_count_true_bounds(s.drop_last());
    }
}

/// Counts the set flags.
pub fn count_verified(flags: &Vec<bool>) -> (r: usize)
    ensures
        r == count_true(flags@),
{
    let mut ct: usize = 0;
    let mut i: usize = 0;
    while i < flags.len()
        invariant
            i <= flags@.len(),
            ct == count_true(flags@.subrange(0, i as int)),
            ct <= i,
        decreases flags@.len() - i,
    {
        proof {
            assert(flags@.subrange(0, i + 1).drop_last() =~= flags@.subrange(0, i as int));
            assert(flags@.subrange(0, i + 1).last() == flags@[i as int]);
        }
        if flags[i] {
            ct = ct + 1;
        }
        i = i + 1;
    }
    proof {
        assert(flags@.subrange(0, flags@.len() as int) =~= flags@);
    }
    ct
}

/// Distinct coordinates, all inside the matrix.
pub open spec fn positions_wf(ps: Seq<Position>, dims: Dimensions) -> bool {
    &&& forall|i: int| 0 <= i < ps.len() ==> (#[trigger] ps[i]).in_bounds(dims)
    &&& forall|i: int, j: int| 0 <= i < j < ps.len() ==> ps[i] != ps[j]
}

/// The coordinate a flat matrix index names, row-major.
pub open spec fn pos_of_index(dims: Dimensions, idx: int) -> Position {
    Position { row: (idx / dims.cols as int) as u16, col: (idx % dims.cols as int) as u16 }
}

/// Distinct flat indices name distinct coordinates.
proof fn lemma_pos_of_index_injective(dims: Dimensions, a: int, b: int)
    requires
        dims.wf(),
        0 <= a < dims.total_cells_spec(),
        0 <= b < dims.total_cells_spec(),
        a != b,
    ensures
        pos_of_index(dims, a) != pos_of_index(dims, b),
        pos_of_index(dims, a).in_bounds(dims),
{
    let c = dims.cols as int;
    vstd::arithmetic::div_mod::lemma_fundamental_div_mod(a, c);
    vstd::arithmetic::div_mod::lemma_fundamental_div_mod(b, c);
    vstd::arithmetic::div_mod::lemma_mod_bound(a, c);
    vstd::arithmetic::div_mod::lemma_mod_bound(b, c);
    assert(a / c < dims.rows && b / c < dims.rows) by (nonlinear_arith)
        requires
            c >= 1,
            a >= 0,
            b >= 0,
            a < dims.rows * c,
            b < dims.rows * c,
    ;
    assert(a / c >= 0 && b / c >= 0) by {
        vstd::arithmetic::div_mod::lemma_div_pos_is_pos(a, c);
        vstd::arithmetic::div_mod::lemma_div_pos_is_pos(b, c);
    }
    if a / c == b / c && a % c == b % c {
        assert(a == b);
    }
}

/// A flat index of the matrix names a coordinate inside it.
proof fn lemma_pos_of_index_bounds(dims: Dimensions, a: int)
    requires
        dims.wf(),
        0 <= a < dims.total_cells_spec(),
    ensures
        0 <= a / (dims.cols as int) < dims.rows,
        0 <= a % (dims.cols as int) < dims.cols,
        pos_of_index(dims, a).in_bounds(dims),
{
    let c = dims.cols as int;
    vstd::arithmetic::div_mod::lemma_mod_bound(a, c);
    vstd::arithmetic::div_mod::lemma_div_pos_is_pos(a, c);
    assert(a / c < dims.rows) by (nonlinear_arith)
        requires
            c >= 1,
            a >= 0,
            a < dims.rows * c,
    ;
}

/// A scrambling of the seed and a sample number: exclusive-or/shift
/// mixing, so nearby inputs land far apart.
pub open spec fn scramble_spec(seed: u64, m: u64) -> u64 {
    let x0 = seed ^ ((m * 0x9E37_79B9 + 0x85EB_CA6B) as u64);
    let x1 = x0 ^ (x0 << 13);
    let x2 = x1 ^ (x1 >> 7);
    x2 ^ (x2 << 17)
}

/// Computes the scrambling of the seed and a sample number.
fn scramble(seed: u64, m: u64) -> (r: u64)
    requires
        m <= 0xffff_ffff,
    ensures
        r == scramble_spec(seed, m),
{
    proof {
        assert(m * 0x9E37_79B9 + 0x85EB_CA6B <= 0xffff_ffffu64 * 0x9E37_79B9 + 0x85EB_CA6B);
    }
    let x0 = seed ^ (m * 0x9E37_79B9 + 0x85EB_CA6B);
    let x1 = x0 ^ (x0 << 13u64);
    let x2 = x1 ^ (x1 >> 7u64);
    x2 ^ (x2 << 17u64)
}

/// The flat index of the `m`-th of `k` samples over a matrix of `total`
/// cells: the matrix is cut into `k` equal strides, the whole pattern is
/// rotated by a seed-drawn start, and each sample sits at a seed-drawn
/// offset inside its own stride — scattered across the matrix, never two
/// in one place.
pub open spec fn sample_index_spec(seed: u64, m: int, k: int, total: int) -> int
    recommends
        1 <= k <= total,
        0 <= m < k,
{
    let step = total / k;
    let start = (scramble_spec(seed, 0) as int) % total;
    let offset = (scramble_spec(seed, (m + 1) as u64) as int) % step;
    let v = start + m * step + offset;
    if v < total {
        v
    } else {
        v - total
    }
}

/// Every sample's flat index lies inside the matrix, and its raw value
/// before the rotation wrap stays under one stride short of twice the
/// matrix.
proof fn lemma_sample_index_bounds(seed: u64, m: int, k: int, total: int)
    requires
        1 <= k <= total,
        0 <= m < k,
    ensures
        0 <= sample_index_spec(seed, m, k, total) < total,
{
    let step = total / k;
    vstd::arithmetic::div_mod::lemma_div_non_zero(total, k);
    vstd::arithmetic::div_mod::lemma_mod_bound(scramble_spec(seed, 0) as int, total);
    vstd::arithmetic::div_mod::lemma_mod_bound(scramble_spec(seed, (m + 1) as u64) as int, step);
    vstd::arithmetic::div_mod::lemma_fundamental_div_mod(total, k);
    vstd::arithmetic::div_mod::lemma_mod_bound(total, k);
    assert(m * step >= 0 && m * step <= (k - 1) * step && (k - 1) * step + step == k * step)
        by (nonlinear_arith)
        requires
            0 <= m <= k - 1,
            step >= 0,
    ;
}

/// Two samples of one round never share a flat index: their raw values
/// differ by at least one and by less than the matrix, so the rotation
/// wrap cannot make them meet.
proof fn lemma_sample_index_distinct(seed: u64, m1: int, m2: int, k: int, total: int)
    requires
        1 <= k <= total,
        0 <= m1 < m2 < k,
    ensures
        sample_index_spec(seed, m1, k, total) != sample_index_spec(seed, m2, k, total),
{
    let step = total / k;
    lemma_sample_index_bounds(seed, m1, k, total);
    lemma_sample_index_bounds(seed, m2, k, total);
    vstd::arithmetic::div_mod::lemma_div_non_zero(total, k);
    vstd::arithmetic::div_mod::lemma_mod_bound(scramble_spec(seed, (m1 + 1) as u64) as int, step);
    vstd::arithmetic::div_mod::lemma_mod_bound(scramble_spec(seed, (m2 + 1) as u64) as int, step);
    vstd::arithmetic::div_mod::lemma_fundamental_div_mod(total, k);
    vstd::arithmetic::div_mod::lemma_mod_bound(total, k);
    assert((m2 - m1) * step >= 1 * step && m2 * step - m1 * step == (m2 - m1) * step && m2 * step
        <= (k - 1) * step && m1 * step >= 0 && (k - 1) * step + step == k * step)
        by (nonlinear_arith)
        requires
            1 <= m2 - m1,
            0 <= m1,
            m2 <= k - 1,
            step >= 1,
    ;
}

/// Picks `count` distinct cell coordinates of the matrix, fewer only when
/// the matrix has fewer cells.  The coordinates are drawn from the seed,
/// scattered across the whole matrix: one inside each equal stride of it.
pub fn sample_positions(dims: Dimensions, count: u64, seed: u64) -> (r: Vec<Position>)
    requires
        dims.wf(),
    ensures
        positions_wf(r@, dims),
        r@.len() == vstd::math::min(count as int, dims.total_cells_spec() as int),
        forall|m: int|
            0 <= m < r@.len() ==> r@[m] == pos_of_index(
                dims,
                sample_index_spec(
                    seed,
                    m,
                    r@.len() as int,
                    dims.total_cells_spec() as int,
                ),
            ),
{
    let total: u64 = dims.total_cells();
    let k: u64 = if count < total {
        count
    } else {
        total
    };
    if k == 0 {
        return Vec::new();
    }
    let step: u64 = total / k;
    let start: u64 = scramble(seed, 0) % total;
    proof {
        vstd::arithmetic::div_mod::lemma_div_non_zero(total as int, k as int);
        vstd::arithmetic::div_mod::lemma_mod_bound(scramble_spec(seed, 0) as int, total as int);
        vstd::arithmetic::div_mod::lemma_fundamental_div_mod(total as int, k as int);
        vstd::arithmetic::div_mod::lemma_mod_bound(total as int, k as int);
    }
    let mut r: Vec<Position> = Vec::new();
    let mut i: u64 = 0;
    while i < k
        invariant
            dims.wf(),
            total == dims.total_cells_spec(),
            total <= 0xfffe0001,
            1 <= k <= total,
            step == total as int / k as int,
            1 <= step,
            k * step <= total,
            start == (scramble_spec(seed, 0) as int) % (total as int),
            start < total,
            i <= k,
            r@.len() == i,
            forall|m: int|
                0 <= m < i ==> r@[m] == pos_of_index(
                    dims,
                    sample_index_spec(seed, m, k as int, total as int),
                ),
        decreases k - i,
    {
        proof {
            assert(i * step <= (k - 1) * step && (k - 1) * step + step == k * step)
                by (nonlinear_arith)
                requires
                    0 <= i <= k - 1,
                    step >= 0,
            ;
            vstd::arithmetic::div_mod::lemma_mod_bound(
                scramble_spec(seed, (i + 1) as u64) as int,
                step as int,
            );
        }
        let offset: u64 = scramble(seed, i + 1) % step;
        let v: u64 = start + i * step + offset;
        let idx: u64 = if v < total {
            v
        } else {
            v - total
        };
        proof {
            assert(idx == sample_index_spec(seed, i as int, k as int, total as int));
            lemma_sample_index_bounds(seed, i as int, k as int, total as int);
            lemma_pos_of_index_bounds(dims, idx as int);
        }
        let row: u16 = (idx / (dims.cols as u64)) as u16;
        let col: u16 = (idx % (dims.cols as u64)) as u16;
        proof {
            assert(Position { row, col } == pos_of_index(dims, idx as int));
        }
        r.push(Position { row, col });
        i = i + 1;
    }
    proof {
        assert forall|m: int, n: int| 0 <= m < n < r@.len() implies r@[m] != r@[n] by {
            lemma_sample_index_distinct(seed, m, n, k as int, total as int);
            lemma_sample_index_bounds(seed, m, k as int, total as int);
            lemma_sample_index_bounds(seed, n, k as int, total as int);
            lemma_pos_of_index_injective(
                dims,
                sample_index_spec(seed, m, k as int, total as int),
                sample_index_spec(seed, n, k as int, total as int),
            );
        }
        assert forall|m: int| 0 <= m < r@.len() implies (#[trigger] r@[m]).in_bounds(dims) by {
            lemma_sample_index_bounds(seed, m, k as int, total as int);
            lemma_pos_of_index_bounds(
                dims,
                sample_index_spec(seed, m, k as int, total as int),
            );
        }
    }
    r
}

/// The filled fetch rounds so far: round `b` holds exactly the coordinates
/// of its full slice, and every filled round lies before position `i`.
pub open spec fn batches_ok(r: Seq<Vec<Position>>, positions: Seq<Position>, l: int, i: int) -> bool {
    forall|b: int| #![trigger r[b]]
        0 <= b < r.len() ==> r[b]@ == positions.subrange(b * l, (b + 1) * l) && (b + 1) * l <= i
}

/// A filled round stays filled as the cursor moves on.
proof fn lemma_batches_ok_later(
    r: Seq<Vec<Position>>,
    positions: Seq<Position>,
    l: int,
    i1: int,
    i2: int,
)
    requires
        batches_ok(r, positions, l, i1),
        i1 <= i2,
    ensures
        batches_ok(r, positions, l, i2),
{
    assert forall|b: int|
        0 <= b < r.len() implies (#[trigger] r[b])@ == positions.subrange(b * l, (b + 1) * l) && (
        b + 1) * l <= i2 by {
        assert(0 <= b < r.len());
        assert(r[b]@ == positions.subrange(b * l, (b + 1) * l));
        assert((b + 1) * l <= i1);
    }
}

/// Filling one more round keeps the rounds filled.
proof fn lemma_batches_ok_fill(
    r: Seq<Vec<Position>>,
    v: Vec<Position>,
    positions: Seq<Position>,
    l: int,
    i: int,
)
    requires
        batches_ok(r, positions, l, i),
        v@ == positions.subrange(r.len() * l, (r.len() + 1) * l),
        (r.len() + 1) * l <= i,
    ensures
        batches_ok(r.push(v), positions, l, i),
{
    let t = r.push(v);
    assert forall|b: int|
        0 <= b < t.len() implies (#[trigger] t[b])@ == positions.subrange(b * l, (b + 1) * l) && (
        b + 1) * l <= i by {
        if b < r.len() {
            assert(t[b] == r[b]);
            assert(r[b]@ == positions.subrange(b * l, (b + 1) * l));
            assert((b + 1) * l <= i);
        } else {
            assert(t[b] == v);
        }
    }
}

/// Splits the sampled coordinates into fetch rounds: each round issues at
/// most `limit` parallel lookups, every round but the last is full, and
/// the rounds cover the coordinates in order.  The bound on outstanding
/// lookups is the parallelization limit of the configuration.
pub fn fetch_batches(positions: &Vec<Position>, limit: usize) -> (r: Vec<Vec<Position>>)
    requires
        1 <= limit,
    ensures
        r@.len() == (positions@.len() + limit - 1) / (limit as int),
        forall|b: int|
            0 <= b < r@.len() ==> (#[trigger] r@[b])@ == positions@.subrange(
                b * (limit as int),
                vstd::math::min((b + 1) * (limit as int), positions@.len() as int),
            ),
{
    let ghost n = positions@.len() as int;
    let ghost l = limit as int;
    let mut r: Vec<Vec<Position>> = Vec::new();
    let mut current: Vec<Position> = Vec::new();
    let mut i: usize = 0;
    proof {
        assert(r@.len() * l == 0) by (nonlinear_arith)
            requires
                r@.len() == 0,
        ;
        assert(current@ =~= positions@.subrange(0, 0));
    }
    while i < positions.len()
        invariant
            1 <= l,
            l == limit,
            n == positions@.len(),
            i <= n,
            current@.len() < limit,
            r@.len() * l + current@.len() == i,
            current@ == positions@.subrange(r@.len() * l, i as int),
            batches_ok(r@, positions@, l, i as int),
        decreases n - i,
    {
        current.push(positions[i]);
        i = i + 1;
        proof {
            assert(current@ =~= positions@.subrange(r@.len() * l, i as int));
        }
        if current.len() == limit {
            let ghost b0 = r@.len() as int;
            let ghost rs = r@;
            let ghost cv = current;
            let ghost cur = current@;
            proof {
                assert((b0 + 1) * l == b0 * l + l) by (nonlinear_arith);
            }
            r.push(current);
            current = Vec::new();
            proof {
                assert(b0 * l + l == i);
                assert(cur == positions@.subrange(b0 * l, i as int));
                assert(cur == positions@.subrange(b0 * l, (b0 + 1) * l));
                assert(current@ =~= positions@.subrange(r@.len() * l, i as int));
                lemma_batches_ok_later(rs, positions@, l, i - 1, i as int);
                lemma_batches_ok_fill(rs, cv, positions@, l, i as int);
                assert(r@ == rs.push(cv));
            }
        } else {
            proof {
                lemma_batches_ok_later(r@, positions@, l, i - 1, i as int);
            }
        }
    }
    let ghost full = r@.len() as int;
    if current.len() > 0 {
        proof {
            assert((full + 1) * l == full * l + l) by (nonlinear_arith);
            vstd::arithmetic::div_mod::lemma_fundamental_div_mod_converse(
                n + l - 1,
                l,
                full + 1,
                current@.len() as int - 1,
            );
            assert(vstd::math::min((full + 1) * l, n) == n);
            assert(current@ =~= positions@.subrange(full * l, vstd::math::min((full + 1) * l, n)));
        }
        r.push(current);
    } else {
        proof {
            vstd::arithmetic::div_mod::lemma_fundamental_div_mod_converse(
                n + l - 1,
                l,
                full,
                l - 1,
            );
        }
    }
    proof {
        assert forall|b: int| 0 <= b < r@.len() implies (#[trigger] r@[b])@ == positions@.subrange(
            b * l,
            vstd::math::min((b + 1) * l, n),
        ) by {
            if b < full {
                assert((b + 1) * l <= full * l) by (nonlinear_arith)
                    requires
                        b + 1 <= full,
                        l >= 1,
                ;
                assert(full * l <= n);
                assert(vstd::math::min((b + 1) * l, n) == (b + 1) * l);
            }
        }
    }
    r
}

/// Derives how many cells to sample for a block: what the target
/// confidence requires, capped by the matrix itself.
pub fn sample_cell_count(dims: Dimensions, target_ppm: u64) -> (r: u64)
    requires
        dims.wf(),
        target_ppm <= PPM_SCALE,
    ensures
        1 <= r <= 30,
        r == vstd::math::min(
            crate::confidence::required_cells_spec(target_ppm as int) as int,
            dims.total_cells_spec() as int,
        ),
{
    let required = required_cell_count(target_ppm);
    let total = dims.total_cells();
    if (required as u64) < total {
        required as u64
    } else {
        total
    }
}

/// The record one sampling round leaves for a block.
pub open spec fn round_record(header: BlockHeader, flags: Seq<bool>) -> ConfidenceRecord {
    ConfidenceRecord {
        block_number: header.number,
        sampled: flags.len() as u32,
        verified: count_true(flags) as u32,
    }
}

/// The event one sampling round publishes for a block.
pub open spec fn round_message(header: BlockHeader, flags: Seq<bool>) -> PublishMessage {
    PublishMessage::ConfidenceAchieved {
        block_number: header.number,
        confidence_ppm: confidence_ppm_spec(count_true(flags) as nat) as u64,
    }
}

/// The per-block sampling procedure, §4.4: given the sampled coordinates
/// and, for each, whether its cell was fetched and verified against its row
/// commitment, record the outcome and publish it.  A cell that failed its
/// proof, or was never fetched, only lowers the count — never a crash.  A
/// block already recorded is left untouched and publishes nothing; a fresh
/// block gets its header, its record, its log entry, and — when the score
/// reaches the target — its place among the confidence-achieved blocks.
pub fn process_block(
    db: &mut Store,
    header: BlockHeader,
    positions: &Vec<Position>,
    verified: &Vec<bool>,
    target_ppm: u64,
) -> (r: Option<PublishMessage>)
    requires
        old(db).wf(),
        header.wf(),
        verified@.len() == positions@.len(),
        positions@.len() <= u32::MAX,
        target_ppm <= PPM_SCALE,
    ensures
        final(db).wf(),
        old(db).confidence_map().dom().contains(header.number as u64) ==> *final(db) == *old(db)
            && r is None,
        !old(db).confidence_map().dom().contains(header.number as u64) ==> {
            &&& r == Some(round_message(header, verified@))
            &&& final(db).header_map() =~= old(db).header_map().insert(
                header.number as u64,
                header,
            )
            &&& final(db).confidence_map() =~= old(db).confidence_map().insert(
                header.number as u64,
                round_record(header, verified@),
            )
            &&& final(db).confidence_achieved_messages@ =~= old(db).confidence_achieved_messages@.push(round_message(header, verified@))
            &&& final(db).genesis_hash == old(db).genesis_hash
            &&& final(db).checkpoint == old(db).checkpoint
            &&& final(db).app_data == old(db).app_data
            &&& final(db).latest_block == old(db).latest_block
            &&& final(db).header_verified_messages == old(db).header_verified_messages
            &&& final(db).data_verified_messages == old(db).data_verified_messages
            &&& (confidence_ppm_spec(count_true(verified@) as nat) >= target_ppm ==> final(db).confidence_achieved_blocks == Some(header.number) && final(db).blocks_list@ =~= old(db).blocks_list@.push(header.number))
            &&& (confidence_ppm_spec(count_true(verified@) as nat) < target_ppm ==> final(db).confidence_achieved_blocks == old(db).confidence_achieved_blocks && final(db).blocks_list == old(db).blocks_list)
        },
{
    let block_number = header.number;
    if is_confidence_in_db(db, block_number) {
        return None;
    }
    let ct = count_verified(verified);
    proof {
        lemma_count_true_bounds(verified@);
    }
    let record = ConfidenceRecord {
        block_number,
        sampled: positions.len() as u32,
        verified: ct as u32,
    };
    let conf = confidence_ppm(ct as u32);
    store_block_header_in_db(db, block_number, header);
    store_confidence_in_db(db, block_number, record);
    let message = PublishMessage::ConfidenceAchieved { block_number, confidence_ppm: conf };
    store_confidence_achieved_message_in_db(db, message);
    if conf >= target_ppm {
        store_confidence_achieved_blocks_in_db(db, block_number);
        store_blocks_list_in_db(db, block_number);
    }
    Some(PublishMessage::ConfidenceAchieved { block_number, confidence_ppm: conf })
}

/// One turn of the live loop: apply the per-block procedure to a newly
/// finalized header and move the shared latest-header cursor to it.
pub fn handle_finalized_header(
    db: &mut Store,
    state: &mut State,
    header: BlockHeader,
    positions: &Vec<Position>,
    verified: &Vec<bool>,
    target_ppm: u64,
) -> (r: Option<PublishMessage>)
    requires
        old(db).wf(),
        header.wf(),
        verified@.len() == positions@.len(),
        positions@.len() <= u32::MAX,
        target_ppm <= PPM_SCALE,
    ensures
        final(db).wf(),
        final(state).latest == header.number,
        final(db).latest_block == Some(header.number),
        *final(state) == (State { latest: final(state).latest, ..*old(state) }),
        old(db).confidence_map().dom().contains(header.number as u64) ==> r is None
            && *final(db) == (Store { latest_block: final(db).latest_block, ..*old(db) }),
        !old(db).confidence_map().dom().contains(header.number as u64) ==> r == Some(
            round_message(header, verified@),
        ) && final(db).confidence_map() =~= old(db).confidence_map().insert(
            header.number as u64,
            round_record(header, verified@),
        ),
{
    let block_number = header.number;
    let r = process_block(db, header, positions, verified, target_ppm);
    store_latest_block_in_db(db, block_number);
    state.latest = block_number;
    r
}

} // verus!
