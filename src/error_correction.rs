use vstd::prelude::*;

use crate::bits::bits_value;
use crate::reed_solomon::{ec_codewords, reed_solomon_remainder};
use crate::tables::{ec_per_block, ec_per_block_of, layout, layout_of};
use crate::types::{ErrorCorrectionLevel, QrError, Version};

verus! {

/// Block counts and sizes of the two groups of a symbol.
pub struct GroupConfig {
    pub blocks_in_group_one: i32,
    pub code_words_in_group_one_blocks: i32,
    pub blocks_in_group_two: i32,
    pub code_words_in_group_two_blocks: i32,
}

impl GroupConfig {
    pub fn new(
        blocks_in_group_one: i32,
        code_words_in_group_one_blocks: i32,
        blocks_in_group_two: i32,
        code_words_in_group_two_blocks: i32,
    ) -> (r: GroupConfig)
        ensures
            r.blocks_in_group_one == blocks_in_group_one,
            r.code_words_in_group_one_blocks == code_words_in_group_one_blocks,
            r.blocks_in_group_two == blocks_in_group_two,
            r.code_words_in_group_two_blocks == code_words_in_group_two_blocks,
    {
        GroupConfig {
            blocks_in_group_one,
            code_words_in_group_one_blocks,
            blocks_in_group_two,
            code_words_in_group_two_blocks,
        }
    }

    /// The configuration holds this table row.
    pub open spec fn is_row(self, row: (u8, u8, u8, u8)) -> bool {
        &&& self.blocks_in_group_one == row.0
        &&& self.code_words_in_group_one_blocks == row.1
        &&& self.blocks_in_group_two == row.2
        &&& self.code_words_in_group_two_blocks == row.3
    }
}

/// The data blocks of a symbol, group one first, with the error-correction block of each.
pub struct ErrorCorrectionGroups {
    pub data_blocks: Vec<Vec<u8>>,
    pub ec_blocks: Vec<Vec<u8>>,
}

impl ErrorCorrectionGroups {
    pub fn new() -> (r: ErrorCorrectionGroups)
        ensures
            r.data_blocks@.len() == 0,
            r.ec_blocks@.len() == 0,
    {
        ErrorCorrectionGroups { data_blocks: Vec::new(), ec_blocks: Vec::new() }
    }
}

// ---------------------------------------------------------------------------
// Specification
// ---------------------------------------------------------------------------

/// Codewords of a bit stream: each run of eight bits, most significant first.
pub open spec fn bytes_of_bits(bits: Seq<bool>) -> Seq<u8> {
    Seq::new(bits.len() / 8, |i: int| bits_value(bits.subrange(8 * i, 8 * i + 8)) as u8)
}

/// Where block `b` starts: `g1` blocks of `c1` codewords, then blocks of `c2`.
pub open spec fn block_start(g1: int, c1: int, c2: int, b: int) -> int {
    if b <= g1 {
        b * c1
    } else {
        g1 * c1 + (b - g1) * c2
    }
}

/// The data codewords cut into `g1` blocks of `c1` codewords followed by `g2` blocks of `c2`.
pub open spec fn split_blocks(data: Seq<u8>, g1: int, c1: int, g2: int, c2: int) -> Seq<Seq<u8>> {
    Seq::new(
        (g1 + g2) as nat,
        |b: int| data.subrange(block_start(g1, c1, c2, b), block_start(g1, c1, c2, b + 1)),
    )
}

/// Codeword `i` of every block long enough to have one, in block order.
pub open spec fn column(blocks: Seq<Seq<u8>>, i: int) -> Seq<u8>
    decreases blocks.len(),
{
    if blocks.len() == 0 {
        Seq::empty()
    } else {
        column(blocks.drop_last(), i) + if i < blocks.last().len() {
            seq![blocks.last()[i]]
        } else {
            Seq::empty()
        }
    }
}

/// Columns `0 .. k` one after the other.
pub open spec fn interleave_upto(blocks: Seq<Seq<u8>>, k: int) -> Seq<u8>
    decreases k,
{
    if k <= 0 {
        Seq::empty()
    } else {
        interleave_upto(blocks, k - 1) + column(blocks, k - 1)
    }
}

/// Length of the longest block.
pub open spec fn max_len(blocks: Seq<Seq<u8>>) -> int
    decreases blocks.len(),
{
    if blocks.len() == 0 {
        0
    } else {
        let m = max_len(blocks.drop_last());
        if blocks.last().len() > m {
            blocks.last().len() as int
        } else {
            m
        }
    }
}

/// The interleaved order: codeword 0 of every block, then codeword 1, and so on,
/// skipping blocks that are too short.
pub open spec fn interleave(blocks: Seq<Seq<u8>>) -> Seq<u8> {
    interleave_upto(blocks, max_len(blocks))
}

/// The error-correction block of each data block.
pub open spec fn ec_blocks_of(blocks: Seq<Seq<u8>>, n: nat) -> Seq<Seq<u8>> {
    blocks.map_values(|b: Seq<u8>| ec_codewords(b, n))
}

/// The data blocks of a symbol of this level and version.
pub open spec fn data_blocks_of(data: Seq<u8>, level: ErrorCorrectionLevel, v: int) -> Seq<Seq<u8>> {
    let row = layout(level, v);
    split_blocks(data, row.0 as int, row.1 as int, row.2 as int, row.3 as int)
}

/// The layout of this level and version holds exactly `n` data codewords.
pub open spec fn layout_holds(level: ErrorCorrectionLevel, v: int, n: int) -> bool {
    let row = layout(level, v);
    row.0 * row.1 + row.2 * row.3 == n
}

/// The final codeword sequence: the interleaved data blocks, then the interleaved
/// error-correction blocks.
pub open spec fn final_codewords(data: Seq<u8>, level: ErrorCorrectionLevel, v: int) -> Seq<u8> {
    let blocks = data_blocks_of(data, level, v);
    interleave(blocks) + interleave(ec_blocks_of(blocks, ec_per_block(level, v) as nat))
}

// ---------------------------------------------------------------------------
// Laws of the interleaved order
// ---------------------------------------------------------------------------

/// Where the first `g` blocks are too short to have codeword `i` and all later blocks have
/// it, column `i` is codeword `i` of each later block, in order.
proof fn lemma_column_suffix(blocks: Seq<Seq<u8>>, i: int, g: int)
    requires
        0 <= g <= blocks.len(),
        forall|j: int| 0 <= j < g ==> (#[trigger] blocks[j]).len() <= i,
        forall|j: int| g <= j < blocks.len() ==> (#[trigger] blocks[j]).len() > i,
    ensures
        column(blocks, i) == Seq::new((blocks.len() - g) as nat, |j: int| blocks[g + j][i]),
    decreases blocks.len(),
{
    if blocks.len() == 0 {
        assert(column(blocks, i) =~= Seq::new((blocks.len() - g) as nat, |j: int| blocks[g + j][i]));
    } else {
        let d = blocks.drop_last();
        if g == blocks.len() {
            lemma_column_suffix(d, i, g - 1);
            assert(blocks.last() == blocks[g - 1]);
        } else {
            assert forall|j: int| 0 <= j < g implies (#[trigger] d[j]).len() <= i by {
                assert(d[j] == blocks[j]);
            }
            assert forall|j: int| g <= j < d.len() implies (#[trigger] d[j]).len() > i by {
                assert(d[j] == blocks[j]);
            }
            lemma_column_suffix(d, i, g);
            assert(blocks.last() == blocks[blocks.len() - 1]);
        }
        assert(column(blocks, i) =~= Seq::new((blocks.len() - g) as nat, |j: int| blocks[g + j][i]));
    }
}

/// No block is longer than `max_len`, and where every block is at most `m` long,
/// neither is `max_len`.
proof fn lemma_max_len(blocks: Seq<Seq<u8>>, m: int)
    ensures
        forall|j: int| 0 <= j < blocks.len() ==> (#[trigger] blocks[j]).len() <= max_len(blocks),
        (forall|j: int| 0 <= j < blocks.len() ==> (#[trigger] blocks[j]).len() <= m) && m >= 0
            ==> max_len(blocks) <= m,
        max_len(blocks) >= 0,
    decreases blocks.len(),
{
    if blocks.len() > 0 {
        let d = blocks.drop_last();
        lemma_max_len(d, m);
        assert forall|j: int| 0 <= j < blocks.len() implies (#[trigger] blocks[j]).len() <= max_len(
            blocks,
        ) by {
            if j < d.len() {
                assert(d[j] == blocks[j]);
            }
        }
        if (forall|j: int| 0 <= j < blocks.len() ==> (#[trigger] blocks[j]).len() <= m) && m >= 0 {
            assert forall|j: int| 0 <= j < d.len() implies (#[trigger] d[j]).len() <= m by {
                assert(d[j] == blocks[j]);
            }
            assert(blocks[blocks.len() - 1].len() <= m);
        }
    }
}

/// Where every block has at least `k` codewords, the first `k` columns put codeword `i` of
/// block `j` at `i * B + j`, `B` blocks in all.
proof fn lemma_interleave_full_columns(blocks: Seq<Seq<u8>>, k: int)
    requires
        k >= 0,
        forall|j: int| 0 <= j < blocks.len() ==> (#[trigger] blocks[j]).len() >= k,
    ensures
        interleave_upto(blocks, k).len() == k * blocks.len(),
        forall|i: int, j: int|
            0 <= i < k && 0 <= j < blocks.len() ==> interleave_upto(blocks, k)[i * blocks.len() + j]
                == #[trigger] blocks[j][i],
    decreases k,
{
    let b = blocks.len() as int;
    if k > 0 {
        lemma_interleave_full_columns(blocks, k - 1);
        lemma_column_suffix(blocks, k - 1, 0);
        let prev = interleave_upto(blocks, k - 1);
        let col = column(blocks, k - 1);
        assert(k * b == (k - 1) * b + b) by (nonlinear_arith);
        assert forall|i: int, j: int| 0 <= i < k && 0 <= j < b implies interleave_upto(blocks, k)[i
            * b + j] == #[trigger] blocks[j][i] by {
            if i < k - 1 {
                assert(i * b + j < (k - 1) * b) by (nonlinear_arith)
                    requires
                        0 <= i < k - 1,
                        0 <= j < b,
                ;
            } else {
                assert(i * b == (k - 1) * b) by (nonlinear_arith)
                    requires
                        i == k - 1,
                ;
            }
        }
    }
}

/// Interleaving `g1` blocks of `c` codewords followed by `g2` blocks of `c + 1`, as the
/// two-group layouts are: every codeword comes out once, codeword `i < c` of block `j` at
/// `i * (g1 + g2) + j`, and the last codeword of the `j`-th group-two block at
/// `c * (g1 + g2) + j`.
pub proof fn lemma_two_group_interleave(blocks: Seq<Seq<u8>>, g1: int, g2: int, c: int)
    requires
        g1 >= 0,
        g2 >= 0,
        c >= 0,
        blocks.len() == g1 + g2,
        forall|j: int| 0 <= j < g1 ==> (#[trigger] blocks[j]).len() == c,
        forall|j: int| g1 <= j < g1 + g2 ==> (#[trigger] blocks[j]).len() == c + 1,
    ensures
        interleave(blocks).len() == g1 * c + g2 * (c + 1),
        forall|i: int, j: int|
            0 <= i < c && 0 <= j < g1 + g2 ==> interleave(blocks)[i * (g1 + g2) + j]
                == #[trigger] blocks[j][i],
        forall|j: int| 0 <= j < g2 ==> interleave(blocks)[c * (g1 + g2) + j] == #[trigger] blocks[g1 + j][c],
{
    let b = g1 + g2;
    lemma_interleave_full_columns(blocks, c);
    assert(g1 * c + g2 * (c + 1) == c * b + g2) by (nonlinear_arith)
        requires
            b == g1 + g2,
    ;
    if g2 > 0 {
        lemma_max_len(blocks, c + 1);
        assert(blocks[g1].len() == c + 1);
        assert(max_len(blocks) == c + 1);
        lemma_column_suffix(blocks, c, g1);
        assert(interleave(blocks) == interleave_upto(blocks, c) + column(blocks, c));
        assert forall|i: int, j: int| 0 <= i < c && 0 <= j < g1 + g2 implies interleave(blocks)[i
            * (g1 + g2) + j] == #[trigger] blocks[j][i] by {
            assert(i * b + j < c * b) by (nonlinear_arith)
                requires
                    0 <= i < c,
                    0 <= j < b,
            ;
        }
    } else {
        lemma_max_len(blocks, c);
        if g1 > 0 {
            assert(blocks[0].len() == c);
            assert(max_len(blocks) == c);
        } else {
            assert(max_len(blocks) == 0);
            assert(interleave_upto(blocks, max_len(blocks)).len() == 0);
            assert(c * b == 0) by (nonlinear_arith)
                requires
                    b == 0,
            ;
        }
    }
}

/// Cutting `g1 * c1 + g2 * c2` data codewords by a layout gives `g1` blocks of `c1`
/// codewords followed by `g2` blocks of `c2`, which together hold the data in order.
pub proof fn lemma_split_block_lengths(data: Seq<u8>, g1: int, c1: int, g2: int, c2: int)
    requires
        g1 >= 0,
        c1 >= 0,
        g2 >= 0,
        c2 >= 0,
        data.len() == g1 * c1 + g2 * c2,
    ensures
        split_blocks(data, g1, c1, g2, c2).len() == g1 + g2,
        forall|j: int| 0 <= j < g1 ==> (#[trigger] split_blocks(data, g1, c1, g2, c2)[j]).len() == c1,
        forall|j: int|
            g1 <= j < g1 + g2 ==> (#[trigger] split_blocks(data, g1, c1, g2, c2)[j]).len() == c2,
{
    let blocks = split_blocks(data, g1, c1, g2, c2);
    assert forall|j: int| 0 <= j < g1 + g2 implies {
        &&& 0 <= #[trigger] block_start(g1, c1, c2, j) <= block_start(g1, c1, c2, j + 1) <= data.len()
        &&& block_start(g1, c1, c2, j + 1) - block_start(g1, c1, c2, j) == if j < g1 {
            c1
        } else {
            c2
        }
    } by {
        if j < g1 {
            assert((j + 1) * c1 == j * c1 + c1 && 0 <= j * c1 && (j + 1) * c1 <= g1 * c1)
                by (nonlinear_arith)
                requires
                    0 <= j < g1,
                    c1 >= 0,
            ;
            assert(0 <= g2 * c2) by (nonlinear_arith)
                requires
                    g2 >= 0,
                    c2 >= 0,
            ;
        } else {
            assert((j + 1 - g1) * c2 == (j - g1) * c2 + c2 && 0 <= (j - g1) * c2 && (j + 1 - g1)
                * c2 <= g2 * c2) by (nonlinear_arith)
                requires
                    g1 <= j < g1 + g2,
                    c2 >= 0,
            ;
            assert(0 <= g1 * c1) by (nonlinear_arith)
                requires
                    g1 >= 0,
                    c1 >= 0,
            ;
            if j == g1 {
                assert((j - g1) * c2 == 0);
            }
        }
    }
}

// ---------------------------------------------------------------------------
// Implementation
// ---------------------------------------------------------------------------

/// Packs a bit stream into codewords; fails where its length is not a multiple of eight.
pub fn data_bits_to_byte_blocks(data_bits: &Vec<bool>) -> (r: Result<Vec<u8>, QrError>)
    ensures
        r is Ok <==> data_bits@.len() % 8 == 0,
        r matches Ok(b) ==> b@ == bytes_of_bits(data_bits@),
        r matches Err(e) ==> e == QrError::InternalInvariantViolation,
{
    if data_bits.len() % 8 != 0 {
        return Err(QrError::InternalInvariantViolation);
    }
    let n = data_bits.len() / 8;
    let mut out: Vec<u8> = Vec::new();
    let mut i: usize = 0;
    while i < n
        invariant
            n == data_bits@.len() / 8,
            data_bits@.len() % 8 == 0,
            i <= n,
            out@ == bytes_of_bits(data_bits@).take(i as int),
        decreases n - i,
    {
        let mut v: u32 = 0;
        let mut j: usize = 0;
        let len = data_bits.len();
        assert(8 * i + 8 <= len) by (nonlinear_arith)
            requires
                i < n,
                n == len / 8,
                len % 8 == 0,
        ;
        let base = 8 * i;
        while j < 8
            invariant
                base == 8 * i,
                i < n,
                n == data_bits@.len() / 8,
                j <= 8,
                v == bits_value(data_bits@.subrange(8 * i, 8 * i + j)),
                8 * i + 8 <= data_bits@.len(),
                j == 0 ==> v < 1,
                j == 1 ==> v < 2,
                j == 2 ==> v < 4,
                j == 3 ==> v < 8,
                j == 4 ==> v < 16,
                j == 5 ==> v < 32,
                j == 6 ==> v < 64,
                j == 7 ==> v < 128,
                j == 8 ==> v < 256,
            decreases 8 - j,
        {
            assert(data_bits@.subrange(8 * i, 8 * i + j + 1).drop_last() =~= data_bits@.subrange(
                8 * i,
                8 * i + j,
            ));
            let bit: u32 = if data_bits[base + j] {
                1
            } else {
                0
            };
            v = 2 * v + bit;
            j += 1;
        }
        out.push(v as u8);
        i += 1;
        assert(out@ =~= bytes_of_bits(data_bits@).take(i as int));
    }
    assert(out@ =~= bytes_of_bits(data_bits@));
    Ok(out)
}

/// The block layout of this level and version.
pub fn get_group_layout(error_correction_level: &ErrorCorrectionLevel, version: &Version) -> (r:
    Result<GroupConfig, QrError>)
    ensures
        r is Ok <==> version.wf(),
        r matches Ok(c) ==> c.is_row(layout(*error_correction_level, version.number())),
        r matches Err(e) ==> e == (QrError::LayoutError {
            version: version.number() as i16,
            level: *error_correction_level,
        }),
{
    let v = version.version();
    if v > 40 || v < 1 {
        return Err(QrError::LayoutError { version: v, level: *error_correction_level });
    }
    let row = layout_of(*error_correction_level, v as usize);
    Ok(GroupConfig::new(row.0 as i32, row.1 as i32, row.2 as i32, row.3 as i32))
}

/// The contents of a vector of blocks.
pub open spec fn blocks_view(v: Seq<Vec<u8>>) -> Seq<Seq<u8>> {
    v.map_values(|b: Vec<u8>| b@)
}

/// Cuts the data codewords into blocks: `g1` of `c1` codewords, then `g2` of `c2`.
fn split_into_blocks(data: &Vec<u8>, g1: usize, c1: usize, g2: usize, c2: usize) -> (r: Vec<
    Vec<u8>,
>)
    requires
        g1 <= 255,
        c1 <= 255,
        g2 <= 255,
        c2 <= 255,
        g1 * c1 + g2 * c2 == data.len(),
    ensures
        blocks_view(r@) == split_blocks(data@, g1 as int, c1 as int, g2 as int, c2 as int),
{
    let ghost spec_blocks = split_blocks(data@, g1 as int, c1 as int, g2 as int, c2 as int);
    let mut blocks: Vec<Vec<u8>> = Vec::new();
    let mut offset: usize = 0;
    let mut b: usize = 0;
    while b < g1 + g2
        invariant
            g1 <= 255,
            c1 <= 255,
            g2 <= 255,
            c2 <= 255,
            g1 * c1 + g2 * c2 == data.len(),
            spec_blocks == split_blocks(data@, g1 as int, c1 as int, g2 as int, c2 as int),
            b <= g1 + g2,
            offset == block_start(g1 as int, c1 as int, c2 as int, b as int),
            blocks_view(blocks@) == spec_blocks.take(b as int),
        decreases g1 + g2 - b,
    {
        let size = if b < g1 {
            c1
        } else {
            c2
        };
        proof {
            let bb = b as int;
            let (x1, y1, y2) = (g1 as int, c1 as int, c2 as int);
            if bb < x1 {
                assert((bb + 1) * y1 == bb * y1 + y1) by (nonlinear_arith);
                assert((bb + 1) * y1 <= x1 * y1) by (nonlinear_arith)
                    requires
                        bb + 1 <= x1,
                        y1 >= 0,
                ;
            } else {
                if bb == x1 {
                    assert((bb - x1) * y2 == 0) by (nonlinear_arith)
                        requires
                            bb == x1,
                    ;
                    assert(bb * y1 == x1 * y1) by (nonlinear_arith)
                        requires
                            bb == x1,
                    ;
                }
                assert((bb + 1 - x1) * y2 == (bb - x1) * y2 + y2) by (nonlinear_arith);
                assert((bb + 1 - x1) * y2 <= (g2 as int) * y2) by (nonlinear_arith)
                    requires
                        bb + 1 - x1 <= g2 as int,
                        y2 >= 0,
                ;
            }
        }
        assert(block_start(g1 as int, c1 as int, c2 as int, b + 1) == offset + size);
        let mut block: Vec<u8> = Vec::new();
        let mut k: usize = 0;
        while k < size
            invariant
                k <= size,
                offset + size <= data.len(),
                block@ == data@.subrange(offset as int, offset + k),
            decreases size - k,
        {
            block.push(data[offset + k]);
            k += 1;
            assert(block@ =~= data@.subrange(offset as int, offset + k));
        }
        let ghost before = blocks@;
        assert(block@ == spec_blocks[b as int]);
        blocks.push(block);
        assert(blocks_view(blocks@) =~= blocks_view(before).push(spec_blocks[b as int]));
        assert(spec_blocks.take(b + 1) =~= spec_blocks.take(b as int).push(spec_blocks[b as int]));
        offset = offset + size;
        b += 1;
        assert(blocks_view(blocks@) =~= spec_blocks.take(b as int));
    }
    assert(blocks_view(blocks@) =~= spec_blocks);
    blocks
}

/// The error-correction block of each data block.
fn ec_blocks_for(blocks: &Vec<Vec<u8>>, n: usize) -> (r: Vec<Vec<u8>>)
    requires
        1 <= n <= 255,
    ensures
        blocks_view(r@) == ec_blocks_of(blocks_view(blocks@), n as nat),
{
    let mut out: Vec<Vec<u8>> = Vec::new();
    let mut b: usize = 0;
    while b < blocks.len()
        invariant
            1 <= n <= 255,
            b <= blocks.len(),
            blocks_view(out@) == ec_blocks_of(blocks_view(blocks@), n as nat).take(b as int),
        decreases blocks.len() - b,
    {
        let e = reed_solomon_remainder(&blocks[b], n);
        assert(e@ == ec_codewords(blocks_view(blocks@)[b as int], n as nat));
        let ghost before = out@;
        out.push(e);
        assert(blocks_view(out@) =~= blocks_view(before).push(e@));
        assert(ec_blocks_of(blocks_view(blocks@), n as nat).take(b + 1) =~= ec_blocks_of(
            blocks_view(blocks@),
            n as nat,
        ).take(b as int).push(e@));
        b += 1;
        assert(blocks_view(out@) =~= ec_blocks_of(blocks_view(blocks@), n as nat).take(b as int));
    }
    assert(blocks_view(out@) =~= ec_blocks_of(blocks_view(blocks@), n as nat));
    out
}

/// Codewords of all blocks in the interleaved order.
pub fn interleave_blocks(blocks: &Vec<Vec<u8>>) -> (r: Vec<u8>)
    ensures
        r@ == interleave(blocks_view(blocks@)),
{
    let ghost bv = blocks_view(blocks@);
    let mut m: usize = 0;
    let mut b: usize = 0;
    while b < blocks.len()
        invariant
            bv == blocks_view(blocks@),
            b <= blocks.len(),
            m == max_len(bv.take(b as int)),
        decreases blocks.len() - b,
    {
        assert(bv.take(b + 1).drop_last() =~= bv.take(b as int));
        if blocks[b].len() > m {
            m = blocks[b].len();
        }
        b += 1;
    }
    assert(bv.take(b as int) =~= bv);
    let mut out: Vec<u8> = Vec::new();
    let mut i: usize = 0;
    while i < m
        invariant
            bv == blocks_view(blocks@),
            m == max_len(bv),
            i <= m,
            out@ == interleave_upto(bv, i as int),
        decreases m - i,
    {
        let mut j: usize = 0;
        assert(column(bv.take(0), i as int) =~= Seq::<u8>::empty());
        assert(out@ =~= interleave_upto(bv, i as int) + column(bv.take(0), i as int));
        while j < blocks.len()
            invariant
                bv == blocks_view(blocks@),
                j <= blocks.len(),
                out@ == interleave_upto(bv, i as int) + column(bv.take(j as int), i as int),
            decreases blocks.len() - j,
        {
            assert(bv.take(j + 1).drop_last() =~= bv.take(j as int));
            if i < blocks[j].len() {
                out.push(blocks[j][i]);
            }
            j += 1;
            assert(out@ =~= interleave_upto(bv, i as int) + column(bv.take(j as int), i as int));
        }
        assert(bv.take(j as int) =~= bv);
        i += 1;
    }
    out
}

/// Cuts the assembled bit stream into codewords and blocks by the layout of this
/// level and version, and computes the error-correction codewords of each block.
pub fn generate_code_words(
    data_bits: &Vec<bool>,
    error_correction_level: &ErrorCorrectionLevel,
    version: &Version,
) -> (r: Result<ErrorCorrectionGroups, QrError>)
    ensures
        ({
            let level = *error_correction_level;
            let v = version.number();
            let data = bytes_of_bits(data_bits@);
            let ok = data_bits@.len() % 8 == 0 && version.wf() && layout_holds(level, v, data.len() as int);
            &&& r is Ok <==> ok
            &&& r matches Ok(g) ==> blocks_view(g.data_blocks@) == data_blocks_of(data, level, v)
                && blocks_view(g.ec_blocks@) == ec_blocks_of(
                data_blocks_of(data, level, v),
                ec_per_block(level, v) as nat,
            )
            &&& r matches Err(e) ==> if data_bits@.len() % 8 == 0 && !version.wf() {
                e == (QrError::LayoutError { version: v as i16, level })
            } else {
                e == QrError::InternalInvariantViolation
            }
        }),
{
    let data = data_bits_to_byte_blocks(data_bits)?;
    let config = get_group_layout(error_correction_level, version)?;
    let v = version.version() as usize;
    let row = layout_of(*error_correction_level, v);
    let (g1, c1, g2, c2) = (row.0 as usize, row.1 as usize, row.2 as usize, row.3 as usize);
    assert(g1 * c1 <= 255 * 255 && g2 * c2 <= 255 * 255) by (nonlinear_arith)
        requires
            g1 <= 255,
            c1 <= 255,
            g2 <= 255,
            c2 <= 255,
    ;
    if g1 * c1 + g2 * c2 != data.len() {
        return Err(QrError::InternalInvariantViolation);
    }
    let n = ec_per_block_of(*error_correction_level, v) as usize;
    if n == 0 {
        return Err(QrError::InternalInvariantViolation);
    }
    let data_blocks = split_into_blocks(&data, g1, c1, g2, c2);
    let ec_blocks = ec_blocks_for(&data_blocks, n);
    Ok(ErrorCorrectionGroups { data_blocks, ec_blocks })
}

/// The final codeword sequence of a symbol: interleaved data codewords, then interleaved
/// error-correction codewords.
pub fn generate_error_correction(
    data_bits: &Vec<bool>,
    error_correction_level: &ErrorCorrectionLevel,
    version: &Version,
) -> (r: Result<Vec<u8>, QrError>)
    ensures
        ({
            let level = *error_correction_level;
            let v = version.number();
            let data = bytes_of_bits(data_bits@);
            let ok = data_bits@.len() % 8 == 0 && version.wf() && layout_holds(level, v, data.len() as int);
            &&& r is Ok <==> ok
            &&& r matches Ok(c) ==> c@ == final_codewords(data, level, v)
            &&& r matches Err(e) ==> if data_bits@.len() % 8 == 0 && !version.wf() {
                e == (QrError::LayoutError { version: v as i16, level })
            } else {
                e == QrError::InternalInvariantViolation
            }
        }),
{
    let groups = generate_code_words(data_bits, error_correction_level, version)?;
    let mut codewords = interleave_blocks(&groups.data_blocks);
    let mut ec = interleave_blocks(&groups.ec_blocks);
    codewords.append(&mut ec);
    Ok(codewords)
}

} // verus!
