use vstd::prelude::*;
use vstd::arithmetic::div_mod::lemma_div_denominator;
use vstd::arithmetic::power::lemma_pow0;
use vstd::arithmetic::power2::{lemma_pow2_pos, lemma_pow2_unfold, pow2};

verus! {

/// Size in bytes of one 4x4 block of a BC1-compressed image.
pub const BC1_BLOCK_SIZE: u64 = 8u64;

/// The region of the staging buffer that fills one mip level of an image.
#[derive(Clone, Copy, PartialEq, Eq, Structural, Debug)]
pub struct MipCopyRegion {
    pub buffer_offset: u64,
    pub mip_level: u32,
    pub width: u32,
    pub height: u32,
    pub depth: u32,
}

/// The extent of mip level `level` along one axis: each level halves the
/// previous one, never going below one.
pub open spec fn mip_dim(x: int, level: nat) -> int
    decreases level,
{
    if level == 0 {
        x
    } else {
        let prev = mip_dim(x, (level - 1) as nat);
        if prev / 2 >= 1 { prev / 2 } else { 1 }
    }
}

/// Number of 4-texel blocks that cover `x` texels.
pub open spec fn blocks(x: int) -> int {
    (x + 3) / 4
}

/// Bytes of BC1 data at mip level `level` of a `width` x `height` image.
pub open spec fn mip_size(width: int, height: int, level: nat) -> int {
    blocks(mip_dim(width, level)) * blocks(mip_dim(height, level)) * BC1_BLOCK_SIZE
}

/// Where mip level `level` starts in the staged data: after all smaller levels.
pub open spec fn mip_offset(width: int, height: int, level: nat) -> int
    decreases level,
{
    if level == 0 {
        0
    } else {
        mip_offset(width, height, (level - 1) as nat) + mip_size(width, height, (level - 1) as nat)
    }
}

/// The arithmetic of every level stays within the integer types it is done in.
pub open spec fn mip_chain_fits(width: u32, height: u32, mip_levels_count: u32) -> bool {
    &&& forall|l: nat| l < mip_levels_count ==> #[trigger] mip_dim(width as int, l) + 3 <= u32::MAX
            && mip_dim(height as int, l) + 3 <= u32::MAX
            && blocks(mip_dim(width as int, l)) * blocks(mip_dim(height as int, l)) <= u32::MAX
    &&& mip_offset(width as int, height as int, mip_levels_count as nat) <= u64::MAX
}

proof fn lemma_mip_dim_range(x: int, level: nat)
    requires
        0 <= x,
    ensures
        0 <= mip_dim(x, level),
        level > 0 ==> 1 <= mip_dim(x, level),
    decreases level,
{
    if level > 0 {
        lemma_mip_dim_range(x, (level - 1) as nat);
    }
}

proof fn lemma_mip_offset_grows(width: int, height: int, a: nat, b: nat)
    requires
        a <= b,
        0 <= width,
        0 <= height,
    ensures
        mip_offset(width, height, a) <= mip_offset(width, height, b),
    decreases b - a,
{
    if a < b {
        lemma_mip_offset_grows(width, height, a, (b - 1) as nat);
        lemma_mip_dim_range(width, (b - 1) as nat);
        lemma_mip_dim_range(height, (b - 1) as nat);
        let bw = blocks(mip_dim(width, (b - 1) as nat));
        let bh = blocks(mip_dim(height, (b - 1) as nat));
        assert(bw * bh * 8 >= 0) by (nonlinear_arith)
            requires bw >= 0, bh >= 0;
    }
}

/// Along an axis of `x` texels, mip level zero is the whole axis, and every
/// later level `level` is `x` divided by `2^level`, rounded down, and at
/// least one texel.
pub proof fn law_mip_extent_halves(x: int, level: nat)
    requires
        0 <= x,
    ensures
        level == 0 ==> mip_dim(x, level) == x,
        level > 0 ==> mip_dim(x, level) == (if x / (pow2(level) as int) >= 1 {
            x / (pow2(level) as int)
        } else {
            1
        }),
    decreases level,
{
    if level > 0 {
        let l1 = (level - 1) as nat;
        lemma_pow2_pos(l1);
        lemma_pow2_unfold(level);
        let p = pow2(l1) as int;
        lemma_div_denominator(x, p, 2);
        assert(pow2(level) as int == p * 2);
        let q = x / p;
        assert(q >= 0) by (nonlinear_arith)
            requires x >= 0, p > 0, q == x / p;
        assert(x / (pow2(level) as int) == q / 2);
        let prev = mip_dim(x, l1);
        assert(mip_dim(x, level) == (if prev >= 2 { prev / 2 } else { 1 }));
        if level > 1 {
            law_mip_extent_halves(x, l1);
            assert(prev == (if q >= 1 { q } else { 1 }));
        } else {
            lemma_pow0(2);
            assert(p == 1);
            assert(q == x) by (nonlinear_arith)
                requires q == x / p, p == 1;
            assert(prev == x);
        }
    }
}

/// The copy regions that fill every mip level of a BC1 image from data staged
/// level after level, each level starting where the previous one ends.
pub fn mip_copy_regions(width: u32, height: u32, mip_levels_count: u32) -> (regions: Vec<MipCopyRegion>)
    requires
        mip_chain_fits(width, height, mip_levels_count),
    ensures
        regions@.len() == mip_levels_count,
        forall|l: int| 0 <= l < mip_levels_count ==> {
            &&& (#[trigger] regions@[l]).mip_level == l
            &&& regions@[l].buffer_offset == mip_offset(width as int, height as int, l as nat)
            &&& regions@[l].width == mip_dim(width as int, l as nat)
            &&& regions@[l].height == mip_dim(height as int, l as nat)
            &&& regions@[l].depth == 1
        },
        mip_levels_count > 0 ==> regions@[0].width == width && regions@[0].height == height
            && regions@[0].buffer_offset == 0,
        forall|l: int| 0 <= l && l + 1 < mip_levels_count ==> {
            &&& (#[trigger] regions@[l + 1]).width == (if regions@[l].width / 2 >= 1 { regions@[l].width / 2 } else { 1 })
            &&& regions@[l + 1].height == (if regions@[l].height / 2 >= 1 { regions@[l].height / 2 } else { 1 })
            &&& regions@[l + 1].buffer_offset == regions@[l].buffer_offset
                + ((regions@[l].width + 3) / 4) * ((regions@[l].height + 3) / 4) * 8
        },
        forall|l: int| 0 < l < mip_levels_count ==> {
            &&& (#[trigger] regions@[l]).width == (if width as int / (pow2(l as nat) as int) >= 1 {
                width as int / (pow2(l as nat) as int)
            } else {
                1
            })
            &&& regions@[l].height == (if height as int / (pow2(l as nat) as int) >= 1 {
                height as int / (pow2(l as nat) as int)
            } else {
                1
            })
        },
{
    let regions = mip_copy_regions_by_level(width, height, mip_levels_count);
    proof {
        assert forall|l: int| 0 <= l && l + 1 < mip_levels_count implies {
            &&& (#[trigger] regions@[l + 1]).width == (if regions@[l].width / 2 >= 1 { regions@[l].width / 2 } else { 1 })
            &&& regions@[l + 1].height == (if regions@[l].height / 2 >= 1 { regions@[l].height / 2 } else { 1 })
            &&& regions@[l + 1].buffer_offset == regions@[l].buffer_offset
                + ((regions@[l].width + 3) / 4) * ((regions@[l].height + 3) / 4) * 8
        } by {
            assert(regions@[l + 1].width == mip_dim(width as int, (l + 1) as nat));
            assert(regions@[l].width == mip_dim(width as int, l as nat));
            assert(mip_offset(width as int, height as int, (l + 1) as nat)
                == mip_offset(width as int, height as int, l as nat) + mip_size(width as int, height as int, l as nat));
        }
        assert forall|l: int| 0 < l < mip_levels_count implies {
            &&& (#[trigger] regions@[l]).width == (if width as int / (pow2(l as nat) as int) >= 1 {
                width as int / (pow2(l as nat) as int)
            } else {
                1
            })
            &&& regions@[l].height == (if height as int / (pow2(l as nat) as int) >= 1 {
                height as int / (pow2(l as nat) as int)
            } else {
                1
            })
        } by {
            law_mip_extent_halves(width as int, l as nat);
            law_mip_extent_halves(height as int, l as nat);
        }
    }
    regions
}

fn mip_copy_regions_by_level(width: u32, height: u32, mip_levels_count: u32) -> (regions: Vec<MipCopyRegion>)
    requires
        mip_chain_fits(width, height, mip_levels_count),
    ensures
        regions@.len() == mip_levels_count,
        forall|l: int| 0 <= l < mip_levels_count ==> {
            &&& (#[trigger] regions@[l]).mip_level == l
            &&& regions@[l].buffer_offset == mip_offset(width as int, height as int, l as nat)
            &&& regions@[l].width == mip_dim(width as int, l as nat)
            &&& regions@[l].height == mip_dim(height as int, l as nat)
            &&& regions@[l].depth == 1
        },
{
    let mut regions: Vec<MipCopyRegion> = Vec::new();
    let mut current_buffer_offset: u64 = 0;
    let mut mip_width = width;
    let mut mip_height = height;
    let mip_depth: u32 = 1;
    let mut level: u32 = 0;
    while level < mip_levels_count
        invariant
            level <= mip_levels_count,
            mip_depth == 1,
            mip_chain_fits(width, height, mip_levels_count),
            regions@.len() == level,
            current_buffer_offset == mip_offset(width as int, height as int, level as nat),
            mip_width == mip_dim(width as int, level as nat),
            mip_height == mip_dim(height as int, level as nat),
            forall|l: int| 0 <= l < level ==> {
                &&& (#[trigger] regions@[l]).mip_level == l
                &&& regions@[l].buffer_offset == mip_offset(width as int, height as int, l as nat)
                &&& regions@[l].width == mip_dim(width as int, l as nat)
                &&& regions@[l].height == mip_dim(height as int, l as nat)
                &&& regions@[l].depth == 1
            },
        decreases mip_levels_count - level,
    {
        regions.push(MipCopyRegion {
            buffer_offset: current_buffer_offset,
            mip_level: level,
            width: mip_width,
            height: mip_height,
            depth: mip_depth,
        });
        proof {
            let l = level as nat;
            assert(mip_dim(width as int, l) + 3 <= u32::MAX && mip_dim(height as int, l) + 3 <= u32::MAX
                && blocks(mip_dim(width as int, l)) * blocks(mip_dim(height as int, l)) <= u32::MAX);
            lemma_mip_offset_grows(width as int, height as int, (level + 1) as nat, mip_levels_count as nat);
        }
        let blocks_wide = (mip_width + 3) / 4;
        let blocks_high = (mip_height + 3) / 4;
        assert(blocks_wide == blocks(mip_dim(width as int, level as nat)));
        assert(blocks_high == blocks(mip_dim(height as int, level as nat)));
        let block_count = blocks_wide * blocks_high;
        assert(block_count as int * 8 == mip_size(width as int, height as int, level as nat));
        assert(BC1_BLOCK_SIZE == 8);
        let block_bytes = block_count as u64 * BC1_BLOCK_SIZE;
        assert(block_bytes == block_count as int * 8);
        let current_mip_size = block_bytes * mip_depth as u64;
        assert(current_mip_size == mip_size(width as int, height as int, level as nat));
        assert(mip_offset(width as int, height as int, (level + 1) as nat)
            == current_buffer_offset + mip_size(width as int, height as int, level as nat));
        current_buffer_offset = current_buffer_offset + current_mip_size;
        mip_width = if mip_width / 2 >= 1 { mip_width / 2 } else { 1 };
        mip_height = if mip_height / 2 >= 1 { mip_height / 2 } else { 1 };
        level = level + 1;
    }
    regions
}

/// The number of bytes uploaded when no size is given: eight per texel.
pub fn default_upload_size(width: u32, height: u32) -> (size: usize)
    requires
        width * height * 8 <= u32::MAX,
    ensures
        size == width * height * 8,
{
    (width * height * 8) as usize
}

} // verus!
