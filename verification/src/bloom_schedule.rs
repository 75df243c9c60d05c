//! The order of the bloom pass's compute dispatches over the mip chain of the color texture.
//!
//! The chain is first walked down, each level filtered from the one above it at half its size
//! (never below one texel), then walked back up, each level blended into the one above it.  The
//! downsamples and the last blend, into level zero, are handed the bloom intensity; the other
//! blends are handed 1.
use vstd::prelude::*;

verus! {

/// Extent of one axis at mip level `level` of a texture that is `extent` texels long at level zero.
pub open spec fn spec_mip_extent(extent: u32, level: nat) -> u32
    decreases level,
{
    if level == 0 {
        extent
    } else {
        let above = spec_mip_extent(extent, (level - 1) as nat);
        if above / 2 >= 1 {
            (above / 2) as u32
        } else {
            1
        }
    }
}

/// Width and height of a mip level, in texels.
#[derive(Debug, Clone, Copy, PartialEq, Eq, Structural)]
pub struct MipResolution {
    pub width: u32,
    pub height: u32,
}

/// Width and height of mip level `level` of a `width` x `height` texture.
pub open spec fn spec_mip_resolution(width: u32, height: u32, level: nat) -> MipResolution {
    MipResolution { width: spec_mip_extent(width, level), height: spec_mip_extent(height, level) }
}

/// Whether a dispatch filters a level down into the next smaller one, or blends it up into the
/// next larger one.
#[derive(Debug, Clone, Copy, PartialEq, Eq, Structural)]
pub enum BloomDirection {
    Downsample,
    Upsample,
}

/// One compute dispatch of the bloom pass.
#[derive(Debug, Clone, Copy, PartialEq, Eq, Structural)]
pub struct BloomDispatch {
    pub direction: BloomDirection,
    /// The mip level read.
    pub src_mip_level: u32,
    pub src_resolution: MipResolution,
    pub dst_resolution: MipResolution,
    /// Whether the dispatch is handed the bloom intensity; otherwise it is handed 1.
    pub applies_intensity: bool,
    /// Workgroups of 16 x 16 texels along each axis, enough to cover the destination level.
    pub workgroups_x: u32,
    pub workgroups_y: u32,
}

/// The number of 16-texel workgroups that cover `extent` texels.
pub open spec fn spec_workgroups(extent: u32) -> u32 {
    ((extent + 15) / 16) as u32
}

/// The number of 16-texel workgroups that cover `extent` texels: `extent` divided by 16,
/// rounded up.
pub fn workgroups(extent: u32) -> (r: u32)
    ensures
        r == spec_workgroups(extent),
{
    extent / 16 + if extent % 16 != 0 { 1 } else { 0 }
}

/// The dispatch at position `k` of the bloom pass over `mip_level_count` levels: first the
/// downsamples from level 0 to level `mip_level_count - 2`, then the upsamples from level
/// `mip_level_count - 1` back to level 1.
pub open spec fn spec_bloom_dispatch(width: u32, height: u32, mip_level_count: u32, k: int) -> BloomDispatch {
    let n = mip_level_count - 1;
    if k < n {
        BloomDispatch {
            direction: BloomDirection::Downsample,
            src_mip_level: k as u32,
            src_resolution: spec_mip_resolution(width, height, k as nat),
            dst_resolution: spec_mip_resolution(width, height, (k + 1) as nat),
            applies_intensity: true,
            workgroups_x: spec_workgroups(spec_mip_extent(width, (k + 1) as nat)),
            workgroups_y: spec_workgroups(spec_mip_extent(height, (k + 1) as nat)),
        }
    } else {
        let level = n - (k - n);
        BloomDispatch {
            direction: BloomDirection::Upsample,
            src_mip_level: level as u32,
            src_resolution: spec_mip_resolution(width, height, level as nat),
            dst_resolution: spec_mip_resolution(width, height, (level - 1) as nat),
            applies_intensity: level == 1,
            workgroups_x: spec_workgroups(spec_mip_extent(width, (level - 1) as nat)),
            workgroups_y: spec_workgroups(spec_mip_extent(height, (level - 1) as nat)),
        }
    }
}

/// The next smaller extent: half, but at least one texel.
fn half_extent(extent: u32) -> (r: u32)
    ensures
        r == (if extent / 2 >= 1 { extent / 2 } else { 1 }),
{
    let h = extent / 2;
    if h >= 1 { h } else { 1 }
}

/// The resolution of every mip level, from level zero down.
pub fn mip_resolutions(width: u32, height: u32, mip_level_count: u32) -> (r: Vec<MipResolution>)
    requires
        mip_level_count >= 1,
    ensures
        r@.len() == mip_level_count,
        forall|i: int| 0 <= i < mip_level_count ==> #[trigger] r@[i] == spec_mip_resolution(width, height, i as nat),
{
    let mut r: Vec<MipResolution> = Vec::new();
    let mut w = width;
    let mut h = height;
    r.push(MipResolution { width: w, height: h });
    let mut level: u32 = 1;
    while level < mip_level_count
        invariant
            1 <= level <= mip_level_count,
            r@.len() == level,
            w == spec_mip_extent(width, (level - 1) as nat),
            h == spec_mip_extent(height, (level - 1) as nat),
            forall|i: int| 0 <= i < level ==> #[trigger] r@[i] == spec_mip_resolution(width, height, i as nat),
        decreases mip_level_count - level,
    {
        w = half_extent(w);
        h = half_extent(h);
        r.push(MipResolution { width: w, height: h });
        level = level + 1;
    }
    r
}

/// The bloom pass's dispatches, in the order they are recorded.
pub fn bloom_dispatches(width: u32, height: u32, mip_level_count: u32) -> (r: Vec<BloomDispatch>)
    requires
        mip_level_count >= 1,
    ensures
        r@.len() == 2 * (mip_level_count - 1),
        forall|k: int| 0 <= k < r@.len() ==> #[trigger] r@[k] == spec_bloom_dispatch(width, height, mip_level_count, k),
{
    let res = mip_resolutions(width, height, mip_level_count);
    let n = mip_level_count - 1;
    let mut r: Vec<BloomDispatch> = Vec::new();
    let mut i: u32 = 0;
    while i < n
        invariant
            n == mip_level_count - 1,
            i <= n,
            res@.len() == mip_level_count,
            forall|j: int| 0 <= j < mip_level_count ==> #[trigger] res@[j] == spec_mip_resolution(width, height, j as nat),
            r@.len() == i,
            forall|k: int| 0 <= k < i ==> #[trigger] r@[k] == spec_bloom_dispatch(width, height, mip_level_count, k),
        decreases n - i,
    {
        r.push(BloomDispatch {
            direction: BloomDirection::Downsample,
            src_mip_level: i,
            src_resolution: res[i as usize],
            dst_resolution: res[i as usize + 1],
            applies_intensity: true,
            workgroups_x: workgroups(res[i as usize + 1].width),
            workgroups_y: workgroups(res[i as usize + 1].height),
        });
        i = i + 1;
    }
    let mut level: u32 = n;
    while level >= 1
        invariant
            n == mip_level_count - 1,
            level <= n,
            res@.len() == mip_level_count,
            forall|j: int| 0 <= j < mip_level_count ==> #[trigger] res@[j] == spec_mip_resolution(width, height, j as nat),
            r@.len() == n + (n - level),
            forall|k: int| 0 <= k < r@.len() ==> #[trigger] r@[k] == spec_bloom_dispatch(width, height, mip_level_count, k),
        decreases level,
    {
        r.push(BloomDispatch {
            direction: BloomDirection::Upsample,
            src_mip_level: level,
            src_resolution: res[level as usize],
            dst_resolution: res[level as usize - 1],
            applies_intensity: level == 1,
            workgroups_x: workgroups(res[level as usize - 1].width),
            workgroups_y: workgroups(res[level as usize - 1].height),
        });
        level = level - 1;
    }
    r
}

} // verus!
