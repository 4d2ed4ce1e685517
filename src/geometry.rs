//! Screen geometry: resolutions, capture regions, and proportional remapping
//! of regions authored at a reference resolution.

use vstd::arithmetic::div_mod::{
    lemma_div_is_ordered, lemma_fundamental_div_mod, lemma_fundamental_div_mod_converse,
    lemma_mod_bound,
};
use vstd::prelude::*;

verus! {

/// A screen resolution as (width, height) in pixels.
pub type Resolution = (u32, u32);

/// An axis-aligned rectangle `[x1, y1, x2, y2]`, all four being absolute points.
pub type Region = [u32; 4];

/// `round(v * to / from)` with halves rounded up, for non-negative values.
pub open spec fn remap_coord(v: int, from: int, to: int) -> int
    recommends
        from > 0,
{
    (2 * v * to + from) / (2 * from)
}

/// The coordinate that `v` maps to: exact rounding of the proportional scale.
pub fn remap_value(v: u32, from: u32, to: u32) -> (r: u32)
    requires
        from > 0,
        remap_coord(v as int, from as int, to as int) <= u32::MAX,
    ensures
        r == remap_coord(v as int, from as int, to as int),
{
    assert((v as int) * (to as int) <= 0xffff_ffff_ffff_ffff) by (nonlinear_arith)
        requires
            0 <= v <= 0xffff_ffff,
            0 <= to <= 0xffff_ffff,
    ;
    let prod: u128 = (v as u128) * (to as u128);
    let num: u128 = 2 * prod + (from as u128);
    let den: u128 = 2 * (from as u128);
    assert(2 * (v as int) * (to as int) == 2 * ((v as int) * (to as int))) by (nonlinear_arith);
    (num / den) as u32
}

/// The region that `r` becomes when every coordinate is scaled from `from` to `to`.
pub open spec fn remap_spec(r: Region, from: Resolution, to: Resolution) -> Region {
    [
        remap_coord(r[0] as int, from.0 as int, to.0 as int) as u32,
        remap_coord(r[1] as int, from.1 as int, to.1 as int) as u32,
        remap_coord(r[2] as int, from.0 as int, to.0 as int) as u32,
        remap_coord(r[3] as int, from.1 as int, to.1 as int) as u32,
    ]
}

/// Whether every coordinate of `r` stays within `u32` once scaled from `from` to `to`.
pub open spec fn remap_fits(r: Region, from: Resolution, to: Resolution) -> bool {
    &&& from.0 > 0
    &&& from.1 > 0
    &&& remap_coord(r[0] as int, from.0 as int, to.0 as int) <= u32::MAX
    &&& remap_coord(r[1] as int, from.1 as int, to.1 as int) <= u32::MAX
    &&& remap_coord(r[2] as int, from.0 as int, to.0 as int) <= u32::MAX
    &&& remap_coord(r[3] as int, from.1 as int, to.1 as int) <= u32::MAX
}

/// Maps a region authored at `source_res` to `target_res`, treating all four
/// numbers as absolute points: `new = round(old / source * target)` per axis.
pub fn resolution_remap(region: &Region, source_res: Resolution, target_res: Resolution) -> (r:
    Region)
    requires
        remap_fits(*region, source_res, target_res),
    ensures
        r == remap_spec(*region, source_res, target_res),
{
    let new_x1 = remap_value(region[0], source_res.0, target_res.0);
    let new_y1 = remap_value(region[1], source_res.1, target_res.1);
    let new_x2 = remap_value(region[2], source_res.0, target_res.0);
    let new_y2 = remap_value(region[3], source_res.1, target_res.1);
    let r = [new_x1, new_y1, new_x2, new_y2];
    assert(r =~= remap_spec(*region, source_res, target_res));
    r
}

proof fn lemma_remap_coord_same(v: int, res: int)
    requires
        v >= 0,
        res > 0,
    ensures
        remap_coord(v, res, res) == v,
{
    assert(2 * v * res + res == v * (2 * res) + res) by (nonlinear_arith);
    lemma_fundamental_div_mod_converse(2 * v * res + res, 2 * res, v, res);
}

/// Twice the rounding error of a remapped coordinate is at most `from`:
/// `-from < 2 * (from * new - v * to) <= from`.
proof fn lemma_remap_coord_error(v: int, from: int, to: int)
    requires
        v >= 0,
        to >= 0,
        from > 0,
    ensures
        -from < 2 * (from * remap_coord(v, from, to) - v * to) <= from,
{
    let x = 2 * v * to + from;
    let d = 2 * from;
    lemma_fundamental_div_mod(x, d);
    let q = x / d;
    assert(0 <= x % d < d) by {
        lemma_mod_bound(x, d);
    }
    assert(x == d * q + x % d);
    assert(2 * (from * q - v * to) == d * q - x + from) by (nonlinear_arith)
        requires
            x == 2 * v * to + from,
            d == 2 * from,
    ;
}

/// Remapping a region to the resolution it was authored at gives it back unchanged.
pub proof fn lemma_remap_identity(r: Region, res: Resolution)
    requires
        res.0 > 0,
        res.1 > 0,
    ensures
        remap_spec(r, res, res) == r,
{
    lemma_remap_coord_same(r[0] as int, res.0 as int);
    lemma_remap_coord_same(r[1] as int, res.1 as int);
    lemma_remap_coord_same(r[2] as int, res.0 as int);
    lemma_remap_coord_same(r[3] as int, res.1 as int);
    assert(remap_spec(r, res, res) =~= r);
}

/// A remapped region keeps its proportions to within one pixel on each axis:
/// its width and height differ from the exactly scaled ones by at most one pixel.
pub proof fn lemma_remap_extent_tolerance(r: Region, from: Resolution, to: Resolution)
    requires
        remap_fits(r, from, to),
    ensures
        ({
            let m = remap_spec(r, from, to);
            let fx = from.0 as int;
            let fy = from.1 as int;
            &&& -fx <= fx * (m[2] - m[0]) - (to.0 as int) * (r[2] - r[0]) <= fx
            &&& -fy <= fy * (m[3] - m[1]) - (to.1 as int) * (r[3] - r[1]) <= fy
        }),
{
    lemma_remap_coord_error(r[0] as int, from.0 as int, to.0 as int);
    lemma_remap_coord_error(r[1] as int, from.1 as int, to.1 as int);
    lemma_remap_coord_error(r[2] as int, from.0 as int, to.0 as int);
    lemma_remap_coord_error(r[3] as int, from.1 as int, to.1 as int);
    let m = remap_spec(r, from, to);
    assert((from.0 as int) * (m[2] - m[0]) == (from.0 as int) * m[2] - (from.0 as int) * m[0])
        by (nonlinear_arith);
    assert((to.0 as int) * (r[2] - r[0]) == (to.0 as int) * r[2] - (to.0 as int) * r[0])
        by (nonlinear_arith);
    assert((from.1 as int) * (m[3] - m[1]) == (from.1 as int) * m[3] - (from.1 as int) * m[1])
        by (nonlinear_arith);
    assert((to.1 as int) * (r[3] - r[1]) == (to.1 as int) * r[3] - (to.1 as int) * r[1])
        by (nonlinear_arith);
}

/// A coordinate within the reference extent stays within the target extent.
proof fn lemma_remap_coord_within(v: int, from: int, to: int)
    requires
        0 <= v <= from,
        from > 0,
        to >= 0,
    ensures
        0 <= remap_coord(v, from, to) <= to,
{
    assert(2 * v * to + from <= 2 * from * to + from) by (nonlinear_arith)
        requires
            0 <= v <= from,
            to >= 0,
    ;
    assert(0 <= 2 * v * to) by (nonlinear_arith)
        requires
            0 <= v,
            to >= 0,
    ;
    lemma_div_is_ordered(2 * v * to + from, 2 * from * to + from, 2 * from);
    lemma_div_is_ordered(0, 2 * v * to + from, 2 * from);
    assert(2 * from * to + from == to * (2 * from) + from) by (nonlinear_arith);
    lemma_fundamental_div_mod_converse(2 * from * to + from, 2 * from, to, from);
}

/// The reference resolution at which all regions are authored.
pub const R1080: Resolution = (1920, 1080);

/// The one other supported resolution.
pub const R1440: Resolution = (2560, 1440);

/// Whether regions can be derived for `res` from the reference resolution.
pub open spec fn is_supported(res: Resolution) -> bool {
    res == R1080 || res == R1440
}

/// A configuration error, reported before a task starts.
#[derive(Clone, Copy, Debug, PartialEq, Eq, Structural)]
pub enum ConfigError {
    /// The resolution is not one of the supported ones.
    UnsupportedResolution(u32, u32),
    /// No monitor is marked primary.
    NoPrimaryMonitor,
    /// A template's bytes do not decode to a non-empty image.
    UndecodableImage,
}

/// `r` is a proper rectangle inside a screen of resolution `res`.
pub open spec fn region_within(r: Region, res: Resolution) -> bool {
    &&& r[0] < r[2] <= res.0
    &&& r[1] < r[3] <= res.1
}

/// Remaps every region of a list, in order.
pub fn remap_regions(regions: &Vec<Region>, from: Resolution, to: Resolution) -> (r: Vec<Region>)
    requires
        forall|i: int| 0 <= i < regions@.len() ==> remap_fits(#[trigger] regions@[i], from, to),
    ensures
        r@ == regions@.map_values(|reg: Region| remap_spec(reg, from, to)),
{
    let mut out: Vec<Region> = Vec::new();
    let mut i: usize = 0;
    while i < regions.len()
        invariant
            0 <= i <= regions@.len(),
            forall|j: int| 0 <= j < regions@.len() ==> remap_fits(#[trigger] regions@[j], from, to),
            out@ == regions@.take(i as int).map_values(|reg: Region| remap_spec(reg, from, to)),
        decreases regions@.len() - i,
    {
        out.push(resolution_remap(&regions[i], from, to));
        i += 1;
        assert(out@ =~= regions@.take(i as int).map_values(|reg: Region| remap_spec(reg, from, to)));
    }
    assert(regions@.take(i as int) =~= regions@);
    out
}

/// Where a minigame shows its header, its fingerprint, and its parts.
pub struct GameLayout {
    pub header: Region,
    pub fingerprint: Region,
    pub parts: Vec<Region>,
}

impl GameLayout {
    /// Every region is a proper rectangle on a screen of resolution `res`.
    pub open spec fn within(&self, res: Resolution) -> bool {
        &&& region_within(self.header, res)
        &&& region_within(self.fingerprint, res)
        &&& forall|i: int| 0 <= i < self.parts@.len() ==> region_within(#[trigger] self.parts@[i], res)
    }

    /// The layout remapped from the reference resolution to `target` (no check).
    pub open spec fn remapped(&self, target: Resolution) -> (Region, Region, Seq<Region>) {
        (
            remap_spec(self.header, R1080, target),
            remap_spec(self.fingerprint, R1080, target),
            self.parts@.map_values(|reg: Region| remap_spec(reg, R1080, target)),
        )
    }

    /// The layout at `target`, derived from this reference layout. Unsupported
    /// resolutions are rejected.
    pub fn for_resolution(&self, target: Resolution) -> (r: Result<GameLayout, ConfigError>)
        requires
            self.within(R1080),
        ensures
            is_supported(target) <==> r.is_ok(),
            r matches Ok(l) ==> (l.header, l.fingerprint, l.parts@) == self.remapped(target),
            r matches Err(e) ==> e == ConfigError::UnsupportedResolution(target.0, target.1),
    {
        let supported = (target.0 == R1080.0 && target.1 == R1080.1) || (target.0 == R1440.0
            && target.1 == R1440.1);
        if !supported {
            return Err(ConfigError::UnsupportedResolution(target.0, target.1));
        }
        proof {
            lemma_layout_fits(*self, target);
        }
        let header = resolution_remap(&self.header, R1080, target);
        let fingerprint = resolution_remap(&self.fingerprint, R1080, target);
        let parts = remap_regions(&self.parts, R1080, target);
        Ok(GameLayout { header, fingerprint, parts })
    }
}

proof fn lemma_region_fits(r: Region, target: Resolution)
    requires
        region_within(r, R1080),
        is_supported(target),
    ensures
        remap_fits(r, R1080, target),
{
    lemma_remap_coord_within(r[0] as int, 1920, target.0 as int);
    lemma_remap_coord_within(r[1] as int, 1080, target.1 as int);
    lemma_remap_coord_within(r[2] as int, 1920, target.0 as int);
    lemma_remap_coord_within(r[3] as int, 1080, target.1 as int);
}

proof fn lemma_layout_fits(layout: GameLayout, target: Resolution)
    requires
        layout.within(R1080),
        is_supported(target),
    ensures
        remap_fits(layout.header, R1080, target),
        remap_fits(layout.fingerprint, R1080, target),
        forall|i: int|
            0 <= i < layout.parts@.len() ==> remap_fits(#[trigger] layout.parts@[i], R1080, target),
{
    lemma_region_fits(layout.header, target);
    lemma_region_fits(layout.fingerprint, target);
    assert forall|i: int| 0 <= i < layout.parts@.len() implies remap_fits(
        #[trigger] layout.parts@[i],
        R1080,
        target,
    ) by {
        lemma_region_fits(layout.parts@[i], target);
    }
}

/// What the capture collaborator reports of a monitor.
#[derive(Clone, Copy, Debug, PartialEq, Eq, Structural)]
pub struct MonitorInfo {
    pub width: u32,
    pub height: u32,
    pub is_primary: bool,
}

/// The resolution of the first primary monitor, or an error when none is primary.
pub fn get_resolution(monitors: &[MonitorInfo]) -> (r: Result<Resolution, ConfigError>)
    ensures
        r is Err <==> forall|i: int| 0 <= i < monitors@.len() ==> !(#[trigger] monitors@[i]).is_primary,
        r matches Err(e) ==> e == ConfigError::NoPrimaryMonitor,
        r matches Ok(res) ==> exists|i: int|
            0 <= i < monitors@.len() && (#[trigger] monitors@[i]).is_primary
                && res == (monitors@[i].width, monitors@[i].height)
                && forall|j: int| 0 <= j < i ==> !(#[trigger] monitors@[j]).is_primary,
{
    let mut i: usize = 0;
    while i < monitors.len()
        invariant
            0 <= i <= monitors@.len(),
            forall|j: int| 0 <= j < i ==> !(#[trigger] monitors@[j]).is_primary,
        decreases monitors@.len() - i,
    {
        let m = monitors[i];
        if m.is_primary {
            return Ok((m.width, m.height));
        }
        i += 1;
    }
    Err(ConfigError::NoPrimaryMonitor)
}

} // verus!
