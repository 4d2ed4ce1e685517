//! Cutting capture regions out of one full-frame snapshot, so that several
//! regions are read from the same moment.

use crate::geometry::Region;
use crate::signature::{compare_image, signature_of, similarity_spec, Image};
use vstd::prelude::*;

verus! {

/// The pixels of the `cw` x `ch` block whose top-left corner is `(x, y)` in an
/// RGB image of width `width`, row by row.
pub open spec fn block_pixels(width: u32, pixels: Seq<u8>, x: int, y: int, cw: int, ch: int) -> Seq<
    u8,
> {
    Seq::new(
        (cw * ch * 3) as nat,
        |i: int| pixels[((y + (i / 3) / cw) * width + x + (i / 3) % cw) * 3 + i % 3],
    )
}

/// The first value clamped to at most the second.
pub open spec fn clamp_to(v: int, bound: int) -> int {
    if v < bound {
        v
    } else {
        bound
    }
}

/// Relies on `image::imageops::crop_imm` followed by `SubImage::to_image`: the
/// corner is clamped into the image, the size to what remains of it, and the
/// block's pixels are copied row by row.
#[verifier::external_body]
fn crop_pixels(img: &Image, x: u32, y: u32, w: u32, h: u32) -> (r: Image)
    requires
        img.wf(),
    ensures
        r.width == clamp_to(w as int, img.width - clamp_to(x as int, img.width as int)),
        r.height == clamp_to(h as int, img.height - clamp_to(y as int, img.height as int)),
        r.pixels@ == block_pixels(
            img.width,
            img.pixels@,
            clamp_to(x as int, img.width as int),
            clamp_to(y as int, img.height as int),
            r.width as int,
            r.height as int,
        ),
{
    let buf = image::RgbImage::from_raw(img.width, img.height, img.pixels.clone()).unwrap();
    let sub = image::imageops::crop_imm(&buf, x, y, w, h).to_image();
    Image { width: sub.width(), height: sub.height(), pixels: sub.into_raw() }
}

/// `r` is a proper rectangle inside the image.
pub open spec fn region_in_image(r: Region, img: Image) -> bool {
    &&& r[0] < r[2] <= img.width
    &&& r[1] < r[3] <= img.height
}

/// The image that `region` cuts out of `screen`.
pub open spec fn region_image_spec(screen: Image, region: Region) -> (u32, u32, Seq<u8>) {
    let cw = region[2] - region[0];
    let ch = region[3] - region[1];
    let pixels = block_pixels(
        screen.width,
        screen.pixels@,
        region[0] as int,
        region[1] as int,
        cw,
        ch,
    );
    (cw as u32, ch as u32, pixels)
}

/// Cuts one region out of a snapshot.
pub fn capture_region(screen: &Image, region: &Region) -> (r: Image)
    requires
        screen.wf(),
        region_in_image(*region, *screen),
    ensures
        r.wf(),
        (r.width, r.height, r.pixels@) == region_image_spec(*screen, *region),
{
    let r = crop_pixels(screen, region[0], region[1], region[2] - region[0], region[3] - region[1]);
    let ghost cw = r.width as int;
    let ghost ch = r.height as int;
    assert(r.pixels@.len() == 3 * cw * ch) by (nonlinear_arith)
        requires
            r.pixels@.len() == (cw * ch * 3) as nat,
            cw >= 0,
            ch >= 0,
    ;
    r
}

/// Cuts every region out of one snapshot, in order.
pub fn capture_regions(screen: &Image, regions: &[Region]) -> (r: Vec<Image>)
    requires
        screen.wf(),
        forall|i: int| 0 <= i < regions@.len() ==> region_in_image(#[trigger] regions@[i], *screen),
    ensures
        r@.len() == regions@.len(),
        forall|i: int|
            0 <= i < r@.len() ==> (#[trigger] r@[i]).wf() && (r@[i].width, r@[i].height, r@[i].pixels@)
                == region_image_spec(*screen, regions@[i]),
{
    let mut out: Vec<Image> = Vec::new();
    let mut i: usize = 0;
    while i < regions.len()
        invariant
            0 <= i <= regions@.len(),
            screen.wf(),
            forall|j: int| 0 <= j < regions@.len() ==> region_in_image(#[trigger] regions@[j], *screen),
            out@.len() == i,
            forall|j: int|
                0 <= j < i ==> (#[trigger] out@[j]).wf() && (out@[j].width, out@[j].height, out@[j].pixels@)
                    == region_image_spec(*screen, regions@[j]),
        decreases regions@.len() - i,
    {
        out.push(capture_region(screen, &regions[i]));
        i += 1;
    }
    out
}

/// Looks for a saved fingerprint identical to a new capture: the first saved
/// image whose score against `shot` is 1, if any.
pub fn find_saved_duplicate(shot: &Image, saved: &Vec<Image>) -> (r: Option<usize>)
    requires
        shot.wf(),
        forall|j: int| 0 <= j < saved@.len() ==> (#[trigger] saved@[j]).wf(),
    ensures
        r is None <==> forall|j: int|
            0 <= j < saved@.len() ==> !similarity_spec(
                signature_of(*shot),
                signature_of(#[trigger] saved@[j]),
            ).is_perfect_spec(),
        r matches Some(k) ==> k < saved@.len() && similarity_spec(
            signature_of(*shot),
            signature_of(saved@[k as int]),
        ).is_perfect_spec() && forall|j: int|
            0 <= j < k ==> !similarity_spec(
                signature_of(*shot),
                signature_of(#[trigger] saved@[j]),
            ).is_perfect_spec(),
{
    let mut j: usize = 0;
    while j < saved.len()
        invariant
            0 <= j <= saved@.len(),
            shot.wf(),
            forall|i: int| 0 <= i < saved@.len() ==> (#[trigger] saved@[i]).wf(),
            forall|i: int|
                0 <= i < j ==> !similarity_spec(
                    signature_of(*shot),
                    signature_of(#[trigger] saved@[i]),
                ).is_perfect_spec(),
        decreases saved@.len() - j,
    {
        if compare_image(shot, &saved[j]).is_perfect() {
            return Some(j);
        }
        j += 1;
    }
    None
}

/// The number of the next capture folder: one past the largest existing one,
/// or 1 when there is none.
pub fn next_capture_index(existing: &[usize]) -> (r: usize)
    requires
        forall|j: int| 0 <= j < existing@.len() ==> #[trigger] existing@[j] < usize::MAX,
    ensures
        forall|j: int| 0 <= j < existing@.len() ==> #[trigger] existing@[j] < r,
        r == 1 || exists|j: int| 0 <= j < existing@.len() && #[trigger] existing@[j] + 1 == r,
        r >= 1,
{
    let mut best: usize = 0;
    let mut j: usize = 0;
    while j < existing.len()
        invariant
            0 <= j <= existing@.len(),
            forall|i: int| 0 <= i < existing@.len() ==> #[trigger] existing@[i] < usize::MAX,
            forall|i: int| 0 <= i < j ==> #[trigger] existing@[i] <= best,
            best == 0 || exists|i: int| 0 <= i < j && #[trigger] existing@[i] == best,
        decreases existing@.len() - j,
    {
        if existing[j] > best {
            best = existing[j];
        }
        j += 1;
    }
    best + 1
}

} // verus!
