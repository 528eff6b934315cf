//! Displays and their frozen pixel grids.
//!
//! A snapshot is taken once per display before any overlay window exists and
//! is never written to afterwards: it has no method that changes it.

use crate::error::OverlayError;
use crate::geometry::SelectionRect;
use crate::pixel::Rgba;
use vstd::prelude::*;

verus! {

/// One display: its identifier and where it lies on the desktop.
#[derive(Clone, Copy, Debug, PartialEq, Eq, Structural)]
pub struct Monitor {
    pub id: u32,
    pub x: i32,
    pub y: i32,
    pub width: u32,
    pub height: u32,
}

/// Where channel `c` of the pixel at column `x`, row `y` lies in the bytes
/// of a grid `width` pixels wide, stored row by row.
pub open spec fn byte_index(width: int, x: int, y: int, c: int) -> int {
    4 * (y * width + x) + c
}

/// The pixel at column `x`, row `y` of a grid stored as RGBA bytes.
pub open spec fn pixel_of(bytes: Seq<u8>, width: int, x: int, y: int) -> Rgba {
    Rgba {
        r: bytes[byte_index(width, x, y, 0)],
        g: bytes[byte_index(width, x, y, 1)],
        b: bytes[byte_index(width, x, y, 2)],
        a: bytes[byte_index(width, x, y, 3)],
    }
}

/// Whether `out` holds the `w` by `h` pixels of `bytes` whose top-left
/// corner is at column `x`, row `y`.
pub open spec fn holds_crop(
    out: Seq<u8>,
    bytes: Seq<u8>,
    width: int,
    x: int,
    y: int,
    w: int,
    h: int,
) -> bool {
    &&& out.len() == 4 * w * h
    &&& forall|i: int, j: int, c: int|
        0 <= i < w && 0 <= j < h && 0 <= c < 4 ==> #[trigger] out[byte_index(w, i, j, c)]
            == bytes[byte_index(width, x + i, y + j, c)]
}

/// An immutable grid of RGBA pixels, stored row by row.
pub struct Snapshot {
    width: u32,
    height: u32,
    data: Vec<u8>,
}

impl View for Snapshot {
    type V = Seq<u8>;

    /// The bytes of the grid: four per pixel, row by row.
    closed spec fn view(&self) -> Seq<u8> {
        self.data@
    }
}

impl Snapshot {
    #[verifier::type_invariant]
    spec fn well_sized(self) -> bool {
        self.data@.len() == 4 * self.width * self.height
    }

    /// The number of columns.
    pub closed spec fn spec_width(self) -> u32 {
        self.width
    }

    /// The number of rows.
    pub closed spec fn spec_height(self) -> u32 {
        self.height
    }

    /// A snapshot holds exactly four bytes for each of its pixels.
    pub open spec fn wf(self) -> bool {
        self@.len() == 4 * self.spec_width() * self.spec_height()
    }

    /// The pixel at column `x`, row `y`.
    pub open spec fn pixel(self, x: int, y: int) -> Rgba {
        pixel_of(self@, self.spec_width() as int, x, y)
    }

    /// Whether this grid holds the pixels of `source` under `rect`, as far
    /// as `rect` lies inside `source`: it is as large as that part, and
    /// its pixel at `(i, j)` is the pixel of `source` that lies `i` columns
    /// and `j` rows from the corner of that part.
    pub open spec fn is_crop_of(self, source: Snapshot, rect: SelectionRect) -> bool {
        let kept = rect.clipped(source.spec_width() as int, source.spec_height() as int);
        &&& self.wf()
        &&& self.spec_width() == kept.width
        &&& self.spec_height() == kept.height
        &&& forall|i: int, j: int|
            0 <= i < kept.width && 0 <= j < kept.height ==> #[trigger] self.pixel(i, j)
                == source.pixel(kept.x + i, kept.y + j)
    }

    /// Wraps captured bytes as a snapshot. Gives `None` unless there are
    /// exactly four bytes per pixel.
    pub fn new(width: u32, height: u32, data: Vec<u8>) -> (out: Option<Snapshot>)
        ensures
            out.is_some() <==> data@.len() == 4 * width * height,
            out matches Some(s) ==> s.spec_width() == width && s.spec_height() == height && s@
                == data@ && s.wf(),
    {
        assert(width * height <= 0xFFFF_FFFF * 0xFFFF_FFFF) by (nonlinear_arith)
            requires
                width <= 0xFFFF_FFFF,
                height <= 0xFFFF_FFFF,
        ;
        assert(4 * (width * height) == 4 * width * height) by (nonlinear_arith);
        let pixels: u64 = width as u64 * height as u64;
        let len: usize = data.len();
        if pixels <= (usize::MAX / 4) as u64 && len == 4 * (pixels as usize) {
            Some(Snapshot { width, height, data })
        } else {
            None
        }
    }

    /// The number of columns.
    pub fn width(&self) -> (w: u32)
        ensures
            w == self.spec_width(),
            self.wf(),
            self@.len() <= usize::MAX,
    {
        proof {
            use_type_invariant(self);
        }
        let _len: usize = self.data.len();
        self.width
    }

    /// The number of rows.
    pub fn height(&self) -> (h: u32)
        ensures
            h == self.spec_height(),
            self.wf(),
    {
        proof {
            use_type_invariant(self);
        }
        self.height
    }

    /// The bytes of the grid: four per pixel, row by row.
    pub fn bytes(&self) -> (out: &Vec<u8>)
        ensures
            out@ == self@,
            self.wf(),
    {
        proof {
            use_type_invariant(self);
        }
        &self.data
    }

    /// Reads the pixel at column `x`, row `y`; `None` outside the grid.
    pub fn get_pixel(&self, x: u32, y: u32) -> (out: Option<Rgba>)
        ensures
            out.is_some() <==> x < self.spec_width() && y < self.spec_height(),
            out matches Some(p) ==> p == self.pixel(x as int, y as int),
    {
        proof {
            use_type_invariant(self);
        }
        if x < self.width && y < self.height {
            Some(self.pixel_at(x, y))
        } else {
            None
        }
    }

    /// Reads the pixel at column `x`, row `y` of the grid.
    pub fn pixel_at(&self, x: u32, y: u32) -> (p: Rgba)
        requires
            x < self.spec_width(),
            y < self.spec_height(),
        ensures
            p == self.pixel(x as int, y as int),
    {
        proof {
            use_type_invariant(self);
            lemma_pixel_in_range(self.width as int, self.height as int, x as int, y as int);
        }
        let len: usize = self.data.len();
        assert(4 * (y * self.width + x) + 3 < len);
        let at: usize = 4 * (y as usize * self.width as usize + x as usize);
        Rgba { r: self.data[at], g: self.data[at + 1], b: self.data[at + 2], a: self.data[at + 3] }
    }
}

/// Copies a rectangle of pixels out of a grid of RGBA bytes.
///
/// Calls `image::imageops::crop_imm` on an `image::RgbaImage` built from
/// the bytes, and `SubImage::to_image` on the view it returns. For a
/// rectangle that lies inside the grid the view is not cut down, and
/// `to_image` copies the pixel at `(x + i, y + j)` of the source to
/// `(i, j)` of a new buffer `w` wide and `h` high, stored row by row.
///
/// The rectangle must hold a pixel. The `image` crate sizes a buffer by
/// multiplying four by the width before it multiplies by the height, and
/// gives up when that overflows `usize`, also for a grid of no rows; with
/// a pixel inside, neither product is larger than the number of bytes
/// that are there.
#[verifier::external_body]
fn crop_rgba(data: &Vec<u8>, width: u32, height: u32, x: u32, y: u32, w: u32, h: u32) -> (out:
    Vec<u8>)
    requires
        data@.len() == 4 * width * height,
        w >= 1,
        h >= 1,
        x + w <= width,
        y + h <= height,
    ensures
        holds_crop(out@, data@, width as int, x as int, y as int, w as int, h as int),
{
    let source = image::RgbaImage::from_raw(width, height, data.clone()).unwrap();
    image::imageops::crop_imm(&source, x, y, w, h).to_image().into_raw()
}

impl Snapshot {
    /// Copies out the part of the snapshot under `rect`. A rectangle that
    /// reaches past an edge is cut off there; one that covers no pixel of
    /// the snapshot gives `None`.
    pub fn crop(&self, rect: SelectionRect) -> (out: Option<Snapshot>)
        ensures
            out.is_some() <==> rect.overlaps(self.spec_width() as int, self.spec_height() as int),
            out matches Some(c) ==> c.is_crop_of(*self, rect),
    {
        proof {
            use_type_invariant(self);
        }
        match rect.clip(self.width, self.height) {
            None => None,
            Some(kept) => {
                let data: Vec<u8> = crop_rgba(
                    &self.data,
                    self.width,
                    self.height,
                    kept.x as u32,
                    kept.y as u32,
                    kept.width,
                    kept.height,
                );
                let c = Snapshot { width: kept.width, height: kept.height, data };
                assert forall|i: int, j: int|
                    0 <= i < kept.width && 0 <= j < kept.height implies #[trigger] c.pixel(i, j)
                    == self.pixel(kept.x + i, kept.y + j) by {
                    let w = kept.width as int;
                    assert(c@[byte_index(w, i, j, 0)] == self@[byte_index(
                        self.width as int,
                        kept.x + i,
                        kept.y + j,
                        0,
                    )]);
                    assert(c@[byte_index(w, i, j, 1)] == self@[byte_index(
                        self.width as int,
                        kept.x + i,
                        kept.y + j,
                        1,
                    )]);
                    assert(c@[byte_index(w, i, j, 2)] == self@[byte_index(
                        self.width as int,
                        kept.x + i,
                        kept.y + j,
                        2,
                    )]);
                    assert(c@[byte_index(w, i, j, 3)] == self@[byte_index(
                        self.width as int,
                        kept.x + i,
                        kept.y + j,
                        3,
                    )]);
                }
                Some(c)
            },
        }
    }
}

/// Whether every capture in the list succeeded.
pub open spec fn all_captured(captures: Seq<Option<Snapshot>>) -> bool {
    forall|i: int| 0 <= i < captures.len() ==> (#[trigger] captures[i]).is_some()
}

/// Gathers the snapshots of all displays, in the order of the displays.
///
/// `captures` holds what capturing each display gave, `None` where it
/// failed. Startup goes on only with one snapshot for every display: a
/// single failed capture, or a list of another length than `monitors`,
/// fails the whole startup.
pub fn capture_all(monitors: &Vec<Monitor>, captures: Vec<Option<Snapshot>>) -> (out: Result<
    Vec<Snapshot>,
    OverlayError,
>)
    ensures
        out.is_ok() <==> captures@.len() == monitors@.len() && all_captured(captures@),
        out matches Ok(snapshots) ==> snapshots@.len() == monitors@.len() && forall|i: int|
            0 <= i < snapshots@.len() ==> captures@[i] == Some(#[trigger] snapshots@[i]),
        out matches Err(e) ==> e == OverlayError::StartupFailure,
{
    if captures.len() != monitors.len() {
        return Err(OverlayError::StartupFailure);
    }
    let ghost all: Seq<Option<Snapshot>> = captures@;
    let mut rest: Vec<Option<Snapshot>> = captures;
    let mut snapshots: Vec<Snapshot> = Vec::new();
    while rest.len() > 0
        invariant
            all == captures@,
            snapshots@.len() + rest@.len() == all.len(),
            rest@ == all.skip(snapshots@.len() as int),
            forall|i: int| 0 <= i < snapshots@.len() ==> all[i] == Some(#[trigger] snapshots@[i]),
        decreases rest@.len(),
    {
        let first: Option<Snapshot> = rest.remove(0);
        assert(first == all[snapshots@.len() as int]);
        match first {
            None => {
                assert(!all_captured(all));
                return Err(OverlayError::StartupFailure);
            },
            Some(snapshot) => {
                snapshots.push(snapshot);
            },
        }
        assert(rest@ == all.skip(snapshots@.len() as int));
    }
    assert forall|i: int| 0 <= i < all.len() implies (#[trigger] all[i]).is_some() by {
        assert(all[i] == Some(snapshots@[i]));
    }
    Ok(snapshots)
}

/// A pixel inside a grid has its four bytes inside the grid's bytes.
pub proof fn lemma_pixel_in_range(width: int, height: int, x: int, y: int)
    requires
        0 <= x < width,
        0 <= y < height,
    ensures
        0 <= y * width,
        y * width + x < width * height,
        0 <= byte_index(width, x, y, 0),
        byte_index(width, x, y, 3) < 4 * width * height,
        4 * (width * height) == 4 * width * height,
{
    assert(0 <= y * width) by (nonlinear_arith)
        requires
            0 <= y,
            0 < width,
    ;
    assert(y * width + width <= height * width) by (nonlinear_arith)
        requires
            y + 1 <= height,
            0 < width,
    ;
    assert(height * width == width * height) by (nonlinear_arith);
    assert(4 * (width * height) == 4 * width * height) by (nonlinear_arith);
}

} // verus!
