//! Rendering a snapshot into the pixel buffer of a window.
//!
//! A frame holds one packed BGRA word per pixel, row by row. There are two
//! ways to draw: rendering a whole frame, for the first frame of a window
//! and for a drag frame, and bringing an existing frame up to date with a
//! new rectangle by touching only the cells on the old and the new outline.
//! Both compute every word in one place, `render_cell`, and a frame brought
//! up to date is word for word the frame that a whole rendering gives.

use crate::geometry::SelectionRect;
use crate::pixel::{
    brighten, brightened, highlight, highlight_color, lemma_pack_roundtrip, pack_pixel, packed,
    unpack_pixel, unpacked, Rgba,
};
use crate::snapshot::Snapshot;
use vstd::prelude::*;

verus! {

/// Where the pixel at column `x`, row `y` lies in a frame `width` wide.
pub open spec fn cell_index(width: int, x: int, y: int) -> int {
    y * width + x
}

/// The word that a frame of `snapshot` holds at column `x`, row `y`: the
/// highlight colour on the outline of `outline`, if there is one, and
/// everywhere else the snapshot's pixel, brightened by `brightness`.
pub open spec fn frame_word(
    snapshot: Snapshot,
    brightness: u8,
    outline: Option<SelectionRect>,
    x: int,
    y: int,
) -> int {
    if outline matches Some(rect) && rect.on_outline(x, y) {
        packed(highlight_color())
    } else {
        packed(brightened(snapshot.pixel(x, y), brightness))
    }
}

/// The pixel buffer of one window: a packed word per pixel, row by row.
pub struct FrameBuffer {
    width: u32,
    height: u32,
    words: Vec<u32>,
}

impl View for FrameBuffer {
    type V = Seq<u32>;

    /// The words of the frame, row by row.
    closed spec fn view(&self) -> Seq<u32> {
        self.words@
    }
}

impl FrameBuffer {
    #[verifier::type_invariant]
    spec fn well_sized(self) -> bool {
        self.words@.len() == self.width * self.height
    }

    /// The number of columns.
    pub closed spec fn spec_width(self) -> u32 {
        self.width
    }

    /// The number of rows.
    pub closed spec fn spec_height(self) -> u32 {
        self.height
    }

    /// A frame holds exactly one word for each of its pixels.
    pub open spec fn wf(self) -> bool {
        self@.len() == self.spec_width() * self.spec_height()
    }

    /// The packed word at column `x`, row `y`.
    pub open spec fn word(self, x: int, y: int) -> u32 {
        self@[cell_index(self.spec_width() as int, x, y)]
    }

    /// The pixel that the word at column `x`, row `y` stands for.
    pub open spec fn pixel(self, x: int, y: int) -> Rgba {
        unpacked(self.word(x, y) as int)
    }

    /// Whether the frame shows `snapshot`, brightened by `brightness`, with
    /// the outline of `outline` drawn over it.
    pub open spec fn shows(self, snapshot: Snapshot, brightness: u8, outline: Option<SelectionRect>) -> bool {
        &&& self.wf()
        &&& self.spec_width() == snapshot.spec_width()
        &&& self.spec_height() == snapshot.spec_height()
        &&& forall|x: int, y: int|
            0 <= x < self.spec_width() && 0 <= y < self.spec_height() ==> #[trigger] self.word(x, y)
                as int == frame_word(snapshot, brightness, outline, x, y)
    }

    /// The number of columns.
    pub fn width(&self) -> (w: u32)
        ensures
            w == self.spec_width(),
            self.wf(),
    {
        proof {
            use_type_invariant(self);
        }
        self.width
    }

    /// The number of rows.
    pub fn height(&self) -> (h: u32)
        ensures
            h == self.spec_height(),
            self.wf(),
    {
        proof {
            use_type_invariant(self);
        }
        self.height
    }

    /// Reads the pixel at column `x`, row `y`; `None` outside the frame.
    pub fn get_pixel(&self, x: u32, y: u32) -> (out: Option<Rgba>)
        ensures
            out.is_some() <==> x < self.spec_width() && y < self.spec_height(),
            out matches Some(p) ==> p == self.pixel(x as int, y as int),
    {
        proof {
            use_type_invariant(self);
        }
        if x < self.width && y < self.height {
            proof {
                lemma_cell_in_frame(self.width as int, self.height as int, x as int, y as int);
            }
            let _len: usize = self.words.len();
            let at: usize = y as usize * self.width as usize + x as usize;
            Some(unpack_pixel(self.words[at]))
        } else {
            None
        }
    }

    /// Writes `p` at column `x`, row `y` and leaves every other pixel as
    /// it was. Outside the frame nothing is written and `false` comes back.
    pub fn put_pixel(&mut self, x: u32, y: u32, p: Rgba) -> (written: bool)
        ensures
            final(self).spec_width() == old(self).spec_width(),
            final(self).spec_height() == old(self).spec_height(),
            old(self).wf(),
            final(self).wf(),
            written <==> x < old(self).spec_width() && y < old(self).spec_height(),
            written ==> final(self)@ == old(self)@.update(
                cell_index(old(self).spec_width() as int, x as int, y as int),
                packed(p) as u32,
            ),
            written ==> final(self).pixel(x as int, y as int) == p,
            !written ==> final(self)@ == old(self)@,
    {
        proof {
            use_type_invariant(&*self);
        }
        if x < self.width && y < self.height {
            proof {
                lemma_cell_in_frame(self.width as int, self.height as int, x as int, y as int);
                lemma_pack_roundtrip(p);
            }
            let _len: usize = self.words.len();
            let at: usize = y as usize * self.width as usize + x as usize;
            self.words[at] = pack_pixel(p);
            true
        } else {
            false
        }
    }

    /// The words of the frame, ready to be copied to a surface.
    pub fn words(&self) -> (out: &Vec<u32>)
        ensures
            out@ == self@,
            self.wf(),
    {
        proof {
            use_type_invariant(self);
        }
        &self.words
    }
}

/// Cells of earlier rows, and earlier cells of the same row, come first.
proof fn lemma_cell_order(width: int, x: int, y: int, i: int, j: int)
    requires
        0 <= i < width,
        0 <= x <= width,
        0 <= j <= y,
        j < y || i < x,
    ensures
        0 <= cell_index(width, i, j) < cell_index(width, x, y),
{
    assert(0 <= j * width) by (nonlinear_arith)
        requires
            0 <= j,
            0 < width,
    ;
    if j < y {
        assert(j * width + width <= y * width) by (nonlinear_arith)
            requires
                j + 1 <= y,
                0 < width,
        ;
    }
}

/// Computes the word of one cell: the highlight colour on the outline,
/// the brightened pixel of the snapshot elsewhere. Every draw path gets
/// its words here.
fn render_cell(snapshot: &Snapshot, brightness: u8, outline: Option<SelectionRect>, x: u32, y: u32) -> (word:
    u32)
    requires
        x < snapshot.spec_width(),
        y < snapshot.spec_height(),
    ensures
        word as int == frame_word(*snapshot, brightness, outline, x as int, y as int),
{
    let drawn: bool = match outline {
        Some(rect) => rect.is_on_outline(x, y),
        None => false,
    };
    if drawn {
        pack_pixel(highlight())
    } else {
        pack_pixel(brighten(snapshot.pixel_at(x, y), brightness))
    }
}

/// Renders every cell of a frame of `snapshot`, row by row.
fn compose(snapshot: &Snapshot, brightness: u8, outline: Option<SelectionRect>) -> (frame:
    FrameBuffer)
    ensures
        frame.shows(*snapshot, brightness, outline),
{
    let width: u32 = snapshot.width();
    let height: u32 = snapshot.height();
    let mut words: Vec<u32> = Vec::new();
    let mut y: u32 = 0;
    while y < height
        invariant
            y <= height,
            width == snapshot.spec_width(),
            height == snapshot.spec_height(),
            snapshot.wf(),
            snapshot@.len() <= usize::MAX,
            words@.len() == cell_index(width as int, 0, y as int),
            forall|i: int, j: int|
                0 <= i < width && 0 <= j < y ==> (#[trigger] words@[cell_index(width as int, i, j)])
                    as int == frame_word(*snapshot, brightness, outline, i, j),
        decreases height - y,
    {
        let mut x: u32 = 0;
        while x < width
            invariant
                x <= width,
                y < height,
                width == snapshot.spec_width(),
                height == snapshot.spec_height(),
                snapshot.wf(),
                snapshot@.len() <= usize::MAX,
                    words@.len() == cell_index(width as int, x as int, y as int),
                forall|i: int, j: int|
                    0 <= i < width && 0 <= j <= y && (j < y || i < x) ==> (
                    #[trigger] words@[cell_index(width as int, i, j)]) as int == frame_word(
                        *snapshot,
                        brightness,
                        outline,
                        i,
                        j,
                    ),
            decreases width - x,
        {
            let word: u32 = render_cell(snapshot, brightness, outline, x, y);
            let ghost before = words@;
            words.push(word);
            proof {
                assert forall|i: int, j: int|
                    0 <= i < width && 0 <= j <= y && (j < y || i < x + 1) implies (
                #[trigger] words@[cell_index(width as int, i, j)]) as int == frame_word(
                    *snapshot,
                    brightness,
                    outline,
                    i,
                    j,
                ) by {
                    if j < y || i < x {
                        lemma_cell_order(width as int, x as int, y as int, i, j);
                        assert(words@[cell_index(width as int, i, j)] == before[cell_index(
                            width as int,
                            i,
                            j,
                        )]);
                    }
                }
            }
            x = x + 1;
        }
        proof {
            assert(cell_index(width as int, width as int, y as int) == cell_index(
                width as int,
                0,
                y + 1,
            )) by (nonlinear_arith);
        }
        y = y + 1;
    }
    proof {
        assert(cell_index(width as int, 0, height as int) == width * height) by (nonlinear_arith);
    }
    FrameBuffer { width, height, words }
}

/// Two cells of a frame lie at the same index only if they are the same
/// cell.
proof fn lemma_cell_distinct(width: int, x: int, y: int, i: int, j: int)
    requires
        0 <= x < width,
        0 <= i < width,
        0 <= y,
        0 <= j,
        cell_index(width, x, y) == cell_index(width, i, j),
    ensures
        x == i,
        y == j,
{
    if j < y {
        lemma_cell_order(width, 0, y, i, j);
        lemma_cell_order(width, x + 1, y, 0, y);
    } else if y < j {
        lemma_cell_order(width, 0, j, x, y);
        lemma_cell_order(width, i + 1, j, 0, j);
    }
}

/// A cell inside a frame lies at an index inside the frame.
proof fn lemma_cell_in_frame(width: int, height: int, x: int, y: int)
    requires
        0 <= x < width,
        0 <= y < height,
    ensures
        0 <= cell_index(width, x, y) < width * height,
{
    lemma_cell_order(width, 0, height, x, y);
    assert(cell_index(width, 0, height) == width * height) by (nonlinear_arith);
}

impl FrameBuffer {
    /// Whether the frame is `before` with the cells that `changed` picks
    /// rendered anew for the outline `rect`, and all others as they were.
    pub open spec fn refreshes(
        self,
        before: FrameBuffer,
        snapshot: Snapshot,
        brightness: u8,
        rect: SelectionRect,
        changed: spec_fn(int, int) -> bool,
    ) -> bool {
        &&& self.wf()
        &&& self.spec_width() == before.spec_width()
        &&& self.spec_height() == before.spec_height()
        &&& forall|x: int, y: int|
            0 <= x < self.spec_width() && 0 <= y < self.spec_height() ==> #[trigger] self.word(x, y)
                as int == if changed(x, y) {
                frame_word(snapshot, brightness, Some(rect), x, y)
            } else {
                before.word(x, y) as int
            }
    }

    /// Renders the cell at column `x`, row `y` anew.
    fn refresh_cell(&mut self, snapshot: &Snapshot, brightness: u8, rect: SelectionRect, x: u32, y: u32)
        requires
            x < old(self).spec_width(),
            y < old(self).spec_height(),
            old(self).spec_width() == snapshot.spec_width(),
            old(self).spec_height() == snapshot.spec_height(),
        ensures
            final(self).refreshes(
                *old(self),
                *snapshot,
                brightness,
                rect,
                |i: int, j: int| i == x && j == y,
            ),
    {
        proof {
            use_type_invariant(&*self);
            lemma_cell_in_frame(self.width as int, self.height as int, x as int, y as int);
        }
        let word: u32 = render_cell(snapshot, brightness, Some(rect), x, y);
        let _len: usize = self.words.len();
        let at: usize = y as usize * self.width as usize + x as usize;
        self.words[at] = word;
        proof {
            assert forall|i: int, j: int|
                0 <= i < self.spec_width() && 0 <= j < self.spec_height() && !(i == x && j
                    == y) implies #[trigger] self.word(i, j) == old(self).word(i, j) by {
                lemma_cell_in_frame(self.width as int, self.height as int, i, j);
                if cell_index(self.width as int, i, j) == cell_index(
                    self.width as int,
                    x as int,
                    y as int,
                ) {
                    lemma_cell_distinct(self.width as int, x as int, y as int, i, j);
                }
            }
        }
    }

    /// Renders anew the cells of row `y` from column `from` up to, not
    /// including, column `to`.
    fn refresh_row(
        &mut self,
        snapshot: &Snapshot,
        brightness: u8,
        rect: SelectionRect,
        y: u32,
        from: u32,
        to: u32,
    )
        requires
            y < old(self).spec_height(),
            from <= to <= old(self).spec_width(),
            old(self).spec_width() == snapshot.spec_width(),
            old(self).spec_height() == snapshot.spec_height(),
            old(self).wf(),
        ensures
            final(self).refreshes(
                *old(self),
                *snapshot,
                brightness,
                rect,
                |i: int, j: int| j == y && from <= i < to,
            ),
    {
        let mut x: u32 = from;
        while x < to
            invariant
                from <= x <= to,
                to <= self.spec_width(),
                y < self.spec_height(),
                self.spec_width() == snapshot.spec_width(),
                self.spec_height() == snapshot.spec_height(),
                self.refreshes(
                    *old(self),
                    *snapshot,
                    brightness,
                    rect,
                    |i: int, j: int| j == y && from <= i < x,
                ),
            decreases to - x,
        {
            let ghost earlier = *self;
            self.refresh_cell(snapshot, brightness, rect, x, y);
            proof {
                assert forall|i: int, j: int|
                    0 <= i < self.spec_width() && 0 <= j < self.spec_height() implies #[trigger] self.word(
                    i,
                    j,
                ) as int == if j == y && from <= i < x + 1 {
                    frame_word(*snapshot, brightness, Some(rect), i, j)
                } else {
                    old(self).word(i, j) as int
                } by {
                    assert(earlier.word(i, j) as int == if j == y && from <= i < x {
                        frame_word(*snapshot, brightness, Some(rect), i, j)
                    } else {
                        old(self).word(i, j) as int
                    });
                }
            }
            x = x + 1;
        }
    }

    /// Renders anew the cells of column `x` from row `from` up to, not
    /// including, row `to`.
    fn refresh_column(
        &mut self,
        snapshot: &Snapshot,
        brightness: u8,
        rect: SelectionRect,
        x: u32,
        from: u32,
        to: u32,
    )
        requires
            x < old(self).spec_width(),
            from <= to <= old(self).spec_height(),
            old(self).spec_width() == snapshot.spec_width(),
            old(self).spec_height() == snapshot.spec_height(),
            old(self).wf(),
        ensures
            final(self).refreshes(
                *old(self),
                *snapshot,
                brightness,
                rect,
                |i: int, j: int| i == x && from <= j < to,
            ),
    {
        let mut y: u32 = from;
        while y < to
            invariant
                from <= y <= to,
                to <= self.spec_height(),
                x < self.spec_width(),
                self.spec_width() == snapshot.spec_width(),
                self.spec_height() == snapshot.spec_height(),
                self.refreshes(
                    *old(self),
                    *snapshot,
                    brightness,
                    rect,
                    |i: int, j: int| i == x && from <= j < y,
                ),
            decreases to - y,
        {
            let ghost earlier = *self;
            self.refresh_cell(snapshot, brightness, rect, x, y);
            proof {
                assert forall|i: int, j: int|
                    0 <= i < self.spec_width() && 0 <= j < self.spec_height() implies #[trigger] self.word(
                    i,
                    j,
                ) as int == if i == x && from <= j < y + 1 {
                    frame_word(*snapshot, brightness, Some(rect), i, j)
                } else {
                    old(self).word(i, j) as int
                } by {
                    assert(earlier.word(i, j) as int == if i == x && from <= j < y {
                        frame_word(*snapshot, brightness, Some(rect), i, j)
                    } else {
                        old(self).word(i, j) as int
                    });
                }
            }
            y = y + 1;
        }
    }
}

impl FrameBuffer {
    /// Renders anew the cells on the outline of `around`, as far as they
    /// lie inside the frame.
    fn refresh_outline(
        &mut self,
        snapshot: &Snapshot,
        brightness: u8,
        rect: SelectionRect,
        around: SelectionRect,
    )
        requires
            old(self).spec_width() == snapshot.spec_width(),
            old(self).spec_height() == snapshot.spec_height(),
            old(self).wf(),
        ensures
            final(self).refreshes(
                *old(self),
                *snapshot,
                brightness,
                rect,
                |i: int, j: int| around.on_outline(i, j),
            ),
    {
        let width: i64 = self.width() as i64;
        let height: i64 = self.height() as i64;
        let left: i64 = around.x as i64;
        let top: i64 = around.y as i64;
        let right: i64 = left + around.width as i64;
        let bottom: i64 = top + around.height as i64;
        let x_from: i64 = if left < 0 {
            0
        } else {
            left
        };
        let y_from: i64 = if top < 0 {
            0
        } else {
            top
        };
        let x_to: i64 = if right < width {
            right
        } else {
            width
        };
        let y_to: i64 = if bottom < height {
            bottom
        } else {
            height
        };
        if x_from >= x_to || y_from >= y_to {
            return ;
        }
        let ghost start = *self;
        if 0 <= top {
            self.refresh_row(snapshot, brightness, rect, top as u32, x_from as u32, x_to as u32);
        }
        let ghost after_top = *self;
        if bottom <= height {
            self.refresh_row(
                snapshot,
                brightness,
                rect,
                (bottom - 1) as u32,
                x_from as u32,
                x_to as u32,
            );
        }
        let ghost after_bottom = *self;
        if 0 <= left {
            self.refresh_column(snapshot, brightness, rect, left as u32, y_from as u32, y_to as u32);
        }
        let ghost after_left = *self;
        if right <= width {
            self.refresh_column(
                snapshot,
                brightness,
                rect,
                (right - 1) as u32,
                y_from as u32,
                y_to as u32,
            );
        }
        proof {
            assert forall|i: int, j: int|
                0 <= i < self.spec_width() && 0 <= j < self.spec_height() implies #[trigger] self.word(
                i,
                j,
            ) as int == if around.on_outline(i, j) {
                frame_word(*snapshot, brightness, Some(rect), i, j)
            } else {
                start.word(i, j) as int
            } by {
                let target = frame_word(*snapshot, brightness, Some(rect), i, j);
                let w0 = start.word(i, j) as int;
                let w1 = after_top.word(i, j) as int;
                let w2 = after_bottom.word(i, j) as int;
                let w3 = after_left.word(i, j) as int;
                assert(w1 == target || w1 == w0);
                assert(w2 == target || w2 == w1);
                assert(w3 == target || w3 == w2);
            }
        }
    }

    /// Brings a frame that shows the outline `previous`, or none, to show
    /// the outline `rect` instead. Only the cells on the two outlines are
    /// rendered anew; the frame ends word for word as a full rendering
    /// with `rect` would leave it.
    pub fn repaint(
        &mut self,
        snapshot: &Snapshot,
        brightness: u8,
        previous: Option<SelectionRect>,
        rect: SelectionRect,
    )
        requires
            old(self).shows(*snapshot, brightness, previous),
        ensures
            final(self).shows(*snapshot, brightness, Some(rect)),
    {
        let ghost start = *self;
        match previous {
            Some(stale) => {
                self.refresh_outline(snapshot, brightness, rect, stale);
            },
            None => {},
        }
        let ghost cleared = *self;
        self.refresh_outline(snapshot, brightness, rect, rect);
        proof {
            assert forall|x: int, y: int|
                0 <= x < self.spec_width() && 0 <= y < self.spec_height() implies #[trigger] self.word(
                x,
                y,
            ) as int == frame_word(*snapshot, brightness, Some(rect), x, y) by {
                assert(start.word(x, y) as int == frame_word(*snapshot, brightness, previous, x, y));
                let between = cleared.word(x, y);
            }
        }
    }
}

/// What a frame shows can be read back from it: a pixel of a frame
/// without outline is the snapshot's pixel, brightened; with no
/// brightening it is the snapshot's pixel itself.
pub proof fn lemma_frame_roundtrip(frame: FrameBuffer, snapshot: Snapshot, brightness: u8, x: int, y: int)
    requires
        frame.shows(snapshot, brightness, None),
        0 <= x < snapshot.spec_width(),
        0 <= y < snapshot.spec_height(),
    ensures
        frame.pixel(x, y) == brightened(snapshot.pixel(x, y), brightness),
        brightness == 0 ==> frame.pixel(x, y) == snapshot.pixel(x, y),
{
    lemma_pack_roundtrip(brightened(snapshot.pixel(x, y), brightness));
    assert(frame.word(x, y) as int == frame_word(snapshot, brightness, None, x, y));
}

/// A drag frame is the first frame with the outline drawn over it: on
/// the outline it holds the highlight colour, everywhere else the two
/// frames agree.
pub proof fn lemma_drag_frame_differs_on_outline(
    first: FrameBuffer,
    drag: FrameBuffer,
    snapshot: Snapshot,
    brightness: u8,
    rect: SelectionRect,
    x: int,
    y: int,
)
    requires
        first.shows(snapshot, brightness, None),
        drag.shows(snapshot, brightness, Some(rect)),
        0 <= x < snapshot.spec_width(),
        0 <= y < snapshot.spec_height(),
    ensures
        rect.on_outline(x, y) ==> drag.pixel(x, y) == highlight_color(),
        !rect.on_outline(x, y) ==> drag.word(x, y) == first.word(x, y),
{
    lemma_pack_roundtrip(highlight_color());
    assert(first.word(x, y) as int == frame_word(snapshot, brightness, None, x, y));
    assert(drag.word(x, y) as int == frame_word(snapshot, brightness, Some(rect), x, y));
}

/// What a frame shows fixes every word of it: two frames that show the
/// same snapshot, brightening and outline are word for word the same,
/// however each was rendered.
pub proof fn lemma_shown_frame_is_unique(
    a: FrameBuffer,
    b: FrameBuffer,
    snapshot: Snapshot,
    brightness: u8,
    outline: Option<SelectionRect>,
)
    requires
        a.shows(snapshot, brightness, outline),
        b.shows(snapshot, brightness, outline),
    ensures
        a@ == b@,
{
    let width = snapshot.spec_width() as int;
    let height = snapshot.spec_height() as int;
    assert forall|k: int| 0 <= k < a@.len() implies a@[k] == b@[k] by {
        lemma_cell_of_index(width, height, k);
        let x = k % width;
        let y = k / width;
        assert(a.word(x, y) as int == frame_word(snapshot, brightness, outline, x, y));
        assert(b.word(x, y) as int == frame_word(snapshot, brightness, outline, x, y));
    }
    assert(a@ =~= b@);
}

/// Every index of a frame is the index of one of its cells.
proof fn lemma_cell_of_index(width: int, height: int, k: int)
    requires
        0 <= k < width * height,
        0 <= width,
        0 <= height,
    ensures
        0 <= k % width < width,
        0 <= k / width < height,
        cell_index(width, k % width, k / width) == k,
{
    assert(width > 0) by (nonlinear_arith)
        requires
            0 <= k < width * height,
            0 <= width,
    ;
    vstd::arithmetic::div_mod::lemma_fundamental_div_mod(k, width);
    vstd::arithmetic::div_mod::lemma_mod_bound(k, width);
    assert(0 <= k / width < height) by (nonlinear_arith)
        requires
            0 <= k < width * height,
            0 < width,
            k == width * (k / width) + k % width,
            0 <= k % width < width,
    ;
    assert(width * (k / width) == (k / width) * width) by (nonlinear_arith);
}

/// Renders the first frame of a window: every pixel of the snapshot, one
/// to one, each colour channel raised by `brightness` and stopped at 255.
/// With a `brightness` of 0 the frame shows the snapshot unchanged.
pub fn initial_frame(snapshot: &Snapshot, brightness: u8) -> (frame: FrameBuffer)
    ensures
        frame.shows(*snapshot, brightness, None),
{
    compose(snapshot, brightness, None)
}

/// Renders the frame shown while a drag is under way: the snapshot as in
/// the first frame, and over it the one-pixel-wide outline of `rect` in
/// the highlight colour, as far as it lies inside the frame.
pub fn drag_frame(snapshot: &Snapshot, rect: SelectionRect, brightness: u8) -> (frame:
    FrameBuffer)
    ensures
        frame.shows(*snapshot, brightness, Some(rect)),
{
    compose(snapshot, brightness, Some(rect))
}

} // verus!
