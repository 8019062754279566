//! ILI9341 240x320 RGB565 display: orientation, the frame buffer that all
//! drawing goes to, the command sequences, and the plan by which a flush
//! sends the buffer's pixels.
//!
//! Drawing happens in memory; a flush then sends a window of the buffer to
//! the panel in chunks of at most `DMA_BUF_SIZE` bytes, each pixel high byte
//! first. The firmware moves the bytes and drives the pins.

pub mod commands;

use vstd::prelude::*;

verus! {

/// Columns of the panel's pixel matrix.
pub const PHYSICAL_WIDTH: usize = 240;
/// Rows of the panel's pixel matrix.
pub const PHYSICAL_HEIGHT: usize = 320;
/// Pixels of the frame buffer.
pub const MAX_FRAME_BUFFER_SIZE: usize = 76800;
/// Bytes of one transfer chunk.
pub const DMA_BUF_SIZE: usize = 8192;
/// Pixels of one transfer chunk.
pub const PIXELS_PER_TRANSFER: usize = 4096;

/// How the panel is held.
#[derive(Debug, Clone, Copy, PartialEq, Eq)]
pub enum DisplayOrientation {
    /// 240 wide, 320 high.
    Portrait,
    /// 320 wide, 240 high.
    Landscape,
}

/// The width of an orientation.
pub open spec fn spec_width(o: DisplayOrientation) -> nat {
    match o {
        DisplayOrientation::Portrait => 240,
        DisplayOrientation::Landscape => 320,
    }
}

/// The height of an orientation.
pub open spec fn spec_height(o: DisplayOrientation) -> nat {
    match o {
        DisplayOrientation::Portrait => 320,
        DisplayOrientation::Landscape => 240,
    }
}

/// The memory access control value of an orientation: BGR order, and the
/// row/column exchange in landscape.
pub open spec fn spec_madctl(o: DisplayOrientation) -> u8 {
    match o {
        DisplayOrientation::Portrait => 0x48,
        DisplayOrientation::Landscape => 0x28,
    }
}

impl DisplayOrientation {
    /// The width in this orientation.
    pub fn width(&self) -> (w: usize)
        ensures
            w == spec_width(*self),
    {
        match self {
            DisplayOrientation::Portrait => PHYSICAL_WIDTH,
            DisplayOrientation::Landscape => PHYSICAL_HEIGHT,
        }
    }

    /// The height in this orientation.
    pub fn height(&self) -> (h: usize)
        ensures
            h == spec_height(*self),
    {
        match self {
            DisplayOrientation::Portrait => PHYSICAL_HEIGHT,
            DisplayOrientation::Landscape => PHYSICAL_WIDTH,
        }
    }

    /// The memory access control value.
    pub fn madctl_value(&self) -> (v: u8)
        ensures
            v == spec_madctl(*self),
    {
        match self {
            DisplayOrientation::Portrait => 0x48,
            DisplayOrientation::Landscape => 0x28,
        }
    }
}

impl Default for DisplayOrientation {
    /// Landscape.
    fn default() -> (o: Self)
        ensures
            o == DisplayOrientation::Landscape,
    {
        DisplayOrientation::Landscape
    }
}

/// Both orientations cover the whole buffer.
pub proof fn lemma_orientation_area(o: DisplayOrientation)
    ensures
        spec_width(o) * spec_height(o) == MAX_FRAME_BUFFER_SIZE,
        0 < spec_width(o) <= 320,
        0 < spec_height(o) <= 320,
{
}

/// Pixel (`x`, `y`) of a buffer `w` wide.
pub open spec fn pixel_at(s: Seq<u16>, w: nat, x: int, y: int) -> u16 {
    s[y * w + x]
}

/// A cell of a `w` by `h` grid lies in its first `w * h` entries.
pub proof fn lemma_cell_in_range(w: int, h: int, x: int, y: int)
    requires
        0 <= x < w,
        0 <= y < h,
    ensures
        0 <= y * w + x < w * h,
{
    assert(0 <= y * w) by (nonlinear_arith)
        requires
            0 <= y,
            0 < w,
    ;
    assert(y * w + x < w * h) by (nonlinear_arith)
        requires
            0 <= x < w,
            0 <= y < h,
    ;
}

/// Distinct cells of a grid `w` wide have distinct indices.
pub proof fn lemma_cells_distinct(w: int, x1: int, y1: int, x2: int, y2: int)
    requires
        0 <= x1 < w,
        0 <= x2 < w,
        0 <= y1,
        0 <= y2,
        x1 != x2 || y1 != y2,
    ensures
        y1 * w + x1 != y2 * w + x2,
{
    if y1 < y2 {
        assert(y1 * w + x1 < y2 * w + x2) by (nonlinear_arith)
            requires
                0 <= x1 < w,
                0 <= x2,
                y1 < y2,
        ;
    } else if y2 < y1 {
        assert(y2 * w + x2 < y1 * w + x1) by (nonlinear_arith)
            requires
                0 <= x2 < w,
                0 <= x1,
                y2 < y1,
        ;
    }
}

/// Whether (`x`, `y`) lies in the rectangle at (`rx`, `ry`) of `rw` by `rh`.
pub open spec fn in_rect(x: int, y: int, rx: int, ry: int, rw: int, rh: int) -> bool {
    rx <= x < rx + rw && ry <= y < ry + rh
}

/// The frame buffer and the orientation it is drawn in.
pub struct FrameBuffer {
    pixels: Vec<u16>,
    orientation: DisplayOrientation,
}

impl FrameBuffer {
    /// The pixels, row by row.
    pub closed spec fn pixels(&self) -> Seq<u16> {
        self.pixels@
    }

    /// The orientation.
    pub closed spec fn spec_orientation(&self) -> DisplayOrientation {
        self.orientation
    }

    /// The buffer holds exactly the screen's pixels.
    pub open spec fn wf(&self) -> bool {
        self.pixels().len() == MAX_FRAME_BUFFER_SIZE
    }

    /// Pixel (`x`, `y`) in the current orientation.
    pub open spec fn pixel(&self, x: int, y: int) -> u16 {
        pixel_at(self.pixels(), spec_width(self.spec_orientation()), x, y)
    }

    /// A black buffer in `orientation`.
    pub fn with_orientation(orientation: DisplayOrientation) -> (fb: Self)
        ensures
            fb.wf(),
            fb.spec_orientation() == orientation,
            forall|i: int| 0 <= i < MAX_FRAME_BUFFER_SIZE ==> #[trigger] fb.pixels()[i] == 0,
    {
        let mut pixels: Vec<u16> = Vec::new();
        let mut i: usize = 0;
        while i < MAX_FRAME_BUFFER_SIZE
            invariant
                i <= MAX_FRAME_BUFFER_SIZE,
                pixels@.len() == i,
                forall|j: int| 0 <= j < i ==> #[trigger] pixels@[j] == 0,
            decreases MAX_FRAME_BUFFER_SIZE - i,
        {
            pixels.push(0);
            i = i + 1;
        }
        FrameBuffer { pixels, orientation }
    }

    /// A black buffer in the default orientation, landscape.
    pub fn new() -> (fb: Self)
        ensures
            fb.wf(),
            fb.spec_orientation() == DisplayOrientation::Landscape,
            forall|i: int| 0 <= i < MAX_FRAME_BUFFER_SIZE ==> #[trigger] fb.pixels()[i] == 0,
    {
        Self::with_orientation(DisplayOrientation::Landscape)
    }

    /// The orientation.
    pub fn orientation(&self) -> (o: DisplayOrientation)
        ensures
            o == self.spec_orientation(),
    {
        self.orientation
    }

    /// The width in the current orientation.
    pub fn width(&self) -> (w: usize)
        ensures
            w == spec_width(self.spec_orientation()),
    {
        self.orientation.width()
    }

    /// The height in the current orientation.
    pub fn height(&self) -> (h: usize)
        ensures
            h == spec_height(self.spec_orientation()),
    {
        self.orientation.height()
    }

    /// Switches to `orientation`. Returns the memory access control value to
    /// send when it changed, `None` when it did not. The pixels stay as they
    /// are: the screen has to be drawn again.
    pub fn set_orientation(&mut self, orientation: DisplayOrientation) -> (m: Option<u8>)
        ensures
            final(self).spec_orientation() == orientation,
            final(self).pixels() == old(self).pixels(),
            m == orientation_change(old(self).spec_orientation(), orientation),
    {
        let same = match (self.orientation, orientation) {
            (DisplayOrientation::Portrait, DisplayOrientation::Portrait) => true,
            (DisplayOrientation::Landscape, DisplayOrientation::Landscape) => true,
            _ => false,
        };
        if same {
            return None;
        }
        self.orientation = orientation;
        Some(self.orientation.madctl_value())
    }

    /// Sets pixel (`x`, `y`) to `color` when it lies on the screen; a pixel
    /// off the screen is dropped.
    pub fn draw_pixel(&mut self, x: i32, y: i32, color: u16)
        requires
            old(self).wf(),
        ensures
            final(self).wf(),
            final(self).spec_orientation() == old(self).spec_orientation(),
            forall|px: int, py: int|
                0 <= px < spec_width(old(self).spec_orientation()) && 0 <= py < spec_height(
                    old(self).spec_orientation(),
                ) ==> #[trigger] final(self).pixel(px, py) == if px == x && py == y {
                    color
                } else {
                    old(self).pixel(px, py)
                },
    {
        let width = self.width();
        let height = self.height();
        let ghost w = width as int;
        let ghost h = height as int;
        proof {
            lemma_orientation_area(self.orientation);
        }
        if 0 <= x && 0 <= y && (x as usize) < width && (y as usize) < height {
            let xi = x as usize;
            let yi = y as usize;
            proof {
                lemma_cell_in_range(w, h, xi as int, yi as int);
            }
            let idx = yi * width + xi;
            self.pixels.set(idx, color);
            proof {
                assert forall|px: int, py: int|
                    0 <= px < w && 0 <= py < h implies #[trigger] self.pixel(px, py) == if px == x
                    && py == y {
                    color
                } else {
                    old(self).pixel(px, py)
                } by {
                    lemma_cell_in_range(w, h, px, py);
                    if px != x || py != y {
                        lemma_cells_distinct(w, px, py, xi as int, yi as int);
                    }
                }
            }
        }
    }

    /// Fills the part of the rectangle at (`x`, `y`) of `w` by `h` pixels
    /// that lies on the screen with `color`.
    pub fn fill_solid(&mut self, x: i32, y: i32, w: u32, h: u32, color: u16)
        requires
            old(self).wf(),
        ensures
            final(self).wf(),
            final(self).spec_orientation() == old(self).spec_orientation(),
            forall|px: int, py: int|
                0 <= px < spec_width(old(self).spec_orientation()) && 0 <= py < spec_height(
                    old(self).spec_orientation(),
                ) ==> #[trigger] final(self).pixel(px, py) == if in_rect(
                    px,
                    py,
                    x as int,
                    y as int,
                    w as int,
                    h as int,
                ) {
                    color
                } else {
                    old(self).pixel(px, py)
                },
    {
        let width = self.width();
        let height = self.height();
        let ghost gw = width as int;
        let ghost gh = height as int;
        proof {
            lemma_orientation_area(self.orientation);
        }
        // The rectangle clipped to the screen: columns sx..ex, rows sy..ey.
        let xe: i64 = x as i64 + w as i64;
        let ye: i64 = y as i64 + h as i64;
        let sx: usize = if x < 0 { 0 } else if x as i64 > width as i64 { width } else { x as usize };
        let sy: usize = if y < 0 { 0 } else if y as i64 > height as i64 { height } else { y as usize };
        let ex: usize = if xe < sx as i64 { sx } else if xe > width as i64 { width } else { xe as usize };
        let ey: usize = if ye < sy as i64 { sy } else if ye > height as i64 { height } else { ye as usize };
        let ghost start = self.pixels@;
        let mut row: usize = sy;
        while row < ey
            invariant
                width == gw,
                height == gh,
                gw == spec_width(self.orientation),
                gh == spec_height(self.orientation),
                gw * gh == MAX_FRAME_BUFFER_SIZE,
                0 < gw <= 320,
                0 < gh <= 320,
                self.orientation == old(self).orientation,
                start == old(self).pixels@,
                self.pixels@.len() == MAX_FRAME_BUFFER_SIZE,
                sx <= ex <= gw,
                sy <= row <= ey <= gh,
                forall|px: int, py: int|
                    sx <= px < ex && sy <= py < ey <==> in_rect(px, py, x as int, y as int, w as int, h as int)
                        && 0 <= px < gw && 0 <= py < gh,
                forall|px: int, py: int|
                    0 <= px < gw && 0 <= py < gh ==> #[trigger] pixel_at(self.pixels@, gw as nat, px, py)
                        == if sx <= px < ex && sy <= py < row {
                        color
                    } else {
                        pixel_at(start, gw as nat, px, py)
                    },
            decreases ey - row,
        {
            let mut col: usize = sx;
            while col < ex
                invariant
                    width == gw,
                    height == gh,
                    gw == spec_width(self.orientation),
                    gh == spec_height(self.orientation),
                    self.orientation == old(self).orientation,
                    start == old(self).pixels@,
                    gw * gh == MAX_FRAME_BUFFER_SIZE,
                    0 < gw <= 320,
                    0 < gh <= 320,
                    self.pixels@.len() == MAX_FRAME_BUFFER_SIZE,
                    sx <= col <= ex <= gw,
                    sy <= row < ey <= gh,
                    forall|px: int, py: int|
                        0 <= px < gw && 0 <= py < gh ==> #[trigger] pixel_at(self.pixels@, gw as nat, px, py)
                            == if (sx <= px < ex && sy <= py < row) || (py == row && sx <= px < col) {
                            color
                        } else {
                            pixel_at(start, gw as nat, px, py)
                        },
                decreases ex - col,
            {
                proof {
                    lemma_cell_in_range(gw, gh, col as int, row as int);
                }
                let idx = row * width + col;
                let ghost before = self.pixels@;
                self.pixels.set(idx, color);
                proof {
                    assert forall|px: int, py: int| 0 <= px < gw && 0 <= py < gh implies #[trigger] pixel_at(
                        self.pixels@,
                        gw as nat,
                        px,
                        py,
                    ) == if (sx <= px < ex && sy <= py < row) || (py == row && sx <= px < col + 1) {
                        color
                    } else {
                        pixel_at(start, gw as nat, px, py)
                    } by {
                        lemma_cell_in_range(gw, gh, px, py);
                        if px != col || py != row {
                            lemma_cells_distinct(gw, px, py, col as int, row as int);
                            assert(pixel_at(self.pixels@, gw as nat, px, py) == pixel_at(before, gw as nat, px, py));
                        }
                    }
                }
                col = col + 1;
            }
            row = row + 1;
        }
        proof {
            assert forall|px: int, py: int| 0 <= px < gw && 0 <= py < gh implies #[trigger] self.pixel(px, py)
                == if in_rect(px, py, x as int, y as int, w as int, h as int) {
                color
            } else {
                old(self).pixel(px, py)
            } by {
                assert(pixel_at(self.pixels@, gw as nat, px, py) == if sx <= px < ex && sy <= py < ey {
                    color
                } else {
                    pixel_at(start, gw as nat, px, py)
                });
                assert(sx <= px < ex && sy <= py < ey <==> in_rect(px, py, x as int, y as int, w as int, h as int));
            }
        }
    }

    /// Fills the whole screen with `color`.
    pub fn clear(&mut self, color: u16)
        requires
            old(self).wf(),
        ensures
            final(self).wf(),
            final(self).spec_orientation() == old(self).spec_orientation(),
            forall|i: int| 0 <= i < MAX_FRAME_BUFFER_SIZE ==> #[trigger] final(self).pixels()[i] == color,
    {
        proof {
            lemma_orientation_area(self.orientation);
        }
        let total = self.width() * self.height();
        let mut i: usize = 0;
        while i < total
            invariant
                total == MAX_FRAME_BUFFER_SIZE,
                self.pixels@.len() == MAX_FRAME_BUFFER_SIZE,
                self.orientation == old(self).orientation,
                i <= total,
                forall|j: int| 0 <= j < i ==> #[trigger] self.pixels@[j] == color,
            decreases total - i,
        {
            self.pixels.set(i, color);
            i = i + 1;
        }
    }
}

/// The bytes that send `count` pixels of `s` from index `start`: each pixel
/// high byte first.
pub open spec fn span_bytes(s: Seq<u16>, start: int, count: int) -> Seq<u8> {
    Seq::new(
        (2 * count) as nat,
        |k: int|
            if k % 2 == 0 {
                (s[start + k / 2] / 256) as u8
            } else {
                (s[start + k / 2] % 256) as u8
            },
    )
}

/// The bytes of spans `idx..` of `spans`, the first of them from offset
/// `off`.
pub open spec fn rest_bytes(s: Seq<u16>, spans: Seq<(usize, usize)>, idx: int, off: int) -> Seq<u8>
    decreases spans.len() - idx,
{
    if idx < 0 || idx >= spans.len() {
        Seq::empty()
    } else {
        span_bytes(s, spans[idx].0 + off, spans[idx].1 - off) + rest_bytes(s, spans, idx + 1, 0)
    }
}

/// The bytes of rows `r..rh` of the rectangle at (`x`, `y`), `rw` pixels
/// wide, in a buffer `w` wide: row by row, left to right.
pub open spec fn rows_bytes(s: Seq<u16>, w: int, x: int, y: int, rw: int, r: int, rh: int) -> Seq<u8>
    decreases rh - r,
{
    if r >= rh {
        Seq::empty()
    } else {
        span_bytes(s, (y + r) * w + x, rw) + rows_bytes(s, w, x, y, rw, r + 1, rh)
    }
}

/// Sending `n` then `m` pixels sends `n + m` pixels.
pub proof fn lemma_span_split(s: Seq<u16>, start: int, n: int, m: int)
    requires
        0 <= n,
        0 <= m,
    ensures
        span_bytes(s, start, n + m) == span_bytes(s, start, n) + span_bytes(s, start + n, m),
{
    let a = span_bytes(s, start, n);
    let b = span_bytes(s, start + n, m);
    assert forall|k: int| 0 <= k < 2 * (n + m) implies #[trigger] span_bytes(s, start, n + m)[k] == (a
        + b)[k] by {
        if k >= 2 * n {
            assert((k - 2 * n) % 2 == k % 2);
            assert(start + n + (k - 2 * n) / 2 == start + k / 2);
        }
    }
    assert(span_bytes(s, start, n + m) =~= a + b);
}

/// A row of a grid ends within the grid.
pub proof fn lemma_row_end(w: int, h: int, yy: int, xe: int)
    requires
        0 <= yy < h,
        0 <= xe <= w,
    ensures
        0 <= yy * w,
        yy * w + xe <= w * h,
{
    assert(0 <= yy * w && yy * w + xe <= w * h) by (nonlinear_arith)
        requires
            0 <= yy < h,
            0 <= xe <= w,
    ;
}

/// The spans of the rows of a rectangle send its rows.
pub proof fn lemma_rows_spans(
    s: Seq<u16>,
    spans: Seq<(usize, usize)>,
    w: int,
    x: int,
    y: int,
    rw: int,
    r: int,
    rh: int,
)
    requires
        0 <= r <= rh,
        spans.len() == rh,
        forall|i: int|
            0 <= i < rh ==> #[trigger] spans[i] == (((y + i) * w + x) as usize, rw as usize) && 0 <= (y
                + i) * w + x <= usize::MAX,
        0 <= rw <= usize::MAX,
    ensures
        rest_bytes(s, spans, r, 0) == rows_bytes(s, w, x, y, rw, r, rh),
    decreases rh - r,
{
    if r < rh {
        lemma_rows_spans(s, spans, w, x, y, rw, r + 1, rh);
        assert(spans[r] == (((y + r) * w + x) as usize, rw as usize));
    }
}

/// How many pixels the next chunk of a plan at span `idx`, offset `off`
/// sends: the rest of the span, at most `PIXELS_PER_TRANSFER`.
pub open spec fn chunk_count(spans: Seq<(usize, usize)>, idx: int, off: int) -> int {
    let left = spans[idx].1 - off;
    if left < PIXELS_PER_TRANSFER {
        left
    } else {
        PIXELS_PER_TRANSFER as int
    }
}

/// The plan by which a flush sends a window of the frame buffer: the
/// address window to set, then spans of pixels in chunks.
pub struct FlushPlan {
    window: (u16, u16, u16, u16),
    spans: Vec<(usize, usize)>,
    idx: usize,
    off: usize,
}

impl FlushPlan {
    /// The address window: first column, first row, last column, last row.
    pub closed spec fn spec_window(&self) -> (u16, u16, u16, u16) {
        self.window
    }

    /// The spans of pixels to send, as (first index, count).
    pub closed spec fn spans(&self) -> Seq<(usize, usize)> {
        self.spans@
    }

    /// The span under way.
    pub closed spec fn index(&self) -> int {
        self.idx as int
    }

    /// How far into it the plan is.
    pub closed spec fn offset(&self) -> int {
        self.off as int
    }

    /// The bytes still to send from the buffer `s`.
    pub open spec fn remaining(&self, s: Seq<u16>) -> Seq<u8> {
        rest_bytes(s, self.spans(), self.index(), self.offset())
    }

    /// The plan's invariant over a buffer of `n` pixels: no span is empty or
    /// leaves the buffer, and the position lies in the spans.
    pub open spec fn wf(&self, n: nat) -> bool {
        &&& forall|i: int|
            0 <= i < self.spans().len() ==> 0 < (#[trigger] self.spans()[i]).1 && self.spans()[i].0
                + self.spans()[i].1 <= n
        &&& 0 <= self.index() <= self.spans().len()
        &&& self.index() < self.spans().len() ==> 0 <= self.offset() < self.spans()[self.index()].1
        &&& self.index() == self.spans().len() ==> self.offset() == 0
    }

    /// The window to set before the pixels go out.
    pub fn window(&self) -> (w: (u16, u16, u16, u16))
        ensures
            w == self.spec_window(),
    {
        self.window
    }

    /// The plan of a full flush: the whole screen, all its pixels in order.
    pub fn full(fb: &FrameBuffer) -> (p: FlushPlan)
        requires
            fb.wf(),
        ensures
            p.spec_window() == (
                0u16,
                0u16,
                (spec_width(fb.spec_orientation()) - 1) as u16,
                (spec_height(fb.spec_orientation()) - 1) as u16,
            ),
            p.remaining(fb.pixels()) == span_bytes(fb.pixels(), 0, MAX_FRAME_BUFFER_SIZE as int),
            p.wf(fb.pixels().len()),
    {
        proof {
            lemma_orientation_area(fb.spec_orientation());
        }
        let width = fb.width();
        let height = fb.height();
        let mut spans: Vec<(usize, usize)> = Vec::new();
        spans.push((0, width * height));
        let p = FlushPlan {
            window: (0, 0, (width - 1) as u16, (height - 1) as u16),
            spans,
            idx: 0,
            off: 0,
        };
        proof {
            reveal_with_fuel(rest_bytes, 2);
            assert(p.remaining(fb.pixels()) =~= span_bytes(fb.pixels(), 0, MAX_FRAME_BUFFER_SIZE as int));
        }
        p
    }

    /// The plan of a flush of the rectangle at (`x`, `y`) of `w` by `h`
    /// pixels, clipped to the screen; `None` when its corner lies off the
    /// screen. An empty width or height still sends one column or row.
    pub fn rect(fb: &FrameBuffer, x: u16, y: u16, w: u16, h: u16) -> (p: Option<FlushPlan>)
        requires
            fb.wf(),
            x >= spec_width(fb.spec_orientation()) || y >= spec_height(fb.spec_orientation()) || (x
                + w <= 65536 && y + h <= 65536),
        ensures
            match p {
                None => x >= spec_width(fb.spec_orientation()) || y >= spec_height(fb.spec_orientation()),
                Some(p) => {
                    let ww = spec_width(fb.spec_orientation()) as int;
                    let hh = spec_height(fb.spec_orientation()) as int;
                    let x1 = if w == 0 { x as int } else { x + w - 1 };
                    let y1 = if h == 0 { y as int } else { y + h - 1 };
                    let x1 = if x1 < ww - 1 { x1 } else { ww - 1 };
                    let y1 = if y1 < hh - 1 { y1 } else { hh - 1 };
                    &&& x < ww && y < hh
                    &&& p.spec_window() == (x, y, x1 as u16, y1 as u16)
                    &&& p.remaining(fb.pixels()) == rows_bytes(
                        fb.pixels(),
                        ww,
                        x as int,
                        y as int,
                        x1 - x + 1,
                        0,
                        y1 - y + 1,
                    )
                    &&& p.wf(fb.pixels().len())
                },
            },
    {
        let width = fb.width();
        let height = fb.height();
        proof {
            lemma_orientation_area(fb.spec_orientation());
        }
        if x as usize >= width || y as usize >= height {
            return None;
        }
        let wm: u16 = if w == 0 { 0 } else { w - 1 };
        let hm: u16 = if h == 0 { 0 } else { h - 1 };
        let x1: u16 = if ((x + wm) as usize) < width - 1 { x + wm } else { (width - 1) as u16 };
        let y1: u16 = if ((y + hm) as usize) < height - 1 { y + hm } else { (height - 1) as u16 };
        let rect_width = (x1 - x + 1) as usize;
        let rect_height = (y1 - y + 1) as usize;
        let mut spans: Vec<(usize, usize)> = Vec::new();
        let mut r: usize = 0;
        while r < rect_height
            invariant
                width == spec_width(fb.spec_orientation()),
                height == spec_height(fb.spec_orientation()),
                width * height == MAX_FRAME_BUFFER_SIZE,
                fb.pixels().len() == MAX_FRAME_BUFFER_SIZE,
                x + rect_width <= width,
                y + rect_height <= height,
                0 < rect_width,
                r <= rect_height,
                spans@.len() == r,
                forall|i: int|
                    0 <= i < r ==> #[trigger] spans@[i] == (((y + i) * width + x) as usize, rect_width)
                        && 0 <= (y + i) * width + x && (y + i) * width + x + rect_width <= width * height,
            decreases rect_height - r,
        {
            proof {
                lemma_row_end(width as int, height as int, y + r, x + rect_width);
            }
            let start = (y as usize + r) * width + x as usize;
            spans.push((start, rect_width));
            r = r + 1;
        }
        let p = FlushPlan { window: (x, y, x1, y1), spans, idx: 0, off: 0 };
        proof {
            lemma_rows_spans(
                fb.pixels(),
                p.spans@,
                width as int,
                x as int,
                y as int,
                rect_width as int,
                0,
                rect_height as int,
            );
        }
        Some(p)
    }

    /// The next chunk of bytes to send, or `None` when all were sent.
    pub fn next_chunk(&mut self, fb: &FrameBuffer) -> (c: Option<Vec<u8>>)
        requires
            old(self).wf(fb.pixels().len()),
        ensures
            final(self).wf(fb.pixels().len()),
            final(self).spec_window() == old(self).spec_window(),
            final(self).spans() == old(self).spans(),
            match c {
                None => old(self).index() == old(self).spans().len() && old(self).remaining(fb.pixels())
                    == Seq::<u8>::empty() && final(self).index() == old(self).index(),
                Some(b) => {
                    &&& old(self).index() < old(self).spans().len()
                    &&& b@ == span_bytes(
                        fb.pixels(),
                        old(self).spans()[old(self).index()].0 + old(self).offset(),
                        chunk_count(old(self).spans(), old(self).index(), old(self).offset()),
                    )
                    &&& 0 < b@.len() <= DMA_BUF_SIZE
                    &&& old(self).remaining(fb.pixels()) == b@ + final(self).remaining(fb.pixels())
                },
            },
    {
        if self.idx >= self.spans.len() {
            return None;
        }
        proof {
            let i = self.idx as int;
            assert(0 < self.spans()[i].1 && self.spans()[i].0 + self.spans()[i].1 <= fb.pixels().len());
            assert(fb.pixels@.len() == fb.pixels.len());
        }
        let (start, len) = self.spans[self.idx];
        let left = len - self.off;
        let count = if left < PIXELS_PER_TRANSFER { left } else { PIXELS_PER_TRANSFER };
        let first = start + self.off;
        let ghost s = fb.pixels();
        let mut bytes: Vec<u8> = Vec::new();
        let mut i: usize = 0;
        while i < count
            invariant
                i <= count,
                first + count <= s.len(),
                s.len() <= usize::MAX,
                s == fb.pixels@,
                bytes@ == span_bytes(s, first as int, i as int),
            decreases count - i,
        {
            let pixel = fb.pixels[first + i];
            bytes.push((pixel / 256) as u8);
            bytes.push((pixel % 256) as u8);
            i = i + 1;
            assert(bytes@ =~= span_bytes(s, first as int, i as int));
        }
        let ghost old_off = self.off as int;
        let ghost idx = self.idx as int;
        if self.off + count < len {
            self.off = self.off + count;
            proof {
                lemma_span_split(s, first as int, count as int, (len - old_off - count) as int);
                assert(rest_bytes(s, self.spans@, idx, old_off) =~= bytes@ + rest_bytes(
                    s,
                    self.spans@,
                    idx,
                    self.off as int,
                ));
            }
        } else {
            self.idx = self.idx + 1;
            self.off = 0;
        }
        Some(bytes)
    }
}

/// The two address frames of a window: column start and end, then row
/// start and end, each high byte first.
pub fn address_window(x0: u16, y0: u16, x1: u16, y1: u16) -> (r: ([u8; 4], [u8; 4]))
    ensures
        r.0 == [(x0 / 256) as u8, (x0 % 256) as u8, (x1 / 256) as u8, (x1 % 256) as u8],
        r.1 == [(y0 / 256) as u8, (y0 % 256) as u8, (y1 / 256) as u8, (y1 % 256) as u8],
{
    ([(x0 / 256) as u8, (x0 % 256) as u8, (x1 / 256) as u8, (x1 % 256) as u8], [
        (y0 / 256) as u8,
        (y0 % 256) as u8,
        (y1 / 256) as u8,
        (y1 % 256) as u8,
    ])
}

/// One action on the panel's bus: each ends with chip select high.
#[derive(Debug, Clone, PartialEq, Eq)]
pub enum LcdOp {
    /// Chip select high and data mode: the bus at rest.
    Release,
    /// A command byte.
    Command(u8),
    /// A data byte.
    Data(u8),
    /// A command byte and one data byte, under one chip select.
    CommandData(u8, u8),
    /// Data bytes.
    DataBytes(Vec<u8>),
    /// A pause of this many milliseconds.
    DelayMs(u32),
}

/// An [`LcdOp`] with its bytes taken as a sequence.
pub enum LcdOpView {
    Release,
    Command(u8),
    Data(u8),
    CommandData(u8, u8),
    DataBytes(Seq<u8>),
    DelayMs(u32),
}

impl View for LcdOp {
    type V = LcdOpView;

    open spec fn view(&self) -> LcdOpView {
        match self {
            LcdOp::Release => LcdOpView::Release,
            LcdOp::Command(c) => LcdOpView::Command(*c),
            LcdOp::Data(d) => LcdOpView::Data(*d),
            LcdOp::CommandData(c, d) => LcdOpView::CommandData(*c, *d),
            LcdOp::DataBytes(b) => LcdOpView::DataBytes(b@),
            LcdOp::DelayMs(ms) => LcdOpView::DelayMs(*ms),
        }
    }
}

/// The positive gamma curve.
pub open spec fn gamma_positive() -> Seq<u8> {
    seq![0x0Fu8, 0x31, 0x2B, 0x0C, 0x0E, 0x08, 0x4E, 0xF1, 0x37, 0x07, 0x10, 0x03, 0x0E, 0x09, 0x00]
}

/// The negative gamma curve.
pub open spec fn gamma_negative() -> Seq<u8> {
    seq![0x00u8, 0x0E, 0x14, 0x03, 0x11, 0x07, 0x31, 0xC1, 0x48, 0x08, 0x0F, 0x0C, 0x31, 0x36, 0x0F]
}

/// The start-up sequence in orientation `o`: bus at rest, software reset,
/// wake-up, RGB565, the orientation, frame rate, power, VCOM, inversion
/// off, both gamma curves, display on.
pub open spec fn init_ops(o: DisplayOrientation) -> Seq<LcdOpView> {
    seq![
        LcdOpView::Release,
        LcdOpView::Command(commands::SWRESET),
        LcdOpView::DelayMs(5),
        LcdOpView::Command(commands::SLPOUT),
        LcdOpView::DelayMs(5),
        LcdOpView::CommandData(commands::COLMOD, 0x55),
        LcdOpView::CommandData(commands::MADCTL, spec_madctl(o)),
        LcdOpView::CommandData(commands::FRMCTR1, 0x00),
        LcdOpView::Data(0x1B),
        LcdOpView::Command(commands::PWCTR1),
        LcdOpView::Data(0x23),
        LcdOpView::Data(0x10),
        LcdOpView::CommandData(commands::PWCTR2, 0x10),
        LcdOpView::CommandData(commands::VMCTR1, 0x3E),
        LcdOpView::Data(0x28),
        LcdOpView::Command(commands::INVOFF),
        LcdOpView::Command(commands::GMCTRP1),
        LcdOpView::DataBytes(gamma_positive()),
        LcdOpView::Command(commands::GMCTRN1),
        LcdOpView::DataBytes(gamma_negative()),
        LcdOpView::Command(commands::DISPON),
        LcdOpView::DelayMs(1),
    ]
}

/// The start-up sequence of the panel in `orientation`.
pub fn init_sequence(orientation: DisplayOrientation) -> (ops: Vec<LcdOp>)
    ensures
        ops@.len() == init_ops(orientation).len(),
        forall|i: int| 0 <= i < ops@.len() ==> #[trigger] ops@[i]@ == init_ops(orientation)[i],
{
    let positive = vec![
        0x0Fu8, 0x31, 0x2B, 0x0C, 0x0E, 0x08, 0x4E, 0xF1, 0x37, 0x07, 0x10, 0x03, 0x0E, 0x09, 0x00,
    ];
    let negative = vec![
        0x00u8, 0x0E, 0x14, 0x03, 0x11, 0x07, 0x31, 0xC1, 0x48, 0x08, 0x0F, 0x0C, 0x31, 0x36, 0x0F,
    ];
    assert(positive@ =~= gamma_positive());
    assert(negative@ =~= gamma_negative());
    let mut ops: Vec<LcdOp> = Vec::new();
    ops.push(LcdOp::Release);
    ops.push(LcdOp::Command(commands::SWRESET));
    ops.push(LcdOp::DelayMs(5));
    ops.push(LcdOp::Command(commands::SLPOUT));
    ops.push(LcdOp::DelayMs(5));
    ops.push(LcdOp::CommandData(commands::COLMOD, 0x55));
    ops.push(LcdOp::CommandData(commands::MADCTL, orientation.madctl_value()));
    ops.push(LcdOp::CommandData(commands::FRMCTR1, 0x00));
    ops.push(LcdOp::Data(0x1B));
    ops.push(LcdOp::Command(commands::PWCTR1));
    ops.push(LcdOp::Data(0x23));
    ops.push(LcdOp::Data(0x10));
    ops.push(LcdOp::CommandData(commands::PWCTR2, 0x10));
    ops.push(LcdOp::CommandData(commands::VMCTR1, 0x3E));
    ops.push(LcdOp::Data(0x28));
    ops.push(LcdOp::Command(commands::INVOFF));
    ops.push(LcdOp::Command(commands::GMCTRP1));
    ops.push(LcdOp::DataBytes(positive));
    ops.push(LcdOp::Command(commands::GMCTRN1));
    ops.push(LcdOp::DataBytes(negative));
    ops.push(LcdOp::Command(commands::DISPON));
    ops.push(LcdOp::DelayMs(1));
    ops
}

/// What `set_orientation` returns: nothing when the orientation stays,
/// else the new orientation's memory access control value.
pub open spec fn orientation_change(from: DisplayOrientation, to: DisplayOrientation) -> Option<u8> {
    if from == to {
        None
    } else {
        Some(spec_madctl(to))
    }
}

/// Switching to the orientation already set sends nothing, so a second
/// switch to the same orientation is silent; the two orientations have
/// different access control values.
pub proof fn law_orientation_switch_once(a: DisplayOrientation, b: DisplayOrientation)
    ensures
        orientation_change(b, b) is None,
        a != b ==> orientation_change(a, b) == Some(spec_madctl(b)),
        a != b ==> spec_madctl(a) != spec_madctl(b),
{
}

/// A full flush sends two bytes a pixel, every pixel of the buffer in
/// order, high byte first.
pub proof fn law_full_flush_bytes(s: Seq<u16>, i: int)
    requires
        0 <= i < MAX_FRAME_BUFFER_SIZE,
    ensures
        span_bytes(s, 0, MAX_FRAME_BUFFER_SIZE as int).len() == 2 * MAX_FRAME_BUFFER_SIZE,
        span_bytes(s, 0, MAX_FRAME_BUFFER_SIZE as int)[2 * i] == (s[i] / 256) as u8,
        span_bytes(s, 0, MAX_FRAME_BUFFER_SIZE as int)[2 * i + 1] == (s[i] % 256) as u8,
{
    assert((2 * i) % 2 == 0 && (2 * i) / 2 == i);
    assert((2 * i + 1) % 2 == 1 && (2 * i + 1) / 2 == i);
}

} // verus!
