//! The history bar: the last readings in a row of cells.

use vstd::prelude::*;
use vstd::string::*;
use crate::ui::bounding_box::{BoundingBox, in_i32};
use crate::ui::shape::{Shape, ShapeView, frame_fits, framed, push_frame, push_text, shapes_view};
use crate::ui::theme::{GrayTheme, spec_theme};

verus! {

/// Readings a history bar shows.
pub const HISTORY_CELLS: usize = 6;

/// A 280x60 bar with a title and `count` cells of 40x30, 5 apart.
#[derive(Debug, Clone, Copy, PartialEq, Eq)]
pub struct HistoryBar {
    pub x: i32,
    pub y: i32,
    pub width: u32,
    pub height: u32,
    pub count: usize,
    pub theme: GrayTheme,
}

/// Cell `i` of a bar at (`x`, `y`) showing `value`: a box in the second
/// lightest shade with dark edges, the value centred in its top part.
pub open spec fn history_cell(bar: HistoryBar, i: int, value: Seq<char>, value_len: int) -> Seq<ShapeView> {
    let cell_x = bar.x + 15 + i * 45;
    let start_y = bar.y + 25;
    framed(cell_x, start_y, 40, 30, bar.theme.g6, bar.theme.g0, bar.theme.g0, bar.theme.g0, bar.theme.g0).push(
        ShapeView::Text { x: cell_x + 20 - value_len * 5, y: start_y + 5, text: value, color: bar.theme.g0 },
    )
}

/// Cells `0..n` of a bar showing `values`.
pub open spec fn history_cells(bar: HistoryBar, values: Seq<String>, n: int) -> Seq<ShapeView>
    decreases n,
{
    if n <= 0 {
        Seq::empty()
    } else {
        history_cells(bar, values, n - 1) + history_cell(
            bar,
            n - 1,
            values[n - 1]@,
            vstd::utf8::encode_utf8(values[n - 1]@).len() as int,
        )
    }
}

impl HistoryBar {
    /// An empty bar at (`x`, `y`).
    pub fn new(x: i32, y: i32) -> (b: Self)
        ensures
            b == (HistoryBar { x, y, width: 280, height: 60, count: 0, theme: spec_theme() }),
    {
        HistoryBar { x, y, width: 280, height: 60, count: 0, theme: GrayTheme::new() }
    }

    /// The bar in `theme`.
    pub fn with_theme(self, theme: GrayTheme) -> (b: Self)
        ensures
            b == (HistoryBar { theme, ..self }),
    {
        HistoryBar { theme, ..self }
    }

    /// Takes `n` new readings: the bar shows the first `HISTORY_CELLS` of
    /// them.
    pub fn update(&mut self, n: usize)
        ensures
            *final(self) == (HistoryBar {
                count: if n < HISTORY_CELLS {
                    n
                } else {
                    HISTORY_CELLS
                },
                ..*old(self)
            }),
    {
        self.count = if n < HISTORY_CELLS { n } else { HISTORY_CELLS };
    }

    /// The bar's box.
    pub fn bounding_box(&self) -> (b: BoundingBox)
        ensures
            b == (BoundingBox { x: self.x, y: self.y, width: self.width, height: self.height }),
    {
        BoundingBox::new(self.x, self.y, self.width, self.height)
    }

    /// Whether the drawing arithmetic stays in `i32`.
    pub open spec fn fits(&self) -> bool {
        &&& frame_fits(self.x, self.y, self.width, self.height)
        &&& self.count <= HISTORY_CELLS
        &&& in_i32(self.x + 15 + 5 * 45 + 40)
        &&& in_i32(self.x - 60)
        &&& in_i32(self.y + 25 + 30)
    }

    /// What the bar draws with the formatted readings `values`: a light box
    /// with dark edges, the title, then its cells.
    pub fn shapes(&self, values: &Vec<String>) -> (v: Vec<Shape>)
        requires
            self.fits(),
            self.count <= values@.len(),
            forall|i: int| 0 <= i < values@.len() ==> vstd::utf8::encode_utf8((#[trigger] values@[i])@).len() <= 16,
        ensures
            shapes_view(v@) == framed(
                self.x as int,
                self.y as int,
                self.width as int,
                self.height as int,
                self.theme.g7,
                self.theme.g0,
                self.theme.g0,
                self.theme.g0,
                self.theme.g0,
            ).push(
                ShapeView::Text {
                    x: self.x + 10,
                    y: self.y + 5,
                    text: "HISTORY (24h)"@,
                    color: self.theme.g0,
                },
            ) + history_cells(*self, values@, self.count as int),
    {
        let ink = self.theme.g0;
        let mut out: Vec<Shape> = Vec::new();
        push_frame(&mut out, self.x, self.y, self.width, self.height, self.theme.g7, ink, ink, ink, ink);
        push_text(&mut out, self.x + 10, self.y + 5, "HISTORY (24h)", ink);
        let ghost head = shapes_view(out@);
        let start_x = self.x + 15;
        let start_y = self.y + 25;
        let mut i: usize = 0;
        while i < self.count
            invariant
                self.fits(),
                self.count <= values@.len(),
                forall|j: int| 0 <= j < values@.len() ==> vstd::utf8::encode_utf8((#[trigger] values@[j])@).len() <= 16,
                i <= self.count,
                start_x == self.x + 15,
                start_y == self.y + 25,
                ink == self.theme.g0,
                shapes_view(out@) == head + history_cells(*self, values@, i as int),
            decreases self.count - i,
        {
            let ghost before = shapes_view(out@);
            let cell_x = start_x + i as i32 * 45;
            push_frame(&mut out, cell_x, start_y, 40, 30, self.theme.g6, ink, ink, ink, ink);
            let value = values[i].as_str();
            assert(vstd::utf8::encode_utf8(values@[i as int]@).len() <= 16);
            push_text(&mut out, cell_x + 20 - value.len() as i32 * 5, start_y + 5, value, ink);
            assert(shapes_view(out@) =~= before + history_cell(
                *self,
                i as int,
                values@[i as int]@,
                vstd::utf8::encode_utf8(values@[i as int]@).len() as int,
            ));
            i = i + 1;
            assert(shapes_view(out@) =~= head + history_cells(*self, values@, i as int));
        }
        out
    }
}

proof fn lemma_history_cells_len(bar: HistoryBar, values: Seq<String>, n: int)
    requires
        0 <= n,
    ensures
        history_cells(bar, values, n).len() == 6 * n,
    decreases n,
{
    if n > 0 {
        lemma_history_cells_len(bar, values, n - 1);
    }
}

/// The left edge of a filled box (0 for other shapes).
pub open spec fn left_edge(s: ShapeView) -> int {
    match s {
        ShapeView::Fill { x, .. } => x,
        _ => 0,
    }
}

/// The first column right of a filled box (0 for other shapes).
pub open spec fn right_edge(s: ShapeView) -> int {
    match s {
        ShapeView::Fill { x, w, .. } => x + w,
        _ => 0,
    }
}

/// The cells of the history bar stand side by side: cell `i`'s background
/// is a 40 by 30 box whose left edge is 15 + 45 * `i` pixels right of the
/// bar's, 25 below its top, so each cell begins 45 pixels right of the one
/// before and no two cells overlap.
pub proof fn law_history_cells_side_by_side(bar: HistoryBar, values: Seq<String>, n: int, i: int, j: int)
    requires
        0 <= i < j < n,
    ensures
        history_cells(bar, values, n)[6 * i] == (ShapeView::Fill {
            x: bar.x + 15 + 45 * i,
            y: bar.y + 25,
            w: 40,
            h: 30,
            color: bar.theme.g6,
        }),
        right_edge(history_cells(bar, values, n)[6 * i]) < left_edge(history_cells(bar, values, n)[6 * j]),
        j == i + 1 ==> left_edge(history_cells(bar, values, n)[6 * j]) == left_edge(
            history_cells(bar, values, n)[6 * i],
        ) + 45,
{
    lemma_history_cell_at(bar, values, n, i);
    lemma_history_cell_at(bar, values, n, j);
}

proof fn lemma_history_cell_at(bar: HistoryBar, values: Seq<String>, n: int, i: int)
    requires
        0 <= i < n,
    ensures
        history_cells(bar, values, n)[6 * i] == (ShapeView::Fill {
            x: bar.x + 15 + 45 * i,
            y: bar.y + 25,
            w: 40,
            h: 30,
            color: bar.theme.g6,
        }),
    decreases n,
{
    lemma_history_cells_len(bar, values, n - 1);
    if i < n - 1 {
        lemma_history_cell_at(bar, values, n - 1, i);
    }
}

} // verus!
