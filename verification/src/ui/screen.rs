//! The screen: up to eight widgets and up to eight dirty rectangles, both
//! held in fixed-capacity `heapless` vectors.

use vstd::prelude::*;
use crate::ui::bounding_box::{BoundingBox, boxes_overlap};
use crate::ui::theme::{GrayTheme, spec_theme};
use crate::ui::widgets::{
    Button, HistoryBar, Label, PressureCard, ProgressBar, TempHumidCard, Widget, widget_box,
    widget_box_ok,
};

verus! {

/// Slots of the widget and dirty-rectangle lists.
pub const SCREEN_SLOTS: usize = 8;

/// `heapless::Vec`, a vector of at most `N` items kept inline; its contents
/// are seen through `widget_items` and `rect_items`.
#[verifier::external_type_specification]
#[verifier::external_body]
#[verifier::reject_recursive_types(T)]
pub struct ExHeaplessVec<T, const N: usize>(heapless::Vec<T, N>);

/// What a widget list holds, in order.
pub uninterp spec fn widget_items(v: heapless::Vec<Widget, 8>) -> Seq<Widget>;

/// What a dirty-rectangle list holds, in order.
pub uninterp spec fn rect_items(v: heapless::Vec<BoundingBox, 8>) -> Seq<BoundingBox>;

/// `heapless::Vec::new`: an empty widget list.
#[verifier::external_body]
fn new_widget_list() -> (v: heapless::Vec<Widget, 8>)
    ensures
        widget_items(v) == Seq::<Widget>::empty(),
{
    heapless::Vec::new()
}

/// `heapless::Vec::push` on a widget list: appends `w` while a slot is
/// free, else leaves the list as it is and hands `w` back.
#[verifier::external_body]
fn push_widget(v: &mut heapless::Vec<Widget, 8>, w: Widget) -> (r: Result<(), Widget>)
    ensures
        r == if widget_items(*old(v)).len() < 8 {
            Ok::<(), Widget>(())
        } else {
            Err(w)
        },
        widget_items(*final(v)) == if widget_items(*old(v)).len() < 8 {
            widget_items(*old(v)).push(w)
        } else {
            widget_items(*old(v))
        },
{
    v.push(w)
}

/// The length of a widget list (through its slice); never above the eight
/// slots.
#[verifier::external_body]
fn widget_count(v: &heapless::Vec<Widget, 8>) -> (n: usize)
    ensures
        n == widget_items(*v).len(),
        n <= 8,
{
    v.as_slice().len()
}

/// Widget `i` of a list (through its slice).
#[verifier::external_body]
fn widget_at(v: &heapless::Vec<Widget, 8>, i: usize) -> (w: &Widget)
    requires
        i < widget_items(*v).len(),
    ensures
        *w == widget_items(*v)[i as int],
{
    &v.as_slice()[i]
}

/// Widget `i` of a list, to change in place (through its slice).
#[verifier::external_body]
fn widget_at_mut(v: &mut heapless::Vec<Widget, 8>, i: usize) -> (w: &mut Widget)
    requires
        i < widget_items(*old(v)).len(),
    ensures
        *w == widget_items(*old(v))[i as int],
        widget_items(*final(v)) == widget_items(*old(v)).update(i as int, *final(w)),
{
    &mut v.as_mut_slice()[i]
}

/// `heapless::Vec::clear` on a widget list.
#[verifier::external_body]
fn clear_widget_list(v: &mut heapless::Vec<Widget, 8>)
    ensures
        widget_items(*final(v)) == Seq::<Widget>::empty(),
{
    v.clear()
}

/// `heapless::Vec::new`: an empty rectangle list.
#[verifier::external_body]
fn new_rect_list() -> (v: heapless::Vec<BoundingBox, 8>)
    ensures
        rect_items(v) == Seq::<BoundingBox>::empty(),
{
    heapless::Vec::new()
}

/// `heapless::Vec::push` on a rectangle list: appends `b` while a slot is
/// free, else leaves the list as it is and hands `b` back.
#[verifier::external_body]
fn push_rect(v: &mut heapless::Vec<BoundingBox, 8>, b: BoundingBox) -> (r: Result<(), BoundingBox>)
    ensures
        r == if rect_items(*old(v)).len() < 8 {
            Ok::<(), BoundingBox>(())
        } else {
            Err(b)
        },
        rect_items(*final(v)) == if rect_items(*old(v)).len() < 8 {
            rect_items(*old(v)).push(b)
        } else {
            rect_items(*old(v))
        },
{
    v.push(b)
}

/// The length of a rectangle list (through its slice); never above the
/// eight slots.
#[verifier::external_body]
fn rect_count(v: &heapless::Vec<BoundingBox, 8>) -> (n: usize)
    ensures
        n == rect_items(*v).len(),
        n <= 8,
{
    v.as_slice().len()
}

/// Rectangle `i` of a list (through its slice).
#[verifier::external_body]
fn rect_at(v: &heapless::Vec<BoundingBox, 8>, i: usize) -> (b: BoundingBox)
    requires
        i < rect_items(*v).len(),
    ensures
        b == rect_items(*v)[i as int],
{
    v.as_slice()[i]
}

/// `heapless::Vec::clear` on a rectangle list.
#[verifier::external_body]
fn clear_rect_list(v: &mut heapless::Vec<BoundingBox, 8>)
    ensures
        rect_items(*final(v)) == Seq::<BoundingBox>::empty(),
{
    v.clear()
}

/// Whether two boxes overlap, computed as the screen does it.
pub open spec fn spec_rects_intersect(a: BoundingBox, b: BoundingBox) -> bool {
    boxes_overlap(a, b)
}

/// The indices of the first `n` widgets whose boxes overlap `r`, in order.
pub open spec fn overlapping(widgets: Seq<Widget>, r: BoundingBox, n: int) -> Seq<usize>
    decreases n,
{
    if n <= 0 {
        Seq::empty()
    } else if boxes_overlap(r, widget_box(widgets[n - 1])) {
        overlapping(widgets, r, n - 1).push((n - 1) as usize)
    } else {
        overlapping(widgets, r, n - 1)
    }
}

/// The index of the first progress bar with `id` from index `i` on.
pub open spec fn progress_index(widgets: Seq<Widget>, id: u32, i: int) -> Option<int>
    decreases widgets.len() - i,
{
    if i < 0 || i >= widgets.len() {
        None
    } else if widgets[i] matches Widget::ProgressBar(p) && p.id == id {
        Some(i)
    } else {
        progress_index(widgets, id, i + 1)
    }
}

/// What a redraw of dirty rectangle `r` does: fill it with the background,
/// then draw the widgets that overlap it, in order.
pub struct RedrawStep {
    pub area: BoundingBox,
    pub widgets: Vec<usize>,
}

/// The screen.
pub struct Screen {
    pub widgets: heapless::Vec<Widget, 8>,
    pub theme: GrayTheme,
    pub width: u32,
    pub height: u32,
    pub dirty_rects: heapless::Vec<BoundingBox, 8>,
}

impl Screen {
    /// The widgets, in order.
    pub open spec fn items(&self) -> Seq<Widget> {
        widget_items(self.widgets)
    }

    /// The dirty rectangles, in order.
    pub open spec fn dirty(&self) -> Seq<BoundingBox> {
        rect_items(self.dirty_rects)
    }

    /// An empty screen of `width` by `height`.
    pub fn new(width: u32, height: u32) -> (s: Self)
        ensures
            s.items() == Seq::<Widget>::empty(),
            s.dirty() == Seq::<BoundingBox>::empty(),
            s.theme == spec_theme(),
            s.width == width,
            s.height == height,
    {
        Screen {
            widgets: new_widget_list(),
            theme: GrayTheme::new(),
            width,
            height,
            dirty_rects: new_rect_list(),
        }
    }

    /// The screen in `theme`.
    pub fn with_theme(self, theme: GrayTheme) -> (s: Self)
        ensures
            s.items() == self.items(),
            s.dirty() == self.dirty(),
            s.theme == theme,
            s.width == self.width,
            s.height == self.height,
    {
        Screen { theme, ..self }
    }

    /// Adds `w` when a slot is free; `Err` when all eight are taken.
    fn add_widget(&mut self, w: Widget) -> (r: Result<(), ()>)
        ensures
            old(self).items().len() < 8 ==> r is Ok && final(self).items() == old(self).items().push(w),
            old(self).items().len() >= 8 ==> r is Err && final(self).items() == old(self).items(),
            final(self).dirty() == old(self).dirty(),
            final(self).theme == old(self).theme,
            final(self).width == old(self).width,
            final(self).height == old(self).height,
    {
        match push_widget(&mut self.widgets, w) {
            Ok(()) => Ok(()),
            Err(_) => Err(()),
        }
    }

    /// Adds a button; `Err` when all eight slots are taken.
    pub fn add_button(&mut self, btn: Button) -> (r: Result<(), ()>)
        ensures
            old(self).items().len() < 8 ==> r is Ok && final(self).items() == old(self).items().push(
                Widget::Button(btn),
            ),
            old(self).items().len() >= 8 ==> r is Err && final(self).items() == old(self).items(),
            final(self).dirty() == old(self).dirty(),
            final(self).theme == old(self).theme,
            final(self).width == old(self).width,
            final(self).height == old(self).height,
    {
        self.add_widget(Widget::Button(btn))
    }

    /// Adds a label; `Err` when all eight slots are taken.
    pub fn add_label(&mut self, label: Label) -> (r: Result<(), ()>)
        ensures
            old(self).items().len() < 8 ==> r is Ok && final(self).items() == old(self).items().push(
                Widget::Label(label),
            ),
            old(self).items().len() >= 8 ==> r is Err && final(self).items() == old(self).items(),
            final(self).dirty() == old(self).dirty(),
            final(self).theme == old(self).theme,
            final(self).width == old(self).width,
            final(self).height == old(self).height,
    {
        self.add_widget(Widget::Label(label))
    }

    /// Adds a progress bar; `Err` when all eight slots are taken.
    pub fn add_progress(&mut self, progress: ProgressBar) -> (r: Result<(), ()>)
        ensures
            old(self).items().len() < 8 ==> r is Ok && final(self).items() == old(self).items().push(
                Widget::ProgressBar(progress),
            ),
            old(self).items().len() >= 8 ==> r is Err && final(self).items() == old(self).items(),
            final(self).dirty() == old(self).dirty(),
            final(self).theme == old(self).theme,
            final(self).width == old(self).width,
            final(self).height == old(self).height,
    {
        self.add_widget(Widget::ProgressBar(progress))
    }

    /// Adds a temperature or humidity card; `Err` when all eight slots are
    /// taken.
    pub fn add_temp_humd_card(&mut self, card: TempHumidCard) -> (r: Result<(), ()>)
        ensures
            old(self).items().len() < 8 ==> r is Ok && final(self).items() == old(self).items().push(
                Widget::TempHumidCard(card),
            ),
            old(self).items().len() >= 8 ==> r is Err && final(self).items() == old(self).items(),
            final(self).dirty() == old(self).dirty(),
            final(self).theme == old(self).theme,
            final(self).width == old(self).width,
            final(self).height == old(self).height,
    {
        self.add_widget(Widget::TempHumidCard(card))
    }

    /// Adds a pressure card; `Err` when all eight slots are taken.
    pub fn add_pressure_card(&mut self, card: PressureCard) -> (r: Result<(), ()>)
        ensures
            old(self).items().len() < 8 ==> r is Ok && final(self).items() == old(self).items().push(
                Widget::PressureCard(card),
            ),
            old(self).items().len() >= 8 ==> r is Err && final(self).items() == old(self).items(),
            final(self).dirty() == old(self).dirty(),
            final(self).theme == old(self).theme,
            final(self).width == old(self).width,
            final(self).height == old(self).height,
    {
        self.add_widget(Widget::PressureCard(card))
    }

    /// Adds a history bar; `Err` when all eight slots are taken.
    pub fn add_history_bar(&mut self, bar: HistoryBar) -> (r: Result<(), ()>)
        ensures
            old(self).items().len() < 8 ==> r is Ok && final(self).items() == old(self).items().push(
                Widget::HistoryBar(bar),
            ),
            old(self).items().len() >= 8 ==> r is Err && final(self).items() == old(self).items(),
            final(self).dirty() == old(self).dirty(),
            final(self).theme == old(self).theme,
            final(self).width == old(self).width,
            final(self).height == old(self).height,
    {
        self.add_widget(Widget::HistoryBar(bar))
    }

    /// Removes all widgets.
    pub fn clear_widgets(&mut self)
        ensures
            final(self).items() == Seq::<Widget>::empty(),
            final(self).dirty() == old(self).dirty(),
            final(self).theme == old(self).theme,
            final(self).width == old(self).width,
            final(self).height == old(self).height,
    {
        clear_widget_list(&mut self.widgets);
    }

    /// The widgets, to draw them.
    pub fn widget(&self, i: usize) -> (w: &Widget)
        requires
            i < self.items().len(),
        ensures
            *w == self.items()[i as int],
    {
        widget_at(&self.widgets, i)
    }

    /// How many widgets the screen holds.
    pub fn widget_count(&self) -> (n: usize)
        ensures
            n == self.items().len(),
            n <= 8,
    {
        widget_count(&self.widgets)
    }

    /// The first progress bar with `id`, to change in place.
    pub fn get_progress_bar(&mut self, id: u32) -> (r: Option<&mut ProgressBar>)
        ensures
            match progress_index(old(self).items(), id, 0) {
                None => r is None && final(self).items() == old(self).items(),
                Some(i) => r matches Some(p) && old(self).items()[i] == Widget::ProgressBar(*p)
                    && final(self).items() == old(self).items().update(i, Widget::ProgressBar(*final(p))),
            },
            final(self).dirty() == old(self).dirty(),
            final(self).theme == old(self).theme,
            final(self).width == old(self).width,
            final(self).height == old(self).height,
    {
        let n = widget_count(&self.widgets);
        let mut i: usize = 0;
        while i < n
            invariant
                n == self.items().len(),
                self.items() == old(self).items(),
                self.dirty() == old(self).dirty(),
                self.theme == old(self).theme,
                self.width == old(self).width,
                self.height == old(self).height,
                i <= n,
                progress_index(self.items(), id, 0) == progress_index(self.items(), id, i as int),
            decreases n - i,
        {
            let found = match widget_at(&self.widgets, i) {
                Widget::ProgressBar(pb) => pb.id == id,
                _ => false,
            };
            if found {
                let w = widget_at_mut(&mut self.widgets, i);
                return match w {
                    Widget::ProgressBar(pb) => Some(pb),
                    _ => None,
                };
            }
            i = i + 1;
        }
        None
    }

    /// Marks the whole screen dirty: the one dirty rectangle is the screen.
    pub fn mark_full_dirty(&mut self)
        ensures
            final(self).dirty() == seq![
                BoundingBox { x: 0, y: 0, width: old(self).width, height: old(self).height },
            ],
            final(self).items() == old(self).items(),
            final(self).theme == old(self).theme,
            final(self).width == old(self).width,
            final(self).height == old(self).height,
    {
        clear_rect_list(&mut self.dirty_rects);
        let _ = push_rect(&mut self.dirty_rects, BoundingBox::new(0, 0, self.width, self.height));
    }

    /// Marks `rect` dirty, unless eight rectangles already are.
    pub fn add_dirty_rect(&mut self, rect: BoundingBox)
        ensures
            final(self).dirty() == if old(self).dirty().len() < 8 {
                old(self).dirty().push(rect)
            } else {
                old(self).dirty()
            },
            final(self).items() == old(self).items(),
            final(self).theme == old(self).theme,
            final(self).width == old(self).width,
            final(self).height == old(self).height,
    {
        if rect_count(&self.dirty_rects) < 8 {
            let _ = push_rect(&mut self.dirty_rects, rect);
        }
    }

    /// Forgets the dirty rectangles.
    pub fn clear_dirty(&mut self)
        ensures
            final(self).dirty() == Seq::<BoundingBox>::empty(),
            final(self).items() == old(self).items(),
            final(self).theme == old(self).theme,
            final(self).width == old(self).width,
            final(self).height == old(self).height,
    {
        clear_rect_list(&mut self.dirty_rects);
    }

    /// Whether `a` and `b` overlap.
    pub fn rects_intersect(a: &BoundingBox, b: &BoundingBox) -> (r: bool)
        requires
            a.edges_fit(),
            b.edges_fit(),
        ensures
            r == boxes_overlap(*a, *b),
    {
        a.x < b.x + b.width as i32 && a.x + a.width as i32 > b.x && a.y < b.y + b.height as i32 && a.y
            + a.height as i32 > b.y
    }

    /// Whether the boxes of the widgets and the dirty rectangles can be
    /// computed and compared.
    pub open spec fn boxes_fit(&self) -> bool {
        &&& forall|i: int|
            0 <= i < self.items().len() ==> widget_box_ok(#[trigger] self.items()[i]) && widget_box(
                self.items()[i],
            ).edges_fit()
        &&& forall|i: int| 0 <= i < self.dirty().len() ==> (#[trigger] self.dirty()[i]).edges_fit()
    }

    /// What redrawing the dirty rectangles does: for each of them, in
    /// order, its area filled with the background and the widgets that
    /// overlap it drawn in order.
    pub fn dirty_plan(&self) -> (plan: Vec<RedrawStep>)
        requires
            self.boxes_fit(),
        ensures
            plan@.len() == self.dirty().len(),
            forall|r: int|
                0 <= r < plan@.len() ==> (#[trigger] plan@[r]).area == self.dirty()[r] && plan@[r].widgets@
                    == overlapping(self.items(), self.dirty()[r], self.items().len() as int),
    {
        let nr = rect_count(&self.dirty_rects);
        let nw = widget_count(&self.widgets);
        let mut plan: Vec<RedrawStep> = Vec::new();
        let mut r: usize = 0;
        while r < nr
            invariant
                self.boxes_fit(),
                nr == self.dirty().len(),
                nw == self.items().len(),
                r <= nr,
                plan@.len() == r,
                forall|k: int|
                    0 <= k < r ==> (#[trigger] plan@[k]).area == self.dirty()[k] && plan@[k].widgets@
                        == overlapping(self.items(), self.dirty()[k], nw as int),
            decreases nr - r,
        {
            let area = rect_at(&self.dirty_rects, r);
            let mut hits: Vec<usize> = Vec::new();
            let mut i: usize = 0;
            while i < nw
                invariant
                    self.boxes_fit(),
                    nr == self.dirty().len(),
                    nw == self.items().len(),
                    r < nr,
                    area == self.dirty()[r as int],
                    i <= nw,
                    hits@ == overlapping(self.items(), area, i as int),
                decreases nw - i,
            {
                let w = widget_at(&self.widgets, i);
                assert(widget_box_ok(self.items()[i as int]));
                let b = w.bounding_box();
                if Self::rects_intersect(&area, &b) {
                    hits.push(i);
                }
                i = i + 1;
            }
            plan.push(RedrawStep { area, widgets: hits });
            r = r + 1;
        }
        plan
    }
}

/// A redraw of a dirty rectangle lists exactly the widgets that overlap
/// it, each once, in order.
pub proof fn law_redraw_lists_overlapping(widgets: Seq<Widget>, r: BoundingBox, n: int, i: int)
    requires
        0 <= i < n <= widgets.len(),
        n <= usize::MAX,
    ensures
        overlapping(widgets, r, n).contains(i as usize) <==> boxes_overlap(r, widget_box(widgets[i])),
        forall|k: int|
            0 <= k < overlapping(widgets, r, n).len() ==> (#[trigger] overlapping(widgets, r, n)[k]) < n,
    decreases n,
{
    lemma_overlapping_below(widgets, r, n);
    if i < n - 1 {
        law_redraw_lists_overlapping(widgets, r, n - 1, i);
        lemma_overlapping_below(widgets, r, n - 1);
        if boxes_overlap(r, widget_box(widgets[n - 1])) {
            let p = overlapping(widgets, r, n - 1);
            if p.contains(i as usize) {
                let k = choose|k: int| 0 <= k < p.len() && #[trigger] p[k] == i as usize;
                assert(p.push((n - 1) as usize)[k] == i as usize);
            }
            if p.push((n - 1) as usize).contains(i as usize) {
                let q = p.push((n - 1) as usize);
                let k = choose|k: int| 0 <= k < q.len() && #[trigger] q[k] == i as usize;
                if k < p.len() {
                    assert(p[k] == i as usize);
                }
            }
        }
    } else {
        let p = overlapping(widgets, r, n - 1);
        lemma_overlapping_below(widgets, r, n - 1);
        if boxes_overlap(r, widget_box(widgets[n - 1])) {
            assert(p.push((n - 1) as usize)[p.len() as int] == (n - 1) as usize);
        } else {
            if p.contains(i as usize) {
                let k = choose|k: int| 0 <= k < p.len() && #[trigger] p[k] == i as usize;
                assert(p[k] < n - 1);
            }
        }
    }
}

proof fn lemma_overlapping_below(widgets: Seq<Widget>, r: BoundingBox, n: int)
    requires
        n <= usize::MAX,
    ensures
        forall|k: int|
            0 <= k < overlapping(widgets, r, n).len() ==> (#[trigger] overlapping(widgets, r, n)[k]) < n,
        forall|k: int|
            0 <= k < overlapping(widgets, r, n).len() ==> 0 <= (#[trigger] overlapping(widgets, r, n)[k]),
    decreases n,
{
    if n > 0 {
        lemma_overlapping_below(widgets, r, n - 1);
        let p = overlapping(widgets, r, n - 1);
        let q = overlapping(widgets, r, n);
        assert forall|k: int| 0 <= k < q.len() implies (#[trigger] q[k]) < n by {
            if k < p.len() {
                assert(q[k] == p[k]);
            }
        }
    }
}

} // verus!
