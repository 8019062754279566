use rfid_stm32h750::display::{
    address_window, init_sequence, DisplayOrientation, FlushPlan, FrameBuffer, LcdOp,
};
use rfid_stm32h750::ui::screen::Screen;
use rfid_stm32h750::ui::{
    BoundingBox, Button, Color, GrayTheme, HistoryBar, Label, PixelIcon, PressureCard, ProgressBar,
    Shape, TempHumidCard, Widget,
};

fn pixel(fb: &FrameBuffer, x: usize, y: usize) -> u16 {
    let plan = FlushPlan::rect(fb, x as u16, y as u16, 1, 1);
    let mut plan = plan.unwrap();
    let bytes = plan.next_chunk(fb).unwrap();
    assert!(plan.next_chunk(fb).is_none());
    u16::from_be_bytes([bytes[0], bytes[1]])
}

#[test]
fn orientation_dimensions() {
    assert_eq!(DisplayOrientation::default(), DisplayOrientation::Landscape);
    assert_eq!((DisplayOrientation::Portrait.width(), DisplayOrientation::Portrait.height()), (240, 320));
    assert_eq!((DisplayOrientation::Landscape.width(), DisplayOrientation::Landscape.height()), (320, 240));
    assert_eq!(DisplayOrientation::Portrait.madctl_value(), 0x48);
    assert_eq!(DisplayOrientation::Landscape.madctl_value(), 0x28);
}

#[test]
fn set_orientation_sends_only_changes() {
    let mut fb = FrameBuffer::new();
    assert_eq!(fb.orientation(), DisplayOrientation::Landscape);
    assert_eq!(fb.set_orientation(DisplayOrientation::Landscape), None);
    assert_eq!(fb.set_orientation(DisplayOrientation::Portrait), Some(0x48));
    assert_eq!(fb.set_orientation(DisplayOrientation::Portrait), None);
    assert_eq!((fb.width(), fb.height()), (240, 320));
}

#[test]
fn draw_pixel_clips_to_screen() {
    let mut fb = FrameBuffer::new();
    fb.draw_pixel(319, 239, 0xF800);
    fb.draw_pixel(320, 0, 0x07E0);
    fb.draw_pixel(-1, 5, 0x07E0);
    fb.draw_pixel(0, 240, 0x07E0);
    assert_eq!(pixel(&fb, 319, 239), 0xF800);
    assert_eq!(pixel(&fb, 0, 0), 0);
    assert_eq!(pixel(&fb, 0, 5), 0);
}

#[test]
fn fill_solid_clips_to_screen() {
    let mut fb = FrameBuffer::new();
    fb.fill_solid(-5, -5, 10, 10, 0x1234);
    assert_eq!(pixel(&fb, 0, 0), 0x1234);
    assert_eq!(pixel(&fb, 4, 4), 0x1234);
    assert_eq!(pixel(&fb, 5, 4), 0);
    assert_eq!(pixel(&fb, 4, 5), 0);
    fb.fill_solid(315, 235, 100, 100, 0xABCD);
    assert_eq!(pixel(&fb, 319, 239), 0xABCD);
    assert_eq!(pixel(&fb, 314, 239), 0);
    fb.fill_solid(10, 10, 0, 5, 0xFFFF);
    assert_eq!(pixel(&fb, 10, 10), 0);
}

#[test]
fn clear_fills_everything() {
    let mut fb = FrameBuffer::with_orientation(DisplayOrientation::Portrait);
    fb.clear(0xFFFF);
    assert_eq!(pixel(&fb, 0, 0), 0xFFFF);
    assert_eq!(pixel(&fb, 239, 319), 0xFFFF);
}

#[test]
fn full_flush_sends_all_pixels_in_chunks() {
    let mut fb = FrameBuffer::new();
    fb.draw_pixel(0, 0, 0xA1B2);
    fb.draw_pixel(319, 239, 0xC3D4);
    let mut plan = FlushPlan::full(&fb);
    assert_eq!(plan.window(), (0, 0, 319, 239));
    let mut all = Vec::new();
    let mut sizes = Vec::new();
    while let Some(chunk) = plan.next_chunk(&fb) {
        sizes.push(chunk.len());
        all.extend(chunk);
    }
    assert_eq!(all.len(), 2 * 320 * 240);
    assert!(sizes.iter().all(|&s| s <= 8192));
    assert_eq!(sizes.len(), 19);
    assert_eq!(&all[..2], &[0xA1, 0xB2]);
    assert_eq!(&all[all.len() - 2..], &[0xC3, 0xD4]);
}

#[test]
fn rect_flush_sends_rows() {
    let mut fb = FrameBuffer::new();
    fb.draw_pixel(10, 20, 0x0102);
    fb.draw_pixel(12, 21, 0x0304);
    let mut plan = FlushPlan::rect(&fb, 10, 20, 3, 2).unwrap();
    assert_eq!(plan.window(), (10, 20, 12, 21));
    let first = plan.next_chunk(&fb).unwrap();
    let second = plan.next_chunk(&fb).unwrap();
    assert!(plan.next_chunk(&fb).is_none());
    assert_eq!(first, vec![1, 2, 0, 0, 0, 0]);
    assert_eq!(second, vec![0, 0, 0, 0, 3, 4]);
    let plan = FlushPlan::rect(&fb, 315, 235, 100, 100).unwrap();
    assert_eq!(plan.window(), (315, 235, 319, 239));
    let plan = FlushPlan::rect(&fb, 5, 5, 0, 0).unwrap();
    assert_eq!(plan.window(), (5, 5, 5, 5));
    assert!(FlushPlan::rect(&fb, 320, 0, 1, 1).is_none());
    assert!(FlushPlan::rect(&fb, 0, 240, 1, 1).is_none());
}

#[test]
fn address_window_is_big_endian() {
    assert_eq!(address_window(0, 0, 319, 239), ([0, 0, 0x01, 0x3F], [0, 0, 0, 0xEF]));
    assert_eq!(address_window(0x1234, 1, 0xFFFF, 256), ([0x12, 0x34, 0xFF, 0xFF], [0, 1, 1, 0]));
}

#[test]
fn init_sequence_of_the_panel() {
    let ops = init_sequence(DisplayOrientation::Landscape);
    assert_eq!(ops.len(), 22);
    assert_eq!(ops[0], LcdOp::Release);
    assert_eq!(ops[1], LcdOp::Command(0x01));
    assert_eq!(ops[2], LcdOp::DelayMs(5));
    assert_eq!(ops[5], LcdOp::CommandData(0x3A, 0x55));
    assert_eq!(ops[6], LcdOp::CommandData(0x36, 0x28));
    assert_eq!(
        ops[17],
        LcdOp::DataBytes(vec![0x0F, 0x31, 0x2B, 0x0C, 0x0E, 0x08, 0x4E, 0xF1, 0x37, 0x07, 0x10, 0x03, 0x0E, 0x09, 0x00])
    );
    assert_eq!(ops[20], LcdOp::Command(0x29));
    assert_eq!(ops[21], LcdOp::DelayMs(1));
    let ops = init_sequence(DisplayOrientation::Portrait);
    assert_eq!(ops[6], LcdOp::CommandData(0x36, 0x48));
}

#[test]
fn bounding_box_contains_and_overlap() {
    let a = BoundingBox::new(10, 10, 20, 10);
    assert!(a.contains(10, 10));
    assert!(a.contains(29, 19));
    assert!(!a.contains(30, 19));
    assert!(!a.contains(29, 20));
    assert!(!a.contains(9, 15));
    let b = BoundingBox::new(29, 19, 5, 5);
    assert!(Screen::rects_intersect(&a, &b));
    let c = BoundingBox::new(30, 10, 5, 5);
    assert!(!Screen::rects_intersect(&a, &c));
}

#[test]
fn theme_roles() {
    let t = GrayTheme::new();
    assert_eq!(t.text(), Color { r: 2, g: 10, b: 24 });
    assert_eq!(t.background(), Color { r: 28, g: 62, b: 80 });
    assert_eq!(t.primary(), t.g4);
    assert_eq!(t.pressed(), t.g1);
    assert_eq!(t.disabled(), t.g5);
    assert_eq!(t.border(), t.g0);
}

#[test]
fn icon_squares_follow_bitmap() {
    let sq = PixelIcon::Home.squares(100, 50, 2, Color { r: 1, g: 2, b: 3 });
    let set: u32 = PixelIcon::Home.data().iter().map(|b| b.count_ones()).sum();
    assert_eq!(sq.len() as u32, set);
    assert_eq!(sq[0], Shape::Fill { x: 100 + 7 * 2, y: 50, w: 2, h: 2, color: Color { r: 1, g: 2, b: 3 } });
    assert_eq!(PixelIcon::Thermo.data()[0..2], [0x03, 0xC0]);
}

#[test]
fn label_box_and_text() {
    let l = Label::new(160, 80, "INIT OK").centered();
    assert_eq!(l.bounding_box(), BoundingBox::new(160 - 42, 80, 84, 20));
    let shapes = l.shapes();
    assert_eq!(shapes.len(), 1);
    match &shapes[0] {
        Shape::Text { x, y, text, .. } => {
            assert_eq!((*x, *y), (160 - 21, 80));
            assert_eq!(text, "INIT OK");
        }
        _ => panic!(),
    }
    let l = Label::new(3, 4, "ab");
    assert_eq!(l.bounding_box(), BoundingBox::new(3, 4, 24, 20));
}

#[test]
fn button_colours_by_state() {
    let mut b = Button::new(1, 10, 20, 60, 30, "OK");
    assert!(b.contains(10, 20));
    assert!(!b.contains(70, 20));
    let s = b.shapes();
    assert_eq!(s.len(), 6);
    let t = GrayTheme::new();
    assert_eq!(s[0], Shape::Fill { x: 10, y: 20, w: 60, h: 30, color: t.g4 });
    assert_eq!(s[1], Shape::Fill { x: 10, y: 20, w: 60, h: 1, color: t.g0 });
    assert_eq!(s[4], Shape::Fill { x: 69, y: 20, w: 1, h: 30, color: t.g0 });
    assert_eq!(s[5], Shape::Text { x: 10 + 30 - 6, y: 20 + 15 - 5, text: "OK".to_string(), color: t.g0 });
    b.pressed = true;
    let s = b.shapes();
    assert_eq!(s[0], Shape::Fill { x: 10, y: 20, w: 60, h: 30, color: t.g1 });
    assert_eq!(s[1], Shape::Fill { x: 10, y: 20, w: 60, h: 1, color: t.g2 });
    assert_eq!(s[2], Shape::Fill { x: 10, y: 49, w: 60, h: 1, color: t.g0 });
    b.enabled = false;
    assert_eq!(b.shapes()[0], Shape::Fill { x: 10, y: 20, w: 60, h: 30, color: t.g5 });
}

#[test]
fn progress_bar_value_and_fill() {
    let mut p = ProgressBar::new(3, 0, 0, 100, 10).with_range(-50, 50);
    p.set_value(80);
    assert_eq!(p.value, 50);
    p.set_value(-80);
    assert_eq!(p.value, -50);
    p.set_value(7);
    assert_eq!(p.value, 7);
    assert_eq!(p.dirty_rect(0), None);
    assert_eq!(p.dirty_rect(57), Some(BoundingBox::new(0, 0, 100, 10)));
    p.mark_drawn(57);
    assert_eq!(p.dirty_rect(57), None);
    let s = p.shapes(57);
    assert_eq!(s.len(), 6);
    assert_eq!(s[5], Shape::Fill { x: 1, y: 1, w: 55, h: 8, color: GrayTheme::new().g2 });
    assert_eq!(p.shapes(2).len(), 5);
    assert_eq!(p.shapes(100)[5], Shape::Fill { x: 1, y: 1, w: 98, h: 8, color: GrayTheme::new().g2 });
}

#[test]
fn temperature_card_layout() {
    let c = TempHumidCard::new(5, 20, true);
    let s = c.shapes("23.5C", "hi:25C", "lo:21C");
    assert_eq!(s.len(), 10);
    let ink = GrayTheme::new().g0;
    assert_eq!(s[5], Shape::Text { x: 5 + 72 - 30, y: 25, text: "THERMO".to_string(), color: ink });
    assert_eq!(s[6], Shape::Icon { icon: PixelIcon::Thermo, x: 5 + 72 - 8, y: 50, scale: 2, color: ink });
    assert_eq!(s[7], Shape::Text { x: 5 + 72 - 25, y: 80, text: "23.5C".to_string(), color: ink });
    assert_eq!(s[9], Shape::Text { x: 75, y: 110, text: "lo:21C".to_string(), color: ink });
    let h = TempHumidCard::new(110, 20, false);
    let s = h.shapes("40%", "hi:50%", "lo:30%");
    assert_eq!(s[5], Shape::Text { x: 110 + 72 - 25, y: 25, text: "HUMID".to_string(), color: ink });
    assert_eq!(h.bounding_box(), BoundingBox::new(110, 20, 145, 120));
}

#[test]
fn pressure_card_layout() {
    let c = PressureCard::new(215, 20);
    let s = c.shapes("1013hPa", "hi:1020", "lo:1000");
    let ink = GrayTheme::new().g0;
    assert_eq!(s.len(), 10);
    assert_eq!(s[5], Shape::Text { x: 215 + 50 - 25, y: 25, text: "PRESS".to_string(), color: ink });
    assert_eq!(s[6], Shape::Text { x: 215 + 50 - 5, y: 55, text: "P".to_string(), color: ink });
    assert_eq!(s[7], Shape::Text { x: 215 + 50 - 35, y: 100, text: "1013hPa".to_string(), color: ink });
    assert_eq!(s[9], Shape::Text { x: 225, y: 165, text: "lo:1000".to_string(), color: ink });
}

#[test]
fn history_bar_cells() {
    let mut h = HistoryBar::new(10, 100);
    h.update(9);
    assert_eq!(h.count, 6);
    h.update(2);
    assert_eq!(h.count, 2);
    let values = vec!["21".to_string(), "7".to_string()];
    let s = h.shapes(&values);
    assert_eq!(s.len(), 6 + 2 * 6);
    let t = GrayTheme::new();
    assert_eq!(s[6], Shape::Fill { x: 25, y: 125, w: 40, h: 30, color: t.g6 });
    assert_eq!(s[11], Shape::Text { x: 25 + 20 - 10, y: 130, text: "21".to_string(), color: t.g0 });
    assert_eq!(s[12], Shape::Fill { x: 70, y: 125, w: 40, h: 30, color: t.g6 });
    assert_eq!(s[17], Shape::Text { x: 70 + 20 - 5, y: 130, text: "7".to_string(), color: t.g0 });
}

#[test]
fn screen_holds_eight_widgets() {
    let mut s = Screen::new(320, 240).with_theme(GrayTheme::new());
    for i in 0..8 {
        assert_eq!(s.add_label(Label::new(i, 0, "x")), Ok(()));
    }
    assert_eq!(s.add_button(Button::new(1, 0, 0, 1, 1, "b")), Err(()));
    assert_eq!(s.widget_count(), 8);
    s.clear_widgets();
    assert_eq!(s.widget_count(), 0);
}

#[test]
fn screen_finds_progress_bar_by_id() {
    let mut s = Screen::new(320, 240);
    assert_eq!(s.add_progress(ProgressBar::new(1, 0, 0, 50, 5)), Ok(()));
    assert_eq!(s.add_progress(ProgressBar::new(2, 0, 10, 50, 5)), Ok(()));
    assert!(s.get_progress_bar(9).is_none());
    s.get_progress_bar(2).unwrap().set_value(40);
    match s.widget(1) {
        Widget::ProgressBar(p) => assert_eq!((p.id, p.value), (2, 40)),
        _ => panic!(),
    }
    match s.widget(0) {
        Widget::ProgressBar(p) => assert_eq!(p.value, 0),
        _ => panic!(),
    }
}

#[test]
fn screen_redraws_overlapping_widgets() {
    let mut s = Screen::new(320, 240);
    let _ = s.add_temp_humd_card(TempHumidCard::new(5, 20, true));
    let _ = s.add_temp_humd_card(TempHumidCard::new(110, 20, false));
    let _ = s.add_pressure_card(PressureCard::new(215, 20));
    let _ = s.add_history_bar(HistoryBar::new(10, 180));
    s.add_dirty_rect(BoundingBox::new(100, 30, 20, 20));
    s.add_dirty_rect(BoundingBox::new(0, 0, 4, 4));
    let plan = s.dirty_plan();
    assert_eq!(plan.len(), 2);
    assert_eq!(plan[0].area, BoundingBox::new(100, 30, 20, 20));
    assert_eq!(plan[0].widgets, vec![0, 1]);
    assert_eq!(plan[1].widgets, Vec::<usize>::new());
    s.mark_full_dirty();
    let plan = s.dirty_plan();
    assert_eq!(plan.len(), 1);
    assert_eq!(plan[0].area, BoundingBox::new(0, 0, 320, 240));
    assert_eq!(plan[0].widgets, vec![0, 1, 2, 3]);
    s.clear_dirty();
    assert_eq!(s.dirty_plan().len(), 0);
    for _ in 0..9 {
        s.add_dirty_rect(BoundingBox::new(0, 0, 1, 1));
    }
    assert_eq!(s.dirty_plan().len(), 8);
}
