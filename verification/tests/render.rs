use keymap::styling::{Color, Style};
use keymap::widget::geometry::Rect;
use keymap::widget::keyboard::{
    AnsiKeyboardTklLayout, KeyCap, KeyCapWidget, KeyboardLayout, KeyboardWidget,
};
use keymap::widget::keycode::KeyCode;
use keymap::widget::render::render_border;
use ratatui::buffer::Buffer;

fn screen(width: u16, height: u16) -> Buffer {
    Buffer::empty(ratatui::layout::Rect::new(0, 0, width, height))
}

fn row(buf: &Buffer, y: u16) -> String {
    (buf.area.x..buf.area.x + buf.area.width).map(|x| buf[(x, y)].symbol()).collect()
}

fn cap(key_code: KeyCode, x: u16, y: u16, width: u16) -> KeyCap {
    KeyCap::new(key_code, Rect { x, y, width, height: 3 })
}

#[test]
fn one_key_cap() {
    let mut buf = screen(8, 3);
    let widget = KeyCapWidget::new(cap(KeyCode::Char('a'), 0, 0, 6), Style::default(), Style::default());
    assert!(widget.render_key_cap(&mut buf));
    assert_eq!(row(&buf, 0), "┌────┐  ");
    assert_eq!(row(&buf, 1), "│ a  │  ");
    assert_eq!(row(&buf, 2), "└────┘  ");
}

#[test]
fn neighbouring_key_caps_share_a_joined_border() {
    let mut buf = screen(11, 3);
    let style = Style::default();
    assert!(KeyCapWidget::new(cap(KeyCode::Char('a'), 0, 0, 6), style, style).render_key_cap(&mut buf));
    assert!(KeyCapWidget::new(cap(KeyCode::Char('s'), 5, 0, 6), style, style).render_key_cap(&mut buf));
    assert_eq!(row(&buf, 0), "┌────╥────┐");
    assert_eq!(row(&buf, 1), "│ a  ║ s  │");
    assert_eq!(row(&buf, 2), "└────╨────┘");
}

#[test]
fn long_labels_start_at_the_left() {
    let mut buf = screen(6, 3);
    let style = Style::default();
    assert!(KeyCapWidget::new(cap(KeyCode::Esc, 0, 0, 6), style, style).render_key_cap(&mut buf));
    assert_eq!(row(&buf, 1), "│ESC │");
}

#[test]
fn border_takes_the_border_style() {
    let mut buf = screen(6, 3);
    let border = Style::default().fg(Color::Red);
    render_border(cap(KeyCode::Tab, 0, 0, 6), border, &mut buf);
    assert_eq!(buf[(0, 0)].fg, ratatui::style::Color::Red);
    assert_eq!(buf[(3, 2)].fg, ratatui::style::Color::Red);
    assert_eq!(buf[(3, 1)].fg, ratatui::style::Color::Reset);
    assert_eq!(row(&buf, 1), "│    │");
}

#[test]
fn cap_style_fills_the_label_area() {
    let mut buf = screen(6, 3);
    let cap_style = Style::default().fg(Color::White).bg(Color::Blue);
    let widget = KeyCapWidget::new(cap(KeyCode::Char('q'), 0, 0, 6), cap_style, Style::default());
    assert!(widget.render_key_cap(&mut buf));
    assert_eq!(buf[(1, 1)].bg, ratatui::style::Color::Blue);
    assert_eq!(buf[(2, 1)].fg, ratatui::style::Color::White);
    assert_eq!(buf[(0, 1)].bg, ratatui::style::Color::Reset);
}

#[test]
fn a_key_cap_outside_the_buffer_is_not_drawn() {
    let mut buf = screen(5, 3);
    let widget = KeyCapWidget::new(cap(KeyCode::Char('a'), 0, 0, 6), Style::default(), Style::default());
    assert!(!widget.fits(&buf));
    assert!(!widget.render_key_cap(&mut buf));
    assert_eq!(buf, screen(5, 3));
}

#[test]
fn a_side_cell_without_symbol_stops_the_drawing() {
    let mut buf = screen(6, 3);
    buf[(5, 1)].set_symbol("");
    let before = buf.clone();
    let widget = KeyCapWidget::new(cap(KeyCode::Char('a'), 0, 0, 6), Style::default(), Style::default());
    assert!(!widget.render_key_cap(&mut buf));
    assert_eq!(buf, before);
    buf[(2, 0)].set_symbol("");
    buf[(5, 1)].set_symbol("x");
    assert!(widget.render_key_cap(&mut buf));
    assert_eq!(row(&buf, 0), "┌───┐");
    assert_eq!(buf[(2, 0)].symbol(), "");
    assert_eq!(row(&buf, 1), "│ a  |");
}

#[test]
fn whole_ansi_keyboard() {
    let keys = AnsiKeyboardTklLayout.layout();
    let keyboard = KeyboardWidget::new(keys);
    let mut buf = screen(95, 14);
    assert_eq!(keyboard.render_keys(&mut buf), Ok(()));
    assert_eq!(
        row(&buf, 0),
        "┌────┐    ┌────╥────╥────╥────┐ ┌────╥────╥────╥────┐ ┌────╥────╥────╥────┐    ┌────╥────╥────┐"
    );
    assert_eq!(row(&buf, 1).chars().take(16).collect::<String>(), "│ESC │    │F1  ║");
    assert_eq!(row(&buf, 4).chars().take(18).collect::<String>(), "│ `  ║ 1  ║ 2  ║ 3");
}

#[test]
fn keyboard_stops_at_the_first_key_that_does_not_fit() {
    let keys = AnsiKeyboardTklLayout.layout();
    let keyboard = KeyboardWidget::new(keys);
    let mut buf = screen(40, 14);
    assert_eq!(keyboard.render_keys(&mut buf), Err(6));
    assert_eq!(row(&buf, 0).chars().take(5).collect::<String>(), "┌────");
}

#[test]
fn a_key_cap_of_no_width_draws_its_sides_the_wrong_way_round() {
    let mut buf = screen(6, 3);
    let widget = KeyCapWidget::new(cap(KeyCode::Char('a'), 3, 0, 0), Style::default(), Style::default());
    assert!(widget.render_key_cap(&mut buf));
    assert_eq!(row(&buf, 0), "  ┐┌  ");
    assert_eq!(row(&buf, 1), "  ││  ");
    assert_eq!(row(&buf, 2), "  ┘└  ");

    let mut buf = screen(6, 3);
    let widget = KeyCapWidget::new(cap(KeyCode::Char('a'), 0, 0, 0), Style::default(), Style::default());
    assert!(!widget.render_key_cap(&mut buf));
}

#[test]
fn a_label_area_past_the_buffer_is_clipped() {
    let mut buf = screen(4, 3);
    let wide = KeyCapWidget::new(cap(KeyCode::Esc, 0, 0, 8), Style::default(), Style::default());
    assert!(!wide.fits(&buf));
    wide.render_keypad(&mut buf);
    assert_eq!(row(&buf, 1), " ESC");
}

#[test]
fn a_label_leaves_the_cells_around_it_alone() {
    let mut buf = screen(8, 3);
    buf[(0, 1)].set_symbol("x");
    buf[(5, 1)].set_symbol("y");
    let widget = KeyCapWidget::new(cap(KeyCode::Char('a'), 0, 0, 6), Style::default(), Style::default());
    widget.render_keypad(&mut buf);
    assert_eq!(row(&buf, 0), "        ");
    assert_eq!(row(&buf, 1), "x a  y  ");
    assert_eq!(row(&buf, 2), "        ");
}
