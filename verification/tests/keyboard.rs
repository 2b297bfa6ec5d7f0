use std::collections::HashSet;

use keymap::styling::{Catppuccin, Color, Style};
use keymap::widget::geometry::{Alignment, Position, Rect};
use keymap::widget::keyboard::{
    AnsiKeyboardTklLayout, KeyCap, KeyCapLookup, KeyCapWidget, KeyboardLayout, KeyboardWidget,
};
use keymap::widget::keycode::{KeyCode, MediaKeyCode, ModifierKeyCode};

fn rect(x: u16, y: u16, width: u16, height: u16) -> Rect {
    Rect { x, y, width, height }
}

fn pos(x: u16, y: u16) -> Position {
    Position { x, y }
}

const MANTLE: Color = Color::Rgb(24, 24, 37);
const CRUST: Color = Color::Rgb(17, 17, 27);

#[test]
fn ansi_layout_holds_87_distinct_keys() {
    let layout = AnsiKeyboardTklLayout;
    let caps = layout.layout();
    assert_eq!(caps.len(), 87);
    let keys: HashSet<KeyCode> = caps.iter().map(|c| c.key_code).collect();
    assert_eq!(keys.len(), 87);
    assert_eq!(caps[0].key_code, KeyCode::Esc);
    assert_eq!(caps[12].key_code, KeyCode::F(12));
    assert_eq!(caps[26].key_code, KeyCode::Backspace);
    assert_eq!(caps[86].key_code, KeyCode::Right);
    for cap in &caps {
        assert_eq!(cap.area, layout.key_area(cap.key_code));
    }
}

#[test]
fn ansi_function_row_positions() {
    let layout = AnsiKeyboardTklLayout;
    assert_eq!(layout.key_position(KeyCode::Esc), pos(0, 0));
    assert_eq!(layout.key_position(KeyCode::F(1)), pos(10, 0));
    assert_eq!(layout.key_position(KeyCode::F(4)), pos(25, 0));
    assert_eq!(layout.key_position(KeyCode::F(5)), pos(32, 0));
    assert_eq!(layout.key_position(KeyCode::F(8)), pos(47, 0));
    assert_eq!(layout.key_position(KeyCode::F(9)), pos(54, 0));
    assert_eq!(layout.key_position(KeyCode::F(12)), pos(69, 0));
}

#[test]
fn ansi_main_block_positions() {
    let layout = AnsiKeyboardTklLayout;
    assert_eq!(layout.key_position(KeyCode::Char('`')), pos(0, 3));
    assert_eq!(layout.key_position(KeyCode::Char('1')), pos(5, 3));
    assert_eq!(layout.key_position(KeyCode::Char('=')), pos(60, 3));
    assert_eq!(layout.key_position(KeyCode::Backspace), pos(65, 3));
    assert_eq!(layout.key_position(KeyCode::Tab), pos(0, 5));
    assert_eq!(layout.key_position(KeyCode::Char('q')), pos(6, 5));
    assert_eq!(layout.key_position(KeyCode::Char('\\')), pos(66, 5));
    assert_eq!(layout.key_position(KeyCode::CapsLock), pos(0, 7));
    assert_eq!(layout.key_position(KeyCode::Char('a')), pos(7, 7));
    assert_eq!(layout.key_position(KeyCode::Char('\'')), pos(57, 7));
    assert_eq!(layout.key_position(KeyCode::Enter), pos(62, 7));
    assert_eq!(layout.key_position(KeyCode::Modifier(ModifierKeyCode::LeftShift)), pos(0, 9));
    assert_eq!(layout.key_position(KeyCode::Char('z')), pos(9, 9));
    assert_eq!(layout.key_position(KeyCode::Char('/')), pos(54, 9));
    assert_eq!(layout.key_position(KeyCode::Modifier(ModifierKeyCode::RightShift)), pos(59, 9));
    assert_eq!(layout.key_position(KeyCode::Modifier(ModifierKeyCode::LeftControl)), pos(0, 11));
    assert_eq!(layout.key_position(KeyCode::Modifier(ModifierKeyCode::LeftSuper)), pos(6, 11));
    assert_eq!(layout.key_position(KeyCode::Modifier(ModifierKeyCode::LeftMeta)), pos(6, 11));
    assert_eq!(layout.key_position(KeyCode::Modifier(ModifierKeyCode::LeftAlt)), pos(11, 11));
    assert_eq!(layout.key_position(KeyCode::Char(' ')), pos(18, 11));
    assert_eq!(layout.key_position(KeyCode::Modifier(ModifierKeyCode::RightAlt)), pos(48, 11));
    assert_eq!(layout.key_position(KeyCode::Menu), pos(55, 11));
    assert_eq!(layout.key_position(KeyCode::Modifier(ModifierKeyCode::RightSuper)), pos(60, 11));
    assert_eq!(layout.key_position(KeyCode::Modifier(ModifierKeyCode::RightControl)), pos(65, 11));
}

#[test]
fn ansi_navigation_positions() {
    let layout = AnsiKeyboardTklLayout;
    assert_eq!(layout.key_position(KeyCode::PrintScreen), pos(79, 0));
    assert_eq!(layout.key_position(KeyCode::ScrollLock), pos(84, 0));
    assert_eq!(layout.key_position(KeyCode::Pause), pos(89, 0));
    assert_eq!(layout.key_position(KeyCode::Insert), pos(79, 3));
    assert_eq!(layout.key_position(KeyCode::Home), pos(84, 3));
    assert_eq!(layout.key_position(KeyCode::PageUp), pos(89, 3));
    assert_eq!(layout.key_position(KeyCode::Delete), pos(79, 5));
    assert_eq!(layout.key_position(KeyCode::End), pos(84, 5));
    assert_eq!(layout.key_position(KeyCode::PageDown), pos(89, 5));
    assert_eq!(layout.key_position(KeyCode::Up), pos(84, 9));
    assert_eq!(layout.key_position(KeyCode::Left), pos(79, 11));
    assert_eq!(layout.key_position(KeyCode::Down), pos(84, 11));
    assert_eq!(layout.key_position(KeyCode::Right), pos(89, 11));
}

#[test]
fn ansi_keys_outside_the_layout_sit_at_the_origin() {
    let layout = AnsiKeyboardTklLayout;
    assert_eq!(layout.key_position(KeyCode::Char('é')), pos(0, 0));
    assert_eq!(layout.key_position(KeyCode::Null), pos(0, 0));
    assert_eq!(layout.key_position(KeyCode::BackTab), pos(0, 0));
    assert_eq!(layout.key_position(KeyCode::NumLock), pos(0, 0));
    assert_eq!(layout.key_position(KeyCode::KeypadBegin), pos(0, 0));
    assert_eq!(layout.key_position(KeyCode::Media(MediaKeyCode::Play)), pos(0, 0));
    assert_eq!(layout.key_position(KeyCode::Modifier(ModifierKeyCode::IsoLevel3Shift)), pos(0, 0));
    assert_eq!(layout.key_area(KeyCode::Null), rect(0, 0, 6, 3));
}

#[test]
fn ansi_key_areas() {
    let layout = AnsiKeyboardTklLayout;
    assert_eq!(layout.key_area(KeyCode::Char('a')), rect(7, 7, 6, 3));
    assert_eq!(layout.key_area(KeyCode::Char(' ')), rect(18, 11, 31, 3));
    assert_eq!(layout.key_area(KeyCode::Char('\\')), rect(66, 5, 9, 3));
    assert_eq!(layout.key_area(KeyCode::Tab), rect(0, 5, 7, 3));
    assert_eq!(layout.key_area(KeyCode::CapsLock), rect(0, 7, 8, 3));
    assert_eq!(layout.key_area(KeyCode::Backspace), rect(65, 3, 10, 3));
    assert_eq!(layout.key_area(KeyCode::Enter), rect(62, 7, 13, 3));
    assert_eq!(layout.key_area(KeyCode::Modifier(ModifierKeyCode::LeftShift)), rect(0, 9, 10, 3));
    assert_eq!(layout.key_area(KeyCode::Modifier(ModifierKeyCode::RightShift)), rect(59, 9, 16, 3));
    assert_eq!(layout.key_area(KeyCode::Modifier(ModifierKeyCode::LeftControl)), rect(0, 11, 7, 3));
    assert_eq!(layout.key_area(KeyCode::Modifier(ModifierKeyCode::RightControl)), rect(65, 11, 10, 3));
    assert_eq!(layout.key_area(KeyCode::Modifier(ModifierKeyCode::LeftAlt)), rect(11, 11, 8, 3));
    assert_eq!(layout.key_area(KeyCode::Modifier(ModifierKeyCode::RightHyper)), rect(60, 11, 6, 3));
    assert_eq!(layout.key_area(KeyCode::F(7)), rect(42, 0, 6, 3));
}

#[test]
fn ansi_main_rows_share_border_columns() {
    let caps = AnsiKeyboardTklLayout.layout();
    let row_starts = [13, 27, 41, 54, 66];
    let row_ends = [26, 40, 53, 65, 73];
    for i in 13..74 {
        if row_starts.contains(&i) {
            assert_eq!(caps[i].area.x, 0);
        } else {
            let before = caps[i - 1].area;
            assert_eq!(caps[i].area.x, before.x + before.width - 1);
            assert_eq!(caps[i].area.y, before.y);
        }
        if row_ends.contains(&i) {
            assert_eq!(caps[i].area.x + caps[i].area.width - 1, 74);
        }
    }
}

#[test]
fn key_cap_of_a_character() {
    let layout = AnsiKeyboardTklLayout;
    assert_eq!(layout.key_cap('a'), KeyCap::new(KeyCode::Char('a'), rect(7, 7, 6, 3)));
    assert_eq!(layout.key_cap('m'), KeyCap::new(KeyCode::Char('m'), rect(39, 9, 6, 3)));
    let cap = KeyCap::new(KeyCode::Tab, rect(1, 2, 3, 4));
    assert_eq!(cap.key_code, KeyCode::Tab);
    assert_eq!(cap.area, rect(1, 2, 3, 4));
}

#[test]
fn key_cap_lookup_finds_each_key_of_the_layout() {
    let layout = AnsiKeyboardTklLayout;
    let lookup = layout.key_cap_lookup();
    for cap in layout.layout() {
        assert_eq!(lookup.get(cap.key_code), Some(&cap));
    }
    assert_eq!(lookup.get(KeyCode::Char('q')).map(|c| c.area), Some(rect(6, 5, 6, 3)));
    assert_eq!(lookup.get(KeyCode::Null), None);
    assert_eq!(lookup.get(KeyCode::F(13)), None);
}

#[test]
fn key_cap_lookup_keeps_the_last_insert() {
    let mut lookup = KeyCapLookup::new();
    assert_eq!(lookup.get(KeyCode::Esc), None);
    lookup.insert(KeyCap::new(KeyCode::Esc, rect(0, 0, 6, 3)));
    lookup.insert(KeyCap::new(KeyCode::Tab, rect(0, 5, 7, 3)));
    lookup.insert(KeyCap::new(KeyCode::Esc, rect(1, 1, 6, 3)));
    assert_eq!(lookup.get(KeyCode::Esc), Some(&KeyCap::new(KeyCode::Esc, rect(1, 1, 6, 3))));
    assert_eq!(lookup.get(KeyCode::Tab), Some(&KeyCap::new(KeyCode::Tab, rect(0, 5, 7, 3))));
    assert_eq!(lookup.get(KeyCode::Enter), None);
}

#[test]
fn key_cap_widget_accents() {
    let style = Style::default().fg(Color::White).bg(Color::Black);
    let border = Style::default().fg(Color::Red);
    let accent = style.bg(MANTLE);
    let cases = [
        (KeyCode::Esc, true),
        (KeyCode::Tab, true),
        (KeyCode::CapsLock, true),
        (KeyCode::Modifier(ModifierKeyCode::LeftShift), true),
        (KeyCode::Menu, true),
        (KeyCode::Char(' '), true),
        (KeyCode::Enter, true),
        (KeyCode::Backspace, true),
        (KeyCode::F(4), false),
        (KeyCode::F(5), true),
        (KeyCode::F(8), true),
        (KeyCode::F(9), false),
        (KeyCode::Left, true),
        (KeyCode::Pause, true),
        (KeyCode::Home, true),
        (KeyCode::Char('a'), false),
        (KeyCode::BackTab, false),
        (KeyCode::Null, false),
        (KeyCode::NumLock, false),
    ];
    for (key_code, accented) in cases {
        let cap = KeyCap::new(key_code, rect(0, 0, 6, 3));
        let widget = KeyCapWidget::new(cap, style, border);
        assert_eq!(widget.key_cap, cap);
        assert_eq!(widget.border_style, border);
        assert_eq!(widget.cap_style, if accented { accent } else { style }, "{:?}", key_code);
    }
}

#[test]
fn key_cap_widget_keypads() {
    let style = Style::default();
    let keypad = |key_code: KeyCode| {
        KeyCapWidget::new(KeyCap::new(key_code, rect(7, 7, 6, 3)), style, style).keypad()
    };
    let pad = keypad(KeyCode::Char('a'));
    assert_eq!(pad.label, "a");
    assert_eq!(pad.alignment, Alignment::Center);
    assert_eq!(pad.style, style);
    assert_eq!(pad.area, rect(8, 8, 4, 1));

    let pad = keypad(KeyCode::F(12));
    assert_eq!(pad.label, "F12");
    assert_eq!(pad.alignment, Alignment::Left);

    let pad = keypad(KeyCode::Char(' '));
    assert_eq!(pad.label, "␣");
    assert_eq!(pad.alignment, Alignment::Center);

    let pad = keypad(KeyCode::Esc);
    assert_eq!(pad.label, "ESC");
    assert_eq!(pad.style, style.bg(MANTLE));

    let pad = keypad(KeyCode::Modifier(ModifierKeyCode::LeftSuper));
    assert_eq!(pad.label, "⌘L");
    assert_eq!(pad.alignment, Alignment::Left);

    let pad = keypad(KeyCode::Media(MediaKeyCode::PlayPause));
    assert_eq!(pad.label, "Media(PlayPause)");
}

#[test]
fn keyboard_widget_styles() {
    let keys = AnsiKeyboardTklLayout.layout();
    let widget = KeyboardWidget::new(keys.clone());
    let widgets = widget.key_cap_widgets();
    assert_eq!(widgets.len(), 87);
    let cap_style = Style::default().fg(MANTLE).bg(CRUST);
    let border_style = Style::default().fg(MANTLE);
    for (w, key) in widgets.iter().zip(keys.iter()) {
        assert_eq!(*w, KeyCapWidget::new(*key, cap_style, border_style));
    }
    assert_eq!(widgets[13].cap_style, cap_style);
    assert_eq!(widgets[0].cap_style, cap_style.bg(MANTLE));

    let own = Style::default().fg(Color::Green);
    let widget = KeyboardWidget::new_with_style(vec![KeyCap::new(KeyCode::Char('x'), rect(0, 0, 6, 3))], own, own);
    let widgets = widget.key_cap_widgets();
    assert_eq!(widgets.len(), 1);
    assert_eq!(widgets[0].cap_style, own);
    assert_eq!(widgets[0].border_style, own);
}

#[test]
fn styles_and_palette() {
    let plain = Style::default();
    assert_eq!(plain.fg, None);
    assert_eq!(plain.bg, None);
    assert_eq!(plain.underline_color, None);
    assert_eq!(plain.add_modifier, 0);
    assert_eq!(plain.sub_modifier, 0);
    let s = plain.fg(Color::Red).bg(Color::Blue).fg(Color::Green);
    assert_eq!(s.fg, Some(Color::Green));
    assert_eq!(s.bg, Some(Color::Blue));
    let palette = Catppuccin::new();
    assert_eq!(palette.mantle, MANTLE);
    assert_eq!(palette.crust, CRUST);
}

#[test]
fn rect_inner_margins() {
    assert_eq!(rect(7, 7, 6, 3).inner(1, 1), rect(8, 8, 4, 1));
    assert_eq!(rect(0, 0, 2, 2).inner(1, 1), rect(1, 1, 0, 0));
    assert_eq!(rect(3, 3, 1, 3).inner(1, 1), rect(0, 0, 0, 0));
    assert_eq!(rect(65535, 5, 4, 4).inner(1, 1), rect(65535, 6, 2, 2));
    assert_eq!(rect(0, 0, 10, 10).inner(40000, 0), rect(0, 0, 0, 0));
    assert_eq!(Rect::from_parts(pos(4, 5), keymap::widget::geometry::Size::new(6, 3)), rect(4, 5, 6, 3));
}

#[test]
fn key_caps_and_rectangles_from_their_parts() {
    let cap: KeyCap = (KeyCode::Tab, rect(0, 5, 7, 3)).into();
    assert_eq!(cap, KeyCap::new(KeyCode::Tab, rect(0, 5, 7, 3)));
    let area = Rect::from((pos(4, 5), keymap::widget::geometry::Size::new(6, 3)));
    assert_eq!(area, rect(4, 5, 6, 3));
}

#[test]
fn key_cap_lookup_counts_and_lists_its_keys() {
    let layout = AnsiKeyboardTklLayout;
    let lookup = layout.key_cap_lookup();
    assert_eq!(lookup.len(), 87);
    let caps = lookup.key_caps();
    assert_eq!(caps, layout.layout());

    let mut lookup = KeyCapLookup::new();
    assert_eq!(lookup.len(), 0);
    lookup.insert(KeyCap::new(KeyCode::Esc, rect(0, 0, 6, 3)));
    lookup.insert(KeyCap::new(KeyCode::Tab, rect(0, 5, 7, 3)));
    lookup.insert(KeyCap::new(KeyCode::Esc, rect(1, 1, 6, 3)));
    assert_eq!(lookup.len(), 2);
    assert_eq!(
        lookup.key_caps(),
        vec![KeyCap::new(KeyCode::Esc, rect(1, 1, 6, 3)), KeyCap::new(KeyCode::Tab, rect(0, 5, 7, 3))]
    );
}
