use keymap::widget::border::{border_glyph, border_strokes, join_border, BorderStroke};
use keymap::widget::geometry::{Alignment, Position, Rect};
use keymap::widget::keycode::{KeyCode, MediaKeyCode, ModifierKeyCode};
use keymap::widget::label::{alignment_of, key_string};

fn stroke(glyph: char, x: u16, y: u16, blank_only: bool) -> BorderStroke {
    BorderStroke { glyph, position: Position { x, y }, blank_only }
}

#[test]
fn border_strokes_of_an_ordinary_key() {
    let strokes = border_strokes(Rect { x: 5, y: 3, width: 6, height: 3 });
    assert_eq!(strokes.len(), 16);
    assert_eq!(
        strokes[..6].to_vec(),
        vec![
            stroke('┌', 5, 3, false),
            stroke('│', 5, 4, false),
            stroke('└', 5, 5, false),
            stroke('┐', 10, 3, false),
            stroke('│', 10, 4, false),
            stroke('┘', 10, 5, false),
        ]
    );
    for (k, x) in (5..10).enumerate() {
        assert_eq!(strokes[6 + 2 * k], stroke('─', x, 3, true));
        assert_eq!(strokes[7 + 2 * k], stroke('─', x, 5, true));
    }
}

#[test]
fn border_strokes_of_a_one_column_key() {
    let strokes = border_strokes(Rect { x: 0, y: 0, width: 1, height: 3 });
    assert_eq!(strokes.len(), 6);
    assert_eq!(strokes[0], stroke('┌', 0, 0, false));
    assert_eq!(strokes[3], stroke('┐', 0, 0, false));
}

#[test]
fn border_strokes_stay_on_the_rim() {
    let area = Rect { x: 59, y: 9, width: 16, height: 3 };
    for s in border_strokes(area) {
        let p = s.position;
        assert!(p.x >= area.x && p.x < area.x + area.width);
        assert!(p.y >= area.y && p.y < area.y + 3);
        assert!(p.x == area.x || p.x == area.x + area.width - 1 || p.y == area.y || p.y == area.y + 2);
    }
}

#[test]
fn horizontal_strokes_only_apply_to_blank_cells() {
    let horizontal = stroke('─', 0, 0, true);
    assert!(horizontal.applies_to(" "));
    assert!(!horizontal.applies_to("x"));
    assert!(!horizontal.applies_to("│"));
    assert!(!horizontal.applies_to(""));
    let corner = stroke('┌', 0, 0, false);
    assert!(corner.applies_to(" "));
    assert!(corner.applies_to("┘"));
}

#[test]
fn border_glyphs_join() {
    let cases = [
        ('└', ' ', '└'),
        ('└', '─', '└'),
        ('└', '┘', '╨'),
        ('└', '╡', '╬'),
        ('└', '┐', '╪'),
        ('└', '╩', '╩'),
        ('└', '┌', '├'),
        ('└', 'x', '└'),
        ('┌', ' ', '┌'),
        ('┌', '┘', '╪'),
        ('┌', '╡', '╫'),
        ('┌', '┤', '╫'),
        ('┌', '┐', '╥'),
        ('┌', '│', '│'),
        ('┌', '└', '├'),
        ('┌', '╨', '╫'),
        ('┌', '╫', '╫'),
        ('┌', '╪', '╫'),
        ('┌', 'x', '┌'),
        ('┐', ' ', '┐'),
        ('┐', '─', '┬'),
        ('┐', '┌', '╥'),
        ('┐', '┘', '┤'),
        ('┐', '└', '╪'),
        ('┐', '╨', '╫'),
        ('┐', 'x', '┐'),
        ('┘', ' ', '┘'),
        ('┘', '─', '┘'),
        ('┘', '┌', '╪'),
        ('┘', '└', '╨'),
        ('┘', 'x', '┘'),
        ('│', ' ', '│'),
        ('│', '│', '║'),
        ('│', 'x', '|'),
        ('─', ' ', '─'),
        ('─', '─', '─'),
        ('─', 'x', '#'),
    ];
    for (decorate, current, joined) in cases {
        assert_eq!(join_border(decorate, current), joined, "{} over {}", decorate, current);
    }
}

#[test]
fn border_glyph_on_a_blank_cell_is_itself() {
    for g in ['└', '┌', '┐', '┘', '│', '─'] {
        assert!(border_glyph(g));
        assert_eq!(join_border(g, ' '), g);
    }
    assert!(!border_glyph('x'));
    assert!(!border_glyph('╫'));
}

#[test]
fn key_labels() {
    let cases: Vec<(KeyCode, &str)> = vec![
        (KeyCode::Esc, "ESC"),
        (KeyCode::F(1), "F1"),
        (KeyCode::F(12), "F12"),
        (KeyCode::F(0), "F0"),
        (KeyCode::F(255), "F255"),
        (KeyCode::Char(' '), "␣"),
        (KeyCode::Char('q'), "q"),
        (KeyCode::Char('é'), "é"),
        (KeyCode::Backspace, "⌫"),
        (KeyCode::Tab, "⇥"),
        (KeyCode::CapsLock, "CAPS"),
        (KeyCode::Enter, "⏎"),
        (KeyCode::Left, "←"),
        (KeyCode::Right, "→"),
        (KeyCode::Up, "↑"),
        (KeyCode::Down, "↓"),
        (KeyCode::Home, "Home"),
        (KeyCode::End, "End"),
        (KeyCode::PageUp, "PgUp"),
        (KeyCode::PageDown, "PgDn"),
        (KeyCode::BackTab, "⇤"),
        (KeyCode::Delete, "Del"),
        (KeyCode::Insert, "Ins"),
        (KeyCode::Null, "Null"),
        (KeyCode::ScrollLock, "ScrL"),
        (KeyCode::NumLock, "NumLk"),
        (KeyCode::PrintScreen, "Prnt"),
        (KeyCode::Pause, "Paus"),
        (KeyCode::Menu, "Menu"),
        (KeyCode::KeypadBegin, "KP5"),
        (KeyCode::Media(MediaKeyCode::Play), "Media(Play)"),
        (KeyCode::Media(MediaKeyCode::MuteVolume), "Media(MuteVolume)"),
        (KeyCode::Modifier(ModifierKeyCode::LeftShift), "⇧"),
        (KeyCode::Modifier(ModifierKeyCode::RightShift), "⇧"),
        (KeyCode::Modifier(ModifierKeyCode::LeftControl), "CTRL"),
        (KeyCode::Modifier(ModifierKeyCode::RightControl), "CTRL"),
        (KeyCode::Modifier(ModifierKeyCode::LeftSuper), "⌘L"),
        (KeyCode::Modifier(ModifierKeyCode::RightSuper), "⌘R"),
        (KeyCode::Modifier(ModifierKeyCode::LeftHyper), "Hyp"),
        (KeyCode::Modifier(ModifierKeyCode::RightMeta), "Meta"),
        (KeyCode::Modifier(ModifierKeyCode::LeftAlt), "Alt"),
        (KeyCode::Modifier(ModifierKeyCode::IsoLevel3Shift), "Iso3"),
        (KeyCode::Modifier(ModifierKeyCode::IsoLevel5Shift), "Iso5"),
    ];
    for (key_code, label) in cases {
        assert_eq!(key_string(key_code), label);
    }
}

#[test]
fn label_alignment_by_length() {
    assert_eq!(alignment_of(&"a".to_string()), Alignment::Center);
    assert_eq!(alignment_of(&"⏎".to_string()), Alignment::Center);
    assert_eq!(alignment_of(&"⌘L".to_string()), Alignment::Left);
    assert_eq!(alignment_of(&"ESC".to_string()), Alignment::Left);
    assert_eq!(alignment_of(&String::new()), Alignment::Left);
}
