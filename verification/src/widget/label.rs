use vstd::prelude::*;
use vstd::string::{StrSliceExecFns, StringExecFns};

use crate::widget::geometry::Alignment;
use crate::widget::keycode::{KeyCode, MediaKeyCode, ModifierKeyCode};

verus! {

/// The decimal digit `d` as a character.
pub open spec fn digit_char(d: nat) -> char {
    if d == 0 { '0' }
    else if d == 1 { '1' }
    else if d == 2 { '2' }
    else if d == 3 { '3' }
    else if d == 4 { '4' }
    else if d == 5 { '5' }
    else if d == 6 { '6' }
    else if d == 7 { '7' }
    else if d == 8 { '8' }
    else { '9' }
}

/// `n` written in decimal, without leading zeros.
pub open spec fn decimal(n: nat) -> Seq<char>
    decreases n,
{
    if n < 10 {
        seq![digit_char(n)]
    } else {
        decimal(n / 10) + seq![digit_char(n % 10)]
    }
}

/// The name of a media key, as its `Debug` form spells it.
pub open spec fn media_name(m: MediaKeyCode) -> Seq<char> {
    match m {
        MediaKeyCode::Play => "Play"@,
        MediaKeyCode::Pause => "Pause"@,
        MediaKeyCode::PlayPause => "PlayPause"@,
        MediaKeyCode::Reverse => "Reverse"@,
        MediaKeyCode::Stop => "Stop"@,
        MediaKeyCode::FastForward => "FastForward"@,
        MediaKeyCode::Rewind => "Rewind"@,
        MediaKeyCode::TrackNext => "TrackNext"@,
        MediaKeyCode::TrackPrevious => "TrackPrevious"@,
        MediaKeyCode::Record => "Record"@,
        MediaKeyCode::LowerVolume => "LowerVolume"@,
        MediaKeyCode::RaiseVolume => "RaiseVolume"@,
        MediaKeyCode::MuteVolume => "MuteVolume"@,
    }
}

/// The label of a modifier key.
pub open spec fn modifier_label(m: ModifierKeyCode) -> Seq<char> {
    match m {
        ModifierKeyCode::LeftShift => "⇧"@,
        ModifierKeyCode::RightShift => "⇧"@,
        ModifierKeyCode::LeftControl => "CTRL"@,
        ModifierKeyCode::LeftSuper => "⌘L"@,
        ModifierKeyCode::LeftHyper => "Hyp"@,
        ModifierKeyCode::LeftMeta => "Meta"@,
        ModifierKeyCode::LeftAlt => "Alt"@,
        ModifierKeyCode::RightAlt => "Alt"@,
        ModifierKeyCode::RightControl => "CTRL"@,
        ModifierKeyCode::RightSuper => "⌘R"@,
        ModifierKeyCode::RightHyper => "Hyp"@,
        ModifierKeyCode::RightMeta => "Meta"@,
        ModifierKeyCode::IsoLevel3Shift => "Iso3"@,
        ModifierKeyCode::IsoLevel5Shift => "Iso5"@,
    }
}

/// The text printed on the key cap of `key_code`.
pub open spec fn key_label(key_code: KeyCode) -> Seq<char> {
    match key_code {
        KeyCode::Esc => "ESC"@,
        KeyCode::F(n) => seq!['F'] + decimal(n as nat),
        KeyCode::Char(c) => if c == ' ' { "␣"@ } else { seq![c] },
        KeyCode::Backspace => "⌫"@,
        KeyCode::Tab => "⇥"@,
        KeyCode::CapsLock => "CAPS"@,
        KeyCode::Enter => "⏎"@,
        KeyCode::Left => "←"@,
        KeyCode::Right => "→"@,
        KeyCode::Up => "↑"@,
        KeyCode::Down => "↓"@,
        KeyCode::Home => "Home"@,
        KeyCode::End => "End"@,
        KeyCode::PageUp => "PgUp"@,
        KeyCode::PageDown => "PgDn"@,
        KeyCode::BackTab => "⇤"@,
        KeyCode::Delete => "Del"@,
        KeyCode::Insert => "Ins"@,
        KeyCode::Null => "Null"@,
        KeyCode::ScrollLock => "ScrL"@,
        KeyCode::NumLock => "NumLk"@,
        KeyCode::PrintScreen => "Prnt"@,
        KeyCode::Pause => "Paus"@,
        KeyCode::Menu => "Menu"@,
        KeyCode::KeypadBegin => "KP5"@,
        KeyCode::Media(m) => "Media("@ + media_name(m) + ")"@,
        KeyCode::Modifier(m) => modifier_label(m),
    }
}

/// A label of one character is centered on its key cap; longer ones start at the left.
pub open spec fn label_alignment(label: Seq<char>) -> Alignment {
    if label.len() == 1 {
        Alignment::Center
    } else {
        Alignment::Left
    }
}

/// Calls `String::from(char)`, which allocates a string holding just `c`.
#[verifier::external_body]
fn char_string(c: char) -> (r: String)
    ensures
        r@ == seq![c],
{
    String::from(c)
}

fn digit_str(d: u8) -> (r: &'static str)
    requires
        d < 10,
    ensures
        r@ == seq![digit_char(d as nat)],
{
    proof {
        reveal_strlit("0");
        reveal_strlit("1");
        reveal_strlit("2");
        reveal_strlit("3");
        reveal_strlit("4");
        reveal_strlit("5");
        reveal_strlit("6");
        reveal_strlit("7");
        reveal_strlit("8");
        reveal_strlit("9");
    }
    let r = if d == 0 { "0" }
    else if d == 1 { "1" }
    else if d == 2 { "2" }
    else if d == 3 { "3" }
    else if d == 4 { "4" }
    else if d == 5 { "5" }
    else if d == 6 { "6" }
    else if d == 7 { "7" }
    else if d == 8 { "8" }
    else { "9" };
    assert(r@ =~= seq![digit_char(d as nat)]);
    r
}

/// Appends `n` in decimal to `s`.
fn push_decimal(s: &mut String, n: u8)
    ensures
        final(s)@ == old(s)@ + decimal(n as nat),
    decreases n,
{
    if n < 10 {
        s.append(digit_str(n));
    } else {
        push_decimal(s, n / 10);
        s.append(digit_str(n % 10));
        proof {
            assert(decimal(n as nat) == decimal((n / 10) as nat) + seq![digit_char((n % 10) as nat)]);
            assert(final(s)@ =~= old(s)@ + decimal(n as nat));
        }
    }
}

fn media_str(m: MediaKeyCode) -> (r: &'static str)
    ensures
        r@ == media_name(m),
{
    match m {
        MediaKeyCode::Play => "Play",
        MediaKeyCode::Pause => "Pause",
        MediaKeyCode::PlayPause => "PlayPause",
        MediaKeyCode::Reverse => "Reverse",
        MediaKeyCode::Stop => "Stop",
        MediaKeyCode::FastForward => "FastForward",
        MediaKeyCode::Rewind => "Rewind",
        MediaKeyCode::TrackNext => "TrackNext",
        MediaKeyCode::TrackPrevious => "TrackPrevious",
        MediaKeyCode::Record => "Record",
        MediaKeyCode::LowerVolume => "LowerVolume",
        MediaKeyCode::RaiseVolume => "RaiseVolume",
        MediaKeyCode::MuteVolume => "MuteVolume",
    }
}

fn modifier_str(m: ModifierKeyCode) -> (r: &'static str)
    ensures
        r@ == modifier_label(m),
{
    match m {
        ModifierKeyCode::LeftShift => "⇧",
        ModifierKeyCode::RightShift => "⇧",
        ModifierKeyCode::LeftControl => "CTRL",
        ModifierKeyCode::LeftSuper => "⌘L",
        ModifierKeyCode::LeftHyper => "Hyp",
        ModifierKeyCode::LeftMeta => "Meta",
        ModifierKeyCode::LeftAlt => "Alt",
        ModifierKeyCode::RightAlt => "Alt",
        ModifierKeyCode::RightControl => "CTRL",
        ModifierKeyCode::RightSuper => "⌘R",
        ModifierKeyCode::RightHyper => "Hyp",
        ModifierKeyCode::RightMeta => "Meta",
        ModifierKeyCode::IsoLevel3Shift => "Iso3",
        ModifierKeyCode::IsoLevel5Shift => "Iso5",
    }
}

/// The label of every key but the function, character and media keys.
fn fixed_label(key_code: KeyCode) -> (r: &'static str)
    requires
        !(key_code is F || key_code is Char || key_code is Media),
    ensures
        r@ == key_label(key_code),
{
    match key_code {
        KeyCode::Esc => "ESC",
        KeyCode::Backspace => "⌫",
        KeyCode::Tab => "⇥",
        KeyCode::CapsLock => "CAPS",
        KeyCode::Enter => "⏎",
        KeyCode::Left => "←",
        KeyCode::Right => "→",
        KeyCode::Up => "↑",
        KeyCode::Down => "↓",
        KeyCode::Home => "Home",
        KeyCode::End => "End",
        KeyCode::PageUp => "PgUp",
        KeyCode::PageDown => "PgDn",
        KeyCode::BackTab => "⇤",
        KeyCode::Delete => "Del",
        KeyCode::Insert => "Ins",
        KeyCode::Null => "Null",
        KeyCode::ScrollLock => "ScrL",
        KeyCode::NumLock => "NumLk",
        KeyCode::PrintScreen => "Prnt",
        KeyCode::Pause => "Paus",
        KeyCode::Menu => "Menu",
        KeyCode::KeypadBegin => "KP5",
        KeyCode::Modifier(m) => modifier_str(m),
        _ => "",
    }
}

/// The text printed on the key cap of `key_code`.
pub fn key_string(key_code: KeyCode) -> (r: String)
    ensures
        r@ == key_label(key_code),
{
    match key_code {
        KeyCode::F(n) => {
            let mut s = String::from_str("F");
            proof {
                reveal_strlit("F");
            }
            push_decimal(&mut s, n);
            s
        },
        KeyCode::Char(c) => {
            if c == ' ' {
                String::from_str("␣")
            } else {
                char_string(c)
            }
        },
        KeyCode::Media(m) => {
            let mut s = String::from_str("Media(");
            s.append(media_str(m));
            s.append(")");
            s
        },
        _ => String::from_str(fixed_label(key_code)),
    }
}

/// Where the label is placed on its key cap.
pub fn alignment_of(label: &String) -> (r: Alignment)
    ensures
        r == label_alignment(label@),
{
    if label.as_str().unicode_len() == 1 {
        Alignment::Center
    } else {
        Alignment::Left
    }
}

/// The two keys of each modifier that comes in a left and a right version carry the same
/// label, naming the modifier (shift, control, alt, hyper, meta); only the two super keys are
/// told apart by side, and the two ISO level shifts are named by their level.
pub proof fn law_modifier_labels()
    ensures
        key_label(KeyCode::Modifier(ModifierKeyCode::LeftShift)) == key_label(
            KeyCode::Modifier(ModifierKeyCode::RightShift),
        ),
        key_label(KeyCode::Modifier(ModifierKeyCode::LeftShift)) == "⇧"@,
        key_label(KeyCode::Modifier(ModifierKeyCode::LeftControl)) == key_label(
            KeyCode::Modifier(ModifierKeyCode::RightControl),
        ),
        key_label(KeyCode::Modifier(ModifierKeyCode::LeftControl)) == "CTRL"@,
        key_label(KeyCode::Modifier(ModifierKeyCode::LeftAlt)) == key_label(
            KeyCode::Modifier(ModifierKeyCode::RightAlt),
        ),
        key_label(KeyCode::Modifier(ModifierKeyCode::LeftAlt)) == "Alt"@,
        key_label(KeyCode::Modifier(ModifierKeyCode::LeftHyper)) == key_label(
            KeyCode::Modifier(ModifierKeyCode::RightHyper),
        ),
        key_label(KeyCode::Modifier(ModifierKeyCode::LeftHyper)) == "Hyp"@,
        key_label(KeyCode::Modifier(ModifierKeyCode::LeftMeta)) == key_label(
            KeyCode::Modifier(ModifierKeyCode::RightMeta),
        ),
        key_label(KeyCode::Modifier(ModifierKeyCode::LeftMeta)) == "Meta"@,
        key_label(KeyCode::Modifier(ModifierKeyCode::LeftSuper)) == "⌘L"@,
        key_label(KeyCode::Modifier(ModifierKeyCode::RightSuper)) == "⌘R"@,
        key_label(KeyCode::Modifier(ModifierKeyCode::IsoLevel3Shift)) == "Iso3"@,
        key_label(KeyCode::Modifier(ModifierKeyCode::IsoLevel5Shift)) == "Iso5"@,
{
}

/// A character key other than the space bar is labelled with its own character, and a
/// function key with `F` and its number in decimal.
pub proof fn law_character_and_function_labels(c: char, n: u8)
    ensures
        c != ' ' ==> key_label(KeyCode::Char(c)) == seq![c],
        key_label(KeyCode::F(n)) == seq!['F'] + decimal(n as nat),
        key_label(KeyCode::F(n)).len() >= 2,
{
    lemma_decimal_nonempty(n as nat);
}

/// A number written in decimal has at least one digit.
proof fn lemma_decimal_nonempty(n: nat)
    ensures
        decimal(n).len() >= 1,
    decreases n,
{
    if n >= 10 {
        lemma_decimal_nonempty(n / 10);
    }
}

} // verus!
