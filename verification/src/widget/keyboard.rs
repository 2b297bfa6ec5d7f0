use vstd::prelude::*;

use crate::styling::{mocha, Catppuccin, Style};
use crate::widget::geometry::{inner_rect, rect_at, Alignment, Position, Rect, Size};
use crate::widget::label::{alignment_of, key_label, key_string, label_alignment};
use crate::widget::keycode::{KeyCode, ModifierKeyCode};

verus! {

/// The left edge of the navigation block (Insert, Home, arrows, ...).
pub const NAV_KEY_X_START: u16 = 79;

/// The width of an ordinary key, its two border columns included.
pub const KEY_W: u16 = 6;
/// The height of every key, its two border rows included.
pub const KEY_H: u16 = 3;

pub const TAB_W: u16 = 7;
pub const CAPSLOCK_W: u16 = 8;
pub const SHIFT_L_W: u16 = 10;
pub const SHIFT_R_W: u16 = 16;
pub const CTRL_L_W: u16 = 7;
pub const CTRL_R_W: u16 = 10;
pub const ALT_W: u16 = 8;
pub const SPACE_W: u16 = 31;
pub const SUPER_W: u16 = 6;
pub const MENU_W: u16 = 6;

/// The character keys of the number row, left to right.
pub open spec fn number_row() -> Seq<char> {
    seq!['`', '1', '2', '3', '4', '5', '6', '7', '8', '9', '0', '-', '=']
}

/// The character keys of the top letter row, left to right.
pub open spec fn top_row() -> Seq<char> {
    seq!['q', 'w', 'e', 'r', 't', 'y', 'u', 'i', 'o', 'p', '[', ']', '\\']
}

/// The character keys of the middle letter row, left to right.
pub open spec fn middle_row() -> Seq<char> {
    seq!['a', 's', 'd', 'f', 'g', 'h', 'j', 'k', 'l', ';', '\'']
}

/// The character keys of the bottom letter row, left to right.
pub open spec fn bottom_row() -> Seq<char> {
    seq!['z', 'x', 'c', 'v', 'b', 'n', 'm', ',', '.', '/']
}

/// The first index at or after `k` where `c` occurs in `row`.
pub open spec fn index_from(row: Seq<char>, c: char, k: int) -> Option<int>
    decreases row.len() - k,
{
    if k < 0 || k >= row.len() {
        None
    } else if row[k] == c {
        Some(k)
    } else {
        index_from(row, c, k + 1)
    }
}

/// The first index where `c` occurs in `row`.
pub open spec fn index_in(row: Seq<char>, c: char) -> Option<int> {
    index_from(row, c, 0)
}

/// The column where the key at `index` of a row of ordinary keys starts, counted from the
/// row's first character key; neighbours share a border column.
pub open spec fn row_offset(row: Seq<char>, c: char) -> int {
    (KEY_W - 1) * match index_in(row, c) {
        Some(i) => i,
        None => 0,
    }
}

/// The column of function key `n`: F1 stands above `1`, and each group of four is set two
/// columns apart from the next.
pub open spec fn fn_key_x(n: u8) -> int {
    (KEY_W - 1) + 2 * ((n - 1) / 4) + n * (KEY_W - 1)
}

/// The column where `key_code` is drawn on the ANSI tenkeyless keyboard.
pub open spec fn ansi_key_x(key_code: KeyCode) -> int {
    match key_code {
        KeyCode::Esc => 0,
        KeyCode::F(n) => fn_key_x(n),
        KeyCode::Char(c) => if index_in(number_row(), c) is Some {
            row_offset(number_row(), c)
        } else if index_in(top_row(), c) is Some {
            TAB_W - 1 + row_offset(top_row(), c)
        } else if index_in(middle_row(), c) is Some {
            CAPSLOCK_W - 1 + row_offset(middle_row(), c)
        } else if index_in(bottom_row(), c) is Some {
            SHIFT_L_W - 1 + row_offset(bottom_row(), c)
        } else if c == ' ' {
            CTRL_L_W + SUPER_W + ALT_W - 3
        } else {
            0
        },
        KeyCode::Modifier(m) => match m {
            ModifierKeyCode::LeftShift => 0,
            ModifierKeyCode::RightShift => SHIFT_L_W - 1 + (KEY_W - 1) * bottom_row().len(),
            ModifierKeyCode::LeftControl => 0,
            ModifierKeyCode::LeftSuper => CTRL_L_W - 1,
            ModifierKeyCode::LeftHyper => CTRL_L_W - 1,
            ModifierKeyCode::LeftMeta => CTRL_L_W - 1,
            ModifierKeyCode::LeftAlt => CTRL_L_W + SUPER_W - 2,
            ModifierKeyCode::RightAlt => CTRL_L_W + SUPER_W + ALT_W + SPACE_W - 4,
            ModifierKeyCode::RightControl => CTRL_L_W + SUPER_W + ALT_W + SPACE_W + ALT_W + MENU_W + KEY_W - 7,
            ModifierKeyCode::RightSuper => CTRL_L_W + SUPER_W + ALT_W + SPACE_W + ALT_W + MENU_W - 6,
            ModifierKeyCode::RightHyper => CTRL_L_W + SUPER_W + ALT_W + SPACE_W + ALT_W + MENU_W - 6,
            ModifierKeyCode::RightMeta => CTRL_L_W + SUPER_W + ALT_W + SPACE_W + ALT_W + MENU_W - 6,
            _ => 0,
        },
        KeyCode::Backspace => (KEY_W - 1) * number_row().len(),
        KeyCode::Tab => 0,
        KeyCode::CapsLock => 0,
        KeyCode::Enter => CAPSLOCK_W - 1 + (KEY_W - 1) * 11,
        KeyCode::Left => NAV_KEY_X_START as int,
        KeyCode::Right => NAV_KEY_X_START + (KEY_W - 1) * 2,
        KeyCode::Up => NAV_KEY_X_START + (KEY_W - 1),
        KeyCode::Down => NAV_KEY_X_START + (KEY_W - 1),
        KeyCode::Home => NAV_KEY_X_START + (KEY_W - 1),
        KeyCode::End => NAV_KEY_X_START + (KEY_W - 1),
        KeyCode::PageUp => NAV_KEY_X_START + (KEY_W - 1) * 2,
        KeyCode::PageDown => NAV_KEY_X_START + (KEY_W - 1) * 2,
        KeyCode::BackTab => 0,
        KeyCode::Delete => NAV_KEY_X_START as int,
        KeyCode::Insert => NAV_KEY_X_START as int,
        KeyCode::Null => 0,
        KeyCode::ScrollLock => NAV_KEY_X_START + KEY_W - 1,
        KeyCode::NumLock => 0,
        KeyCode::PrintScreen => NAV_KEY_X_START as int,
        KeyCode::Pause => NAV_KEY_X_START + (KEY_W - 1) * 2,
        KeyCode::Menu => CTRL_L_W + SUPER_W + ALT_W + SPACE_W + ALT_W - 5,
        KeyCode::KeypadBegin => 0,
        KeyCode::Media(_) => 0,
    }
}

/// The row where `key_code` is drawn on the ANSI tenkeyless keyboard.
pub open spec fn ansi_key_y(key_code: KeyCode) -> int {
    match key_code {
        KeyCode::Esc => 0,
        KeyCode::F(_) => 0,
        KeyCode::Char(c) => if index_in(number_row(), c) is Some {
            3
        } else if index_in(top_row(), c) is Some {
            5
        } else if index_in(middle_row(), c) is Some {
            7
        } else if index_in(bottom_row(), c) is Some {
            9
        } else if c == ' ' {
            11
        } else {
            0
        },
        KeyCode::Modifier(m) => match m {
            ModifierKeyCode::LeftShift => 9,
            ModifierKeyCode::RightShift => 9,
            ModifierKeyCode::IsoLevel3Shift => 0,
            ModifierKeyCode::IsoLevel5Shift => 0,
            _ => 11,
        },
        KeyCode::Backspace => 3,
        KeyCode::Tab => 5,
        KeyCode::CapsLock => 7,
        KeyCode::Enter => 7,
        KeyCode::Left => 11,
        KeyCode::Right => 11,
        KeyCode::Up => 9,
        KeyCode::Down => 11,
        KeyCode::Home => 3,
        KeyCode::End => 5,
        KeyCode::PageUp => 3,
        KeyCode::PageDown => 5,
        KeyCode::Delete => 5,
        KeyCode::Insert => 3,
        KeyCode::ScrollLock => 0,
        KeyCode::PrintScreen => 0,
        KeyCode::Pause => 0,
        KeyCode::Menu => 11,
        _ => 0,
    }
}

/// The width of `key_code` on the ANSI tenkeyless keyboard.
pub open spec fn ansi_key_width(key_code: KeyCode) -> int {
    match key_code {
        KeyCode::Char(' ') => SPACE_W as int,
        KeyCode::Char('\\') => 9,
        KeyCode::Tab => TAB_W as int,
        KeyCode::CapsLock => CAPSLOCK_W as int,
        KeyCode::Backspace => KEY_W * 2 - 2,
        KeyCode::Enter => 13,
        KeyCode::Modifier(m) => match m {
            ModifierKeyCode::LeftShift => SHIFT_L_W as int,
            ModifierKeyCode::RightShift => SHIFT_R_W as int,
            ModifierKeyCode::LeftControl => CTRL_L_W as int,
            ModifierKeyCode::LeftSuper => SUPER_W as int,
            ModifierKeyCode::LeftHyper => SUPER_W as int,
            ModifierKeyCode::LeftMeta => SUPER_W as int,
            ModifierKeyCode::LeftAlt => ALT_W as int,
            ModifierKeyCode::RightAlt => ALT_W as int,
            ModifierKeyCode::RightControl => CTRL_R_W as int,
            ModifierKeyCode::RightSuper => SUPER_W as int,
            ModifierKeyCode::RightHyper => SUPER_W as int,
            ModifierKeyCode::RightMeta => SUPER_W as int,
            _ => KEY_W as int,
        },
        _ => KEY_W as int,
    }
}

/// The keys that the ANSI tenkeyless keyboard can place: all but `F(0)`, whose column
/// cannot be computed.
pub open spec fn ansi_places(key_code: KeyCode) -> bool {
    key_code != KeyCode::F(0)
}

pub open spec fn ansi_key_position(key_code: KeyCode) -> Position {
    Position { x: ansi_key_x(key_code) as u16, y: ansi_key_y(key_code) as u16 }
}

pub open spec fn ansi_key_area(key_code: KeyCode) -> Rect {
    rect_at(ansi_key_position(key_code), Size { width: ansi_key_width(key_code) as u16, height: KEY_H })
}

pub proof fn lemma_index_from(row: Seq<char>, c: char, k: int)
    requires
        0 <= k,
    ensures
        index_from(row, c, k) matches Some(i) ==> k <= i < row.len() && row[i] == c,
    decreases row.len() - k,
{
    if k < row.len() && row[k] != c {
        lemma_index_from(row, c, k + 1);
    }
}

/// Where `c` first occurs in `row`.
fn row_index(row: &[char], c: char) -> (r: Option<usize>)
    ensures
        match r {
            Some(i) => index_in(row@, c) == Some(i as int),
            None => index_in(row@, c) is None,
        },
{
    let mut k: usize = 0;
    while k < row.len()
        invariant
            k <= row@.len(),
            index_from(row@, c, k as int) == index_in(row@, c),
        decreases row@.len() - k,
    {
        if row[k] == c {
            return Some(k);
        }
        k = k + 1;
    }
    None
}

fn number_row_chars() -> (r: &'static [char])
    ensures
        r@ == number_row(),
{
    let r: &[char] = &['`', '1', '2', '3', '4', '5', '6', '7', '8', '9', '0', '-', '='];
    assert(r@ =~= number_row());
    r
}

fn top_row_chars() -> (r: &'static [char])
    ensures
        r@ == top_row(),
{
    let r: &[char] = &['q', 'w', 'e', 'r', 't', 'y', 'u', 'i', 'o', 'p', '[', ']', '\\'];
    assert(r@ =~= top_row());
    r
}

fn middle_row_chars() -> (r: &'static [char])
    ensures
        r@ == middle_row(),
{
    let r: &[char] = &['a', 's', 'd', 'f', 'g', 'h', 'j', 'k', 'l', ';', '\''];
    assert(r@ =~= middle_row());
    r
}

fn bottom_row_chars() -> (r: &'static [char])
    ensures
        r@ == bottom_row(),
{
    let r: &[char] = &['z', 'x', 'c', 'v', 'b', 'n', 'm', ',', '.', '/'];
    assert(r@ =~= bottom_row());
    r
}

/// The position of the character key `c`, given its row's characters and the column where
/// the row's first character key starts.
fn char_position(row: &[char], c: char, start: u16, y: u16) -> (r: Option<(u16, u16)>)
    requires
        row@.len() <= 13,
        start <= 9,
    ensures
        match r {
            Some(p) => index_in(row@, c) is Some && p.0 == start + row_offset(row@, c) && p.1 == y,
            None => index_in(row@, c) is None,
        },
{
    match row_index(row, c) {
        Some(i) => {
            proof {
                lemma_index_from(row@, c, 0);
            }
            assert(i < 13);
            let x: u16 = start + 5 * (i as u16);
            assert(x == start + row_offset(row@, c));
            Some((x, y))
        },
        None => None,
    }
}

/// The keys of the ANSI tenkeyless keyboard in drawing order: the function key row, the
/// number row, the three letter rows, the space bar row, the navigation block and the arrows.
pub open spec fn ansi_layout_codes() -> Seq<KeyCode> {
    seq![
        KeyCode::Esc, KeyCode::F(1), KeyCode::F(2), KeyCode::F(3), KeyCode::F(4), KeyCode::F(5), KeyCode::F(6),
        KeyCode::F(7), KeyCode::F(8), KeyCode::F(9), KeyCode::F(10), KeyCode::F(11), KeyCode::F(12),
        KeyCode::Char('`'), KeyCode::Char('1'), KeyCode::Char('2'), KeyCode::Char('3'), KeyCode::Char('4'),
        KeyCode::Char('5'), KeyCode::Char('6'), KeyCode::Char('7'), KeyCode::Char('8'), KeyCode::Char('9'),
        KeyCode::Char('0'), KeyCode::Char('-'), KeyCode::Char('='), KeyCode::Backspace,
        KeyCode::Tab, KeyCode::Char('q'), KeyCode::Char('w'), KeyCode::Char('e'), KeyCode::Char('r'),
        KeyCode::Char('t'), KeyCode::Char('y'), KeyCode::Char('u'), KeyCode::Char('i'), KeyCode::Char('o'),
        KeyCode::Char('p'), KeyCode::Char('['), KeyCode::Char(']'), KeyCode::Char('\\'),
        KeyCode::CapsLock, KeyCode::Char('a'), KeyCode::Char('s'), KeyCode::Char('d'), KeyCode::Char('f'),
        KeyCode::Char('g'), KeyCode::Char('h'), KeyCode::Char('j'), KeyCode::Char('k'), KeyCode::Char('l'),
        KeyCode::Char(';'), KeyCode::Char('\''), KeyCode::Enter,
        KeyCode::Modifier(ModifierKeyCode::LeftShift), KeyCode::Char('z'), KeyCode::Char('x'),
        KeyCode::Char('c'), KeyCode::Char('v'), KeyCode::Char('b'), KeyCode::Char('n'), KeyCode::Char('m'),
        KeyCode::Char(','), KeyCode::Char('.'), KeyCode::Char('/'), KeyCode::Modifier(ModifierKeyCode::RightShift),
        KeyCode::Modifier(ModifierKeyCode::LeftControl), KeyCode::Modifier(ModifierKeyCode::LeftSuper),
        KeyCode::Modifier(ModifierKeyCode::LeftAlt), KeyCode::Char(' '), KeyCode::Modifier(ModifierKeyCode::RightAlt),
        KeyCode::Menu, KeyCode::Modifier(ModifierKeyCode::RightSuper), KeyCode::Modifier(ModifierKeyCode::RightControl),
        KeyCode::PrintScreen, KeyCode::ScrollLock, KeyCode::Pause,
        KeyCode::Insert, KeyCode::Home, KeyCode::PageUp,
        KeyCode::Delete, KeyCode::End, KeyCode::PageDown,
        KeyCode::Up, KeyCode::Left, KeyCode::Down, KeyCode::Right,
    ]
}

fn ansi_layout_code_array() -> (r: [KeyCode; 87])
    ensures
        r@ == ansi_layout_codes(),
{
    let r = [
        KeyCode::Esc, KeyCode::F(1), KeyCode::F(2), KeyCode::F(3), KeyCode::F(4), KeyCode::F(5), KeyCode::F(6),
        KeyCode::F(7), KeyCode::F(8), KeyCode::F(9), KeyCode::F(10), KeyCode::F(11), KeyCode::F(12),
        KeyCode::Char('`'), KeyCode::Char('1'), KeyCode::Char('2'), KeyCode::Char('3'), KeyCode::Char('4'),
        KeyCode::Char('5'), KeyCode::Char('6'), KeyCode::Char('7'), KeyCode::Char('8'), KeyCode::Char('9'),
        KeyCode::Char('0'), KeyCode::Char('-'), KeyCode::Char('='), KeyCode::Backspace,
        KeyCode::Tab, KeyCode::Char('q'), KeyCode::Char('w'), KeyCode::Char('e'), KeyCode::Char('r'),
        KeyCode::Char('t'), KeyCode::Char('y'), KeyCode::Char('u'), KeyCode::Char('i'), KeyCode::Char('o'),
        KeyCode::Char('p'), KeyCode::Char('['), KeyCode::Char(']'), KeyCode::Char('\\'),
        KeyCode::CapsLock, KeyCode::Char('a'), KeyCode::Char('s'), KeyCode::Char('d'), KeyCode::Char('f'),
        KeyCode::Char('g'), KeyCode::Char('h'), KeyCode::Char('j'), KeyCode::Char('k'), KeyCode::Char('l'),
        KeyCode::Char(';'), KeyCode::Char('\''), KeyCode::Enter,
        KeyCode::Modifier(ModifierKeyCode::LeftShift), KeyCode::Char('z'), KeyCode::Char('x'),
        KeyCode::Char('c'), KeyCode::Char('v'), KeyCode::Char('b'), KeyCode::Char('n'), KeyCode::Char('m'),
        KeyCode::Char(','), KeyCode::Char('.'), KeyCode::Char('/'), KeyCode::Modifier(ModifierKeyCode::RightShift),
        KeyCode::Modifier(ModifierKeyCode::LeftControl), KeyCode::Modifier(ModifierKeyCode::LeftSuper),
        KeyCode::Modifier(ModifierKeyCode::LeftAlt), KeyCode::Char(' '), KeyCode::Modifier(ModifierKeyCode::RightAlt),
        KeyCode::Menu, KeyCode::Modifier(ModifierKeyCode::RightSuper), KeyCode::Modifier(ModifierKeyCode::RightControl),
        KeyCode::PrintScreen, KeyCode::ScrollLock, KeyCode::Pause,
        KeyCode::Insert, KeyCode::Home, KeyCode::PageUp,
        KeyCode::Delete, KeyCode::End, KeyCode::PageDown,
        KeyCode::Up, KeyCode::Left, KeyCode::Down, KeyCode::Right,
    ];
    assert(r@ =~= ansi_layout_codes());
    r
}

/// A key and the rectangle it is drawn in.
#[derive(Debug, Clone, Copy, PartialEq, Eq, Structural)]
pub struct KeyCap {
    pub key_code: KeyCode,
    pub area: Rect,
}

impl KeyCap {
    pub fn new(key_code: KeyCode, area: Rect) -> (r: KeyCap)
        ensures
            r == (KeyCap { key_code, area }),
    {
        KeyCap { key_code, area }
    }
}

/// A key and its rectangle make a key cap.
impl From<(KeyCode, Rect)> for KeyCap {
    fn from(parts: (KeyCode, Rect)) -> (r: KeyCap) {
        KeyCap::new(parts.0, parts.1)
    }
}

impl vstd::std_specs::convert::FromSpecImpl<(KeyCode, Rect)> for KeyCap {
    open spec fn obeys_from_spec() -> bool {
        true
    }

    open spec fn from_spec(parts: (KeyCode, Rect)) -> KeyCap {
        KeyCap { key_code: parts.0, area: parts.1 }
    }
}

/// The key caps of `caps` by key; where a key occurs twice, the later key cap wins.
pub open spec fn lookup_map(caps: Seq<KeyCap>) -> Map<KeyCode, KeyCap>
    decreases caps.len(),
{
    if caps.len() == 0 {
        Map::empty()
    } else {
        lookup_map(caps.drop_last()).insert(caps.last().key_code, caps.last())
    }
}

/// Where no key cap of `caps` from index `i` on is for `key_code`, the lookup of `caps`
/// agrees with that of its first `i` key caps on `key_code`.
pub proof fn lemma_lookup_prefix(caps: Seq<KeyCap>, i: int, key_code: KeyCode)
    requires
        0 <= i <= caps.len(),
        forall|j: int| i <= j < caps.len() ==> caps[j].key_code != key_code,
    ensures
        lookup_map(caps).contains_key(key_code) == lookup_map(caps.take(i)).contains_key(key_code),
        lookup_map(caps).contains_key(key_code) ==> lookup_map(caps)[key_code] == lookup_map(
            caps.take(i),
        )[key_code],
    decreases caps.len() - i,
{
    if i < caps.len() {
        lemma_lookup_prefix(caps.drop_last(), i, key_code);
        assert(caps.drop_last().take(i) =~= caps.take(i));
    } else {
        assert(caps.take(i) =~= caps);
    }
}

/// Key caps found by their key.
pub struct KeyCapLookup {
    caps: Vec<KeyCap>,
}

impl View for KeyCapLookup {
    type V = Map<KeyCode, KeyCap>;

    closed spec fn view(&self) -> Map<KeyCode, KeyCap> {
        lookup_map(self.caps@)
    }
}

impl KeyCapLookup {
    /// The lookup holds each key at most once.
    #[verifier::type_invariant]
    spec fn keys_distinct(self) -> bool {
        distinct_keys(self.caps@)
    }

    /// An empty lookup.
    pub fn new() -> (r: KeyCapLookup)
        ensures
            r@ == Map::<KeyCode, KeyCap>::empty(),
    {
        KeyCapLookup { caps: Vec::new() }
    }

    /// Files `cap` under its key, replacing the key cap filed there before.
    pub fn insert(&mut self, cap: KeyCap)
        ensures
            final(self)@ == old(self)@.insert(cap.key_code, cap),
    {
        proof {
            use_type_invariant(&*self);
        }
        let mut caps: Vec<KeyCap> = Vec::new();
        std::mem::swap(&mut caps, &mut self.caps);
        let ghost before = caps@;
        let mut j: usize = 0;
        while j < caps.len()
            invariant
                caps@ == before,
                lookup_map(before) == old(self)@,
                distinct_keys(before),
                j <= before.len(),
                forall|i: int| 0 <= i < j ==> (#[trigger] before[i]).key_code != cap.key_code,
            decreases before.len() - j,
        {
            if caps[j].key_code == cap.key_code {
                caps.set(j, cap);
                proof {
                    lemma_lookup_update(before, j as int, cap);
                }
                self.caps = caps;
                return;
            }
            j = j + 1;
        }
        caps.push(cap);
        proof {
            assert(caps@.drop_last() =~= before);
            assert forall|a: int, b: int|
                0 <= a < caps@.len() && 0 <= b < caps@.len() && a != b implies caps@[a].key_code
                != caps@[b].key_code by {
                if a < before.len() && b < before.len() {
                    assert(caps@[a] == before[a] && caps@[b] == before[b]);
                } else if a < before.len() {
                    assert(caps@[a] == before[a]);
                } else {
                    assert(caps@[b] == before[b]);
                }
            }
        }
        self.caps = caps;
    }

    /// The key cap filed under `key_code`, if there is one.
    pub fn get(&self, key_code: KeyCode) -> (r: Option<&KeyCap>)
        ensures
            match r {
                Some(cap) => self@.contains_key(key_code) && self@[key_code] == *cap,
                None => !self@.contains_key(key_code),
            },
    {
        let mut i = self.caps.len();
        while i > 0
            invariant
                i <= self.caps@.len(),
                forall|j: int| i <= j < self.caps@.len() ==> self.caps@[j].key_code != key_code,
            decreases i,
        {
            if self.caps[i - 1].key_code == key_code {
                proof {
                    lemma_lookup_prefix(self.caps@, i as int, key_code);
                    assert(self.caps@.take(i as int).drop_last() =~= self.caps@.take(i - 1));
                }
                return Some(&self.caps[i - 1]);
            }
            i = i - 1;
        }
        proof {
            lemma_lookup_prefix(self.caps@, 0, key_code);
            assert(self.caps@.take(0) =~= Seq::<KeyCap>::empty());
        }
        None
    }

    /// How many keys the lookup holds.
    pub fn len(&self) -> (r: usize)
        ensures
            self@.dom().finite(),
            r == self@.dom().len(),
    {
        proof {
            use_type_invariant(self);
            lemma_lookup_len(self.caps@);
        }
        self.caps.len()
    }

    /// The key caps that the lookup holds, one for each of its keys, in the order in which
    /// their keys were first filed.
    pub fn key_caps(&self) -> (r: Vec<KeyCap>)
        ensures
            r@.len() == self@.dom().len(),
            distinct_keys(r@),
            lookup_map(r@) == self@,
            forall|i: int|
                0 <= i < r@.len() ==> self@.contains_key((#[trigger] r@[i]).key_code) && self@[r@[i].key_code]
                    == r@[i],
            forall|k: KeyCode|
                #[trigger] self@.contains_key(k) ==> exists|i: int| 0 <= i < r@.len() && r@[i].key_code == k,
    {
        proof {
            use_type_invariant(self);
            lemma_lookup_len(self.caps@);
            lemma_lookup_distinct(self.caps@);
        }
        let mut r: Vec<KeyCap> = Vec::new();
        let mut i: usize = 0;
        while i < self.caps.len()
            invariant
                i <= self.caps@.len(),
                r@ == self.caps@.take(i as int),
            decreases self.caps@.len() - i,
        {
            r.push(self.caps[i]);
            proof {
                assert(r@ =~= self.caps@.take(i + 1));
            }
            i = i + 1;
        }
        proof {
            assert(r@ =~= self.caps@);
        }
        r
    }
}

/// Replacing a key cap by one for the same key, where no key occurs twice, files the new key
/// cap under that key and keeps every key occurring once.
proof fn lemma_lookup_update(caps: Seq<KeyCap>, j: int, cap: KeyCap)
    requires
        distinct_keys(caps),
        0 <= j < caps.len(),
        caps[j].key_code == cap.key_code,
    ensures
        distinct_keys(caps.update(j, cap)),
        lookup_map(caps.update(j, cap)) == lookup_map(caps).insert(cap.key_code, cap),
{
    let u = caps.update(j, cap);
    assert forall|a: int, b: int| 0 <= a < u.len() && 0 <= b < u.len() && a != b implies u[a].key_code
        != u[b].key_code by {
        assert(u[a].key_code == caps[a].key_code && u[b].key_code == caps[b].key_code);
    }
    lemma_lookup_distinct(caps);
    lemma_lookup_distinct(u);
    let m = lookup_map(caps).insert(cap.key_code, cap);
    assert forall|k: KeyCode| #[trigger] lookup_map(u).contains_key(k) implies m.contains_key(k) && lookup_map(
        u,
    )[k] == m[k] by {
        let i = choose|i: int| 0 <= i < u.len() && u[i].key_code == k;
        assert(lookup_map(u).contains_key(u[i].key_code));
        if i != j {
            assert(u[i] == caps[i]);
            assert(lookup_map(caps).contains_key(caps[i].key_code));
            assert(caps[i].key_code != caps[j].key_code);
        }
    }
    assert forall|k: KeyCode| #[trigger] m.contains_key(k) implies lookup_map(u).contains_key(k) by {
        if k != cap.key_code {
            assert(lookup_map(caps).contains_key(k));
            let i = choose|i: int| 0 <= i < caps.len() && caps[i].key_code == k;
            assert(u[i] == caps[i]);
            assert(lookup_map(u).contains_key(u[i].key_code));
        } else {
            assert(lookup_map(u).contains_key(u[j].key_code));
        }
    }
    assert(lookup_map(u) =~= m);
}

/// Where no key occurs twice, the lookup holds as many keys as there are key caps.
pub proof fn lemma_lookup_len(caps: Seq<KeyCap>)
    requires
        distinct_keys(caps),
    ensures
        lookup_map(caps).dom().finite(),
        lookup_map(caps).dom().len() == caps.len(),
    decreases caps.len(),
{
    if caps.len() > 0 {
        let rest = caps.drop_last();
        assert(distinct_keys(rest));
        lemma_lookup_len(rest);
        lemma_lookup_distinct(rest);
        let last = caps.last();
        if lookup_map(rest).contains_key(last.key_code) {
            let i = choose|i: int| 0 <= i < rest.len() && rest[i].key_code == last.key_code;
            assert(caps[i].key_code == caps[caps.len() - 1].key_code);
        }
        assert(lookup_map(caps).dom() =~= lookup_map(rest).dom().insert(last.key_code));
    } else {
        assert(lookup_map(caps).dom() =~= Set::<KeyCode>::empty());
    }
}

/// What the lookup of `caps` holds: exactly the keys of `caps`, each with the last key cap
/// of `caps` for it.
pub proof fn law_lookup_later_wins(caps: Seq<KeyCap>)
    ensures
        forall|k: KeyCode|
            #[trigger] lookup_map(caps).contains_key(k) <==> exists|i: int| 0 <= i < caps.len() && caps[i].key_code == k,
        forall|i: int|
            0 <= i < caps.len() && (forall|j: int| i < j < caps.len() ==> caps[j].key_code != caps[i].key_code)
                ==> lookup_map(caps)[(#[trigger] caps[i]).key_code] == caps[i],
    decreases caps.len(),
{
    if caps.len() > 0 {
        let rest = caps.drop_last();
        law_lookup_later_wins(rest);
        let last = caps.last();
        assert(lookup_map(caps) == lookup_map(rest).insert(last.key_code, last));
        assert forall|k: KeyCode|
            #[trigger] lookup_map(caps).contains_key(k) <==> exists|i: int| 0 <= i < caps.len() && caps[i].key_code == k by {
            if lookup_map(caps).contains_key(k) && k != last.key_code {
                assert(lookup_map(rest).contains_key(k));
                let i = choose|i: int| 0 <= i < rest.len() && rest[i].key_code == k;
                assert(caps[i] == rest[i]);
            }
            if exists|i: int| 0 <= i < caps.len() && caps[i].key_code == k {
                let i = choose|i: int| 0 <= i < caps.len() && caps[i].key_code == k;
                if i < caps.len() - 1 {
                    assert(rest[i] == caps[i]);
                    assert(lookup_map(rest).contains_key(rest[i].key_code));
                }
            }
        }
        assert forall|i: int|
            0 <= i < caps.len() && (forall|j: int| i < j < caps.len() ==> caps[j].key_code != caps[i].key_code)
                implies lookup_map(caps)[(#[trigger] caps[i]).key_code] == caps[i] by {
            if i < caps.len() - 1 {
                assert(caps[caps.len() - 1].key_code != caps[i].key_code);
                assert(rest[i] == caps[i]);
                assert forall|j: int| i < j < rest.len() implies rest[j].key_code != rest[i].key_code by {
                    assert(rest[j] == caps[j]);
                }
            }
        }
    }
}

/// A keyboard layout: where each key is drawn, and which keys make up the keyboard.
pub trait KeyboardLayout {
    /// Whether the layout can place `key_code`.
    spec fn places(&self, key_code: KeyCode) -> bool;

    /// Where `key_code` is drawn.
    spec fn spec_key_area(&self, key_code: KeyCode) -> Rect;

    /// The top left corner of the rectangle where `key_code` is drawn.
    spec fn spec_key_position(&self, key_code: KeyCode) -> Position;

    /// The key caps of the keyboard, in drawing order.
    spec fn spec_layout(&self) -> Seq<KeyCap>;

    fn key_area(&self, key_code: KeyCode) -> (r: Rect)
        requires
            self.places(key_code),
        ensures
            r == self.spec_key_area(key_code),
    ;

    fn key_position(&self, key_code: KeyCode) -> (r: Position)
        requires
            self.places(key_code),
        ensures
            r == self.spec_key_position(key_code),
    ;

    fn layout(&self) -> (r: Vec<KeyCap>)
        ensures
            r@ == self.spec_layout(),
    ;

    /// The key cap of the character key `c`.
    fn key_cap(&self, c: char) -> (r: KeyCap)
        requires
            self.places(KeyCode::Char(c)),
        ensures
            r == (KeyCap { key_code: KeyCode::Char(c), area: self.spec_key_area(KeyCode::Char(c)) }),
    {
        let key_code = KeyCode::Char(c);
        KeyCap::new(key_code, self.key_area(key_code))
    }

    /// The key caps of the layout, found by key.
    fn key_cap_lookup(&self) -> (r: KeyCapLookup)
        ensures
            r@ == lookup_map(self.spec_layout()),
    {
        let caps = self.layout();
        let mut lookup = KeyCapLookup::new();
        let mut i: usize = 0;
        while i < caps.len()
            invariant
                i <= caps@.len(),
                lookup@ == lookup_map(caps@.take(i as int)),
            decreases caps@.len() - i,
        {
            lookup.insert(caps[i]);
            proof {
                assert(caps@.take(i + 1).drop_last() =~= caps@.take(i as int));
            }
            i = i + 1;
        }
        proof {
            assert(caps@.take(caps@.len() as int) =~= caps@);
        }
        lookup
    }
}

/// The ANSI tenkeyless (87 keys) keyboard.
#[derive(Debug, Clone, Copy, Default)]
pub struct AnsiKeyboardTklLayout;

/// The column of function key `n`.
fn fn_key_column(n: u8) -> (r: u16)
    requires
        n >= 1,
    ensures
        r == fn_key_x(n),
{
    (KEY_W - 1) + 2 * ((n as u16 - 1) / 4) + (n as u16) * (KEY_W - 1)
}

impl KeyboardLayout for AnsiKeyboardTklLayout {
    open spec fn places(&self, key_code: KeyCode) -> bool {
        ansi_places(key_code)
    }

    open spec fn spec_key_area(&self, key_code: KeyCode) -> Rect {
        ansi_key_area(key_code)
    }

    open spec fn spec_key_position(&self, key_code: KeyCode) -> Position {
        ansi_key_position(key_code)
    }

    open spec fn spec_layout(&self) -> Seq<KeyCap> {
        ansi_layout_codes().map_values(|k: KeyCode| KeyCap { key_code: k, area: ansi_key_area(k) })
    }

    fn key_area(&self, key_code: KeyCode) -> (r: Rect) {
        let size = match key_code {
            KeyCode::Char(' ') => Size::new(SPACE_W, KEY_H),
            KeyCode::Char('\\') => Size::new(9, KEY_H),
            KeyCode::Tab => Size::new(TAB_W, KEY_H),
            KeyCode::CapsLock => Size::new(CAPSLOCK_W, KEY_H),
            KeyCode::Backspace => Size::new(KEY_W * 2 - 2, KEY_H),
            KeyCode::Enter => Size::new(13, KEY_H),
            KeyCode::Modifier(c) => match c {
                ModifierKeyCode::LeftShift => Size::new(SHIFT_L_W, KEY_H),
                ModifierKeyCode::RightShift => Size::new(SHIFT_R_W, KEY_H),
                ModifierKeyCode::LeftControl => Size::new(CTRL_L_W, KEY_H),
                ModifierKeyCode::LeftSuper => Size::new(SUPER_W, KEY_H),
                ModifierKeyCode::LeftHyper => Size::new(SUPER_W, KEY_H),
                ModifierKeyCode::LeftMeta => Size::new(SUPER_W, KEY_H),
                ModifierKeyCode::LeftAlt => Size::new(ALT_W, KEY_H),
                ModifierKeyCode::RightAlt => Size::new(ALT_W, KEY_H),
                ModifierKeyCode::RightControl => Size::new(CTRL_R_W, KEY_H),
                ModifierKeyCode::RightSuper => Size::new(SUPER_W, KEY_H),
                ModifierKeyCode::RightHyper => Size::new(SUPER_W, KEY_H),
                ModifierKeyCode::RightMeta => Size::new(SUPER_W, KEY_H),
                _ => Size::new(KEY_W, KEY_H),
            },
            _ => Size::new(KEY_W, KEY_H),
        };
        Rect::from_parts(self.key_position(key_code), size)
    }

    fn key_position(&self, key_code: KeyCode) -> (r: Position) {
        let key_offset_2: u16 = (KEY_W - 1) * 2;
        let (x, y): (u16, u16) = match key_code {
            KeyCode::Esc => (0, 0),
            KeyCode::F(n) => (fn_key_column(n), 0),
            KeyCode::Char(c) => {
                if let Some(p) = char_position(number_row_chars(), c, 0, 3) {
                    p
                } else if let Some(p) = char_position(top_row_chars(), c, TAB_W - 1, 5) {
                    p
                } else if let Some(p) = char_position(middle_row_chars(), c, CAPSLOCK_W - 1, 7) {
                    p
                } else if let Some(p) = char_position(bottom_row_chars(), c, SHIFT_L_W - 1, 9) {
                    p
                } else if c == ' ' {
                    (CTRL_L_W + SUPER_W + ALT_W - 3, 11)
                } else {
                    (0, 0)
                }
            },
            KeyCode::Modifier(m) => match m {
                ModifierKeyCode::LeftShift => (0, 9),
                ModifierKeyCode::RightShift => (SHIFT_L_W - 1 + (KEY_W - 1) * 10, 9),
                ModifierKeyCode::LeftControl => (0, 11),
                ModifierKeyCode::LeftSuper => (CTRL_L_W - 1, 11),
                ModifierKeyCode::LeftHyper => (CTRL_L_W - 1, 11),
                ModifierKeyCode::LeftMeta => (CTRL_L_W - 1, 11),
                ModifierKeyCode::LeftAlt => (CTRL_L_W + SUPER_W - 2, 11),
                ModifierKeyCode::RightAlt => (CTRL_L_W + SUPER_W + ALT_W + SPACE_W - 4, 11),
                ModifierKeyCode::RightControl => (CTRL_L_W + SUPER_W + ALT_W + SPACE_W + ALT_W + MENU_W + KEY_W - 7, 11),
                ModifierKeyCode::RightSuper => (CTRL_L_W + SUPER_W + ALT_W + SPACE_W + ALT_W + MENU_W - 6, 11),
                ModifierKeyCode::RightHyper => (CTRL_L_W + SUPER_W + ALT_W + SPACE_W + ALT_W + MENU_W - 6, 11),
                ModifierKeyCode::RightMeta => (CTRL_L_W + SUPER_W + ALT_W + SPACE_W + ALT_W + MENU_W - 6, 11),
                _ => (0, 0),
            },
            KeyCode::Backspace => ((KEY_W - 1) * 13, 3),
            KeyCode::Tab => (0, 5),
            KeyCode::CapsLock => (0, 7),
            KeyCode::Enter => (CAPSLOCK_W - 1 + (KEY_W - 1) * 11, 7),
            KeyCode::Left => (NAV_KEY_X_START, 11),
            KeyCode::Right => (NAV_KEY_X_START + key_offset_2, 11),
            KeyCode::Up => (NAV_KEY_X_START + (KEY_W - 1), 9),
            KeyCode::Down => (NAV_KEY_X_START + (KEY_W - 1), 11),
            KeyCode::Home => (NAV_KEY_X_START + (KEY_W - 1), 3),
            KeyCode::End => (NAV_KEY_X_START + (KEY_W - 1), 5),
            KeyCode::PageUp => (NAV_KEY_X_START + key_offset_2, 3),
            KeyCode::PageDown => (NAV_KEY_X_START + key_offset_2, 5),
            KeyCode::BackTab => (0, 0),
            KeyCode::Delete => (NAV_KEY_X_START, 5),
            KeyCode::Insert => (NAV_KEY_X_START, 3),
            KeyCode::Null => (0, 0),
            KeyCode::ScrollLock => (NAV_KEY_X_START + KEY_W - 1, 0),
            KeyCode::NumLock => (0, 0),
            KeyCode::PrintScreen => (NAV_KEY_X_START, 0),
            KeyCode::Pause => (NAV_KEY_X_START + key_offset_2, 0),
            KeyCode::Menu => (CTRL_L_W + SUPER_W + ALT_W + SPACE_W + ALT_W - 5, 11),
            KeyCode::KeypadBegin => (0, 0),
            KeyCode::Media(_) => (0, 0),
        };
        assert(x == ansi_key_x(key_code));
        assert(y == ansi_key_y(key_code));
        let r = Position::new(x, y);
        assert(r == ansi_key_position(key_code));
        assert(r == self.spec_key_position(key_code));
        r
    }

    fn layout(&self) -> (r: Vec<KeyCap>) {
        let codes = ansi_layout_code_array();
        let mut caps: Vec<KeyCap> = Vec::new();
        let mut i: usize = 0;
        while i < 87
            invariant
                codes@ == ansi_layout_codes(),
                i <= 87,
                caps@ == self.spec_layout().take(i as int),
            decreases 87 - i,
        {
            let key_code = codes[i];
            assert(ansi_places(key_code));
            caps.push(KeyCap::new(key_code, self.key_area(key_code)));
            assert(caps@ =~= self.spec_layout().take(i + 1));
            i = i + 1;
        }
        assert(self.spec_layout().take(87) =~= self.spec_layout());
        caps
    }
}

/// The keys whose cap is drawn on the palette's mantle tone rather than on the cap style's
/// own background: Esc, the modifiers, the wide keys of the main block, F5 to F8, the arrows
/// and the navigation block.
pub open spec fn has_accent_cap(key_code: KeyCode) -> bool {
    match key_code {
        KeyCode::Esc | KeyCode::Tab | KeyCode::CapsLock | KeyCode::Modifier(_) | KeyCode::Menu
        | KeyCode::Enter | KeyCode::Backspace => true,
        KeyCode::Char(c) => c == ' ',
        KeyCode::F(n) => 5 <= n <= 8,
        KeyCode::Left | KeyCode::Right | KeyCode::Up | KeyCode::Down => true,
        KeyCode::Delete | KeyCode::Insert | KeyCode::Home | KeyCode::End | KeyCode::PageUp
        | KeyCode::PageDown | KeyCode::PrintScreen | KeyCode::ScrollLock | KeyCode::Pause => true,
        _ => false,
    }
}

/// The style that the cap of `key_code` is drawn with, given the widget's cap style.
pub open spec fn cap_style_for(key_code: KeyCode, cap_style: Style) -> Style {
    if has_accent_cap(key_code) {
        Style { bg: Some(mocha().mantle), ..cap_style }
    } else {
        cap_style
    }
}

/// What is written on a key cap: its label, where it stands, and how it is drawn.
pub struct Keypad {
    pub label: String,
    pub alignment: Alignment,
    pub style: Style,
    pub area: Rect,
}

/// One key cap, ready to be drawn.
#[derive(Debug, Clone, Copy, PartialEq, Eq, Structural)]
pub struct KeyCapWidget {
    pub key_cap: KeyCap,
    pub cap_style: Style,
    pub border_style: Style,
}

pub open spec fn key_cap_widget(key_cap: KeyCap, cap_style: Style, border_style: Style) -> KeyCapWidget {
    KeyCapWidget { key_cap, cap_style: cap_style_for(key_cap.key_code, cap_style), border_style }
}

impl KeyCapWidget {
    pub fn new(key_cap: KeyCap, cap_style: Style, border_style: Style) -> (r: KeyCapWidget)
        ensures
            r == key_cap_widget(key_cap, cap_style, border_style),
    {
        let colors = Catppuccin::new();
        let other_color = colors.mantle;
        let cap_style = match key_cap.key_code {
            KeyCode::Esc | KeyCode::Tab | KeyCode::CapsLock | KeyCode::Modifier(_) | KeyCode::Menu
            | KeyCode::Enter | KeyCode::Backspace => cap_style.bg(other_color),
            KeyCode::Char(' ') => cap_style.bg(other_color),
            KeyCode::F(n) if 5 <= n && n <= 8 => cap_style.bg(other_color),
            KeyCode::Left | KeyCode::Right | KeyCode::Up | KeyCode::Down => cap_style.bg(other_color),
            KeyCode::Delete | KeyCode::Insert | KeyCode::Home | KeyCode::End | KeyCode::PageUp
            | KeyCode::PageDown | KeyCode::PrintScreen | KeyCode::ScrollLock | KeyCode::Pause => cap_style.bg(
                other_color,
            ),
            _ => cap_style,
        };
        KeyCapWidget { key_cap, cap_style, border_style }
    }

    /// What is written on the key cap: the key's label, centered if it is one character
    /// long, in the cap style, inside the cap's border.
    pub fn keypad(&self) -> (r: Keypad)
        ensures
            r.label@ == key_label(self.key_cap.key_code),
            r.alignment == label_alignment(key_label(self.key_cap.key_code)),
            r.style == self.cap_style,
            r.area == inner_rect(self.key_cap.area, 1, 1),
    {
        let label = key_string(self.key_cap.key_code);
        let alignment = alignment_of(&label);
        Keypad { label, alignment, style: self.cap_style, area: self.key_cap.area.inner(1, 1) }
    }
}

/// A keyboard: key caps drawn with a cap style and a border style.
pub struct KeyboardWidget {
    keys: Vec<KeyCap>,
    cap_style: Style,
    border_style: Style,
}

impl KeyboardWidget {
    pub closed spec fn spec_keys(&self) -> Seq<KeyCap> {
        self.keys@
    }

    pub closed spec fn spec_cap_style(&self) -> Style {
        self.cap_style
    }

    pub closed spec fn spec_border_style(&self) -> Style {
        self.border_style
    }

    /// A keyboard drawn in the palette's colors: caps with mantle text on crust, borders in
    /// mantle.
    pub fn new(keys: Vec<KeyCap>) -> (r: KeyboardWidget)
        ensures
            r.spec_keys() == keys@,
            r.spec_cap_style() == (Style { fg: Some(mocha().mantle), bg: Some(mocha().crust), ..crate::styling::plain_style() }),
            r.spec_border_style() == (Style { fg: Some(mocha().mantle), ..crate::styling::plain_style() }),
    {
        let colors = Catppuccin::new();
        Self::new_with_style(
            keys,
            Style::default().fg(colors.mantle).bg(colors.crust),
            Style::default().fg(colors.mantle),
        )
    }

    pub fn new_with_style(keys: Vec<KeyCap>, cap_style: Style, border_style: Style) -> (r: KeyboardWidget)
        ensures
            r.spec_keys() == keys@,
            r.spec_cap_style() == cap_style,
            r.spec_border_style() == border_style,
    {
        KeyboardWidget { keys, cap_style, border_style }
    }

    /// The widgets of the key caps, in the order of the keys.
    pub fn key_cap_widgets(&self) -> (r: Vec<KeyCapWidget>)
        ensures
            r@.len() == self.spec_keys().len(),
            forall|i: int|
                0 <= i < r@.len() ==> r@[i] == key_cap_widget(
                    #[trigger] self.spec_keys()[i],
                    self.spec_cap_style(),
                    self.spec_border_style(),
                ),
    {
        let mut widgets: Vec<KeyCapWidget> = Vec::new();
        let mut i: usize = 0;
        while i < self.keys.len()
            invariant
                i <= self.keys@.len(),
                widgets@.len() == i,
                forall|j: int|
                    0 <= j < i ==> widgets@[j] == key_cap_widget(
                        #[trigger] self.keys@[j],
                        self.cap_style,
                        self.border_style,
                    ),
            decreases self.keys@.len() - i,
        {
            widgets.push(KeyCapWidget::new(self.keys[i], self.cap_style, self.border_style));
            i = i + 1;
        }
        widgets
    }
}

/// The place in the ANSI layout's drawing order of each of its keys; keys that it does not
/// hold get places after its last one.
pub open spec fn ansi_slot(key_code: KeyCode) -> int {
    match key_code {
        KeyCode::Esc => 0,
        KeyCode::F(n) => if 1 <= n <= 12 { n as int } else { 100 },
        KeyCode::Char(c) => char_slot(c),
        KeyCode::Backspace => 26,
        KeyCode::Tab => 27,
        KeyCode::CapsLock => 41,
        KeyCode::Enter => 53,
        KeyCode::Modifier(ModifierKeyCode::LeftShift) => 54,
        KeyCode::Modifier(ModifierKeyCode::RightShift) => 65,
        KeyCode::Modifier(ModifierKeyCode::LeftControl) => 66,
        KeyCode::Modifier(ModifierKeyCode::LeftSuper) => 67,
        KeyCode::Modifier(ModifierKeyCode::LeftAlt) => 68,
        KeyCode::Modifier(ModifierKeyCode::RightAlt) => 70,
        KeyCode::Menu => 71,
        KeyCode::Modifier(ModifierKeyCode::RightSuper) => 72,
        KeyCode::Modifier(ModifierKeyCode::RightControl) => 73,
        KeyCode::PrintScreen => 74,
        KeyCode::ScrollLock => 75,
        KeyCode::Pause => 76,
        KeyCode::Insert => 77,
        KeyCode::Home => 78,
        KeyCode::PageUp => 79,
        KeyCode::Delete => 80,
        KeyCode::End => 81,
        KeyCode::PageDown => 82,
        KeyCode::Up => 83,
        KeyCode::Left => 84,
        KeyCode::Down => 85,
        KeyCode::Right => 86,
        _ => 100,
    }
}

pub open spec fn char_slot(c: char) -> int {
    match c {
        '`' => 13,
        '1' => 14,
        '2' => 15,
        '3' => 16,
        '4' => 17,
        '5' => 18,
        '6' => 19,
        '7' => 20,
        '8' => 21,
        '9' => 22,
        '0' => 23,
        '-' => 24,
        '=' => 25,
        'q' => 28,
        'w' => 29,
        'e' => 30,
        'r' => 31,
        't' => 32,
        'y' => 33,
        'u' => 34,
        'i' => 35,
        'o' => 36,
        'p' => 37,
        '[' => 38,
        ']' => 39,
        '\\' => 40,
        'a' => 42,
        's' => 43,
        'd' => 44,
        'f' => 45,
        'g' => 46,
        'h' => 47,
        'j' => 48,
        'k' => 49,
        'l' => 50,
        ';' => 51,
        '\'' => 52,
        'z' => 55,
        'x' => 56,
        'c' => 57,
        'v' => 58,
        'b' => 59,
        'n' => 60,
        'm' => 61,
        ',' => 62,
        '.' => 63,
        '/' => 64,
        ' ' => 69,
        _ => 100,
    }
}

/// Each key of the ANSI layout sits at its own place in the drawing order, so no key occurs
/// twice.
pub proof fn lemma_ansi_slots()
    ensures
        forall|i: int| 0 <= i < 87 ==> ansi_slot(#[trigger] ansi_layout_codes()[i]) == i,
{
    let codes = ansi_layout_codes();
    // The solver reads an element of the literal only at a known index, so the range is
    // split into its indices.
    assert forall|i: int| 0 <= i < 87 implies ansi_slot(#[trigger] codes[i]) == i by {
        if i == 0 {
            assert(ansi_slot(codes[0]) == 0);
        } else if i == 1 {
            assert(ansi_slot(codes[1]) == 1);
        } else if i == 2 {
            assert(ansi_slot(codes[2]) == 2);
        } else if i == 3 {
            assert(ansi_slot(codes[3]) == 3);
        } else if i == 4 {
            assert(ansi_slot(codes[4]) == 4);
        } else if i == 5 {
            assert(ansi_slot(codes[5]) == 5);
        } else if i == 6 {
            assert(ansi_slot(codes[6]) == 6);
        } else if i == 7 {
            assert(ansi_slot(codes[7]) == 7);
        } else if i == 8 {
            assert(ansi_slot(codes[8]) == 8);
        } else if i == 9 {
            assert(ansi_slot(codes[9]) == 9);
        } else if i == 10 {
            assert(ansi_slot(codes[10]) == 10);
        } else if i == 11 {
            assert(ansi_slot(codes[11]) == 11);
        } else if i == 12 {
            assert(ansi_slot(codes[12]) == 12);
        } else if i == 13 {
            assert(ansi_slot(codes[13]) == 13);
        } else if i == 14 {
            assert(ansi_slot(codes[14]) == 14);
        } else if i == 15 {
            assert(ansi_slot(codes[15]) == 15);
        } else if i == 16 {
            assert(ansi_slot(codes[16]) == 16);
        } else if i == 17 {
            assert(ansi_slot(codes[17]) == 17);
        } else if i == 18 {
            assert(ansi_slot(codes[18]) == 18);
        } else if i == 19 {
            assert(ansi_slot(codes[19]) == 19);
        } else if i == 20 {
            assert(ansi_slot(codes[20]) == 20);
        } else if i == 21 {
            assert(ansi_slot(codes[21]) == 21);
        } else if i == 22 {
            assert(ansi_slot(codes[22]) == 22);
        } else if i == 23 {
            assert(ansi_slot(codes[23]) == 23);
        } else if i == 24 {
            assert(ansi_slot(codes[24]) == 24);
        } else if i == 25 {
            assert(ansi_slot(codes[25]) == 25);
        } else if i == 26 {
            assert(ansi_slot(codes[26]) == 26);
        } else if i == 27 {
            assert(ansi_slot(codes[27]) == 27);
        } else if i == 28 {
            assert(ansi_slot(codes[28]) == 28);
        } else if i == 29 {
            assert(ansi_slot(codes[29]) == 29);
        } else if i == 30 {
            assert(ansi_slot(codes[30]) == 30);
        } else if i == 31 {
            assert(ansi_slot(codes[31]) == 31);
        } else if i == 32 {
            assert(ansi_slot(codes[32]) == 32);
        } else if i == 33 {
            assert(ansi_slot(codes[33]) == 33);
        } else if i == 34 {
            assert(ansi_slot(codes[34]) == 34);
        } else if i == 35 {
            assert(ansi_slot(codes[35]) == 35);
        } else if i == 36 {
            assert(ansi_slot(codes[36]) == 36);
        } else if i == 37 {
            assert(ansi_slot(codes[37]) == 37);
        } else if i == 38 {
            assert(ansi_slot(codes[38]) == 38);
        } else if i == 39 {
            assert(ansi_slot(codes[39]) == 39);
        } else if i == 40 {
            assert(ansi_slot(codes[40]) == 40);
        } else if i == 41 {
            assert(ansi_slot(codes[41]) == 41);
        } else if i == 42 {
            assert(ansi_slot(codes[42]) == 42);
        } else if i == 43 {
            assert(ansi_slot(codes[43]) == 43);
        } else if i == 44 {
            assert(ansi_slot(codes[44]) == 44);
        } else if i == 45 {
            assert(ansi_slot(codes[45]) == 45);
        } else if i == 46 {
            assert(ansi_slot(codes[46]) == 46);
        } else if i == 47 {
            assert(ansi_slot(codes[47]) == 47);
        } else if i == 48 {
            assert(ansi_slot(codes[48]) == 48);
        } else if i == 49 {
            assert(ansi_slot(codes[49]) == 49);
        } else if i == 50 {
            assert(ansi_slot(codes[50]) == 50);
        } else if i == 51 {
            assert(ansi_slot(codes[51]) == 51);
        } else if i == 52 {
            assert(ansi_slot(codes[52]) == 52);
        } else if i == 53 {
            assert(ansi_slot(codes[53]) == 53);
        } else if i == 54 {
            assert(ansi_slot(codes[54]) == 54);
        } else if i == 55 {
            assert(ansi_slot(codes[55]) == 55);
        } else if i == 56 {
            assert(ansi_slot(codes[56]) == 56);
        } else if i == 57 {
            assert(ansi_slot(codes[57]) == 57);
        } else if i == 58 {
            assert(ansi_slot(codes[58]) == 58);
        } else if i == 59 {
            assert(ansi_slot(codes[59]) == 59);
        } else if i == 60 {
            assert(ansi_slot(codes[60]) == 60);
        } else if i == 61 {
            assert(ansi_slot(codes[61]) == 61);
        } else if i == 62 {
            assert(ansi_slot(codes[62]) == 62);
        } else if i == 63 {
            assert(ansi_slot(codes[63]) == 63);
        } else if i == 64 {
            assert(ansi_slot(codes[64]) == 64);
        } else if i == 65 {
            assert(ansi_slot(codes[65]) == 65);
        } else if i == 66 {
            assert(ansi_slot(codes[66]) == 66);
        } else if i == 67 {
            assert(ansi_slot(codes[67]) == 67);
        } else if i == 68 {
            assert(ansi_slot(codes[68]) == 68);
        } else if i == 69 {
            assert(ansi_slot(codes[69]) == 69);
        } else if i == 70 {
            assert(ansi_slot(codes[70]) == 70);
        } else if i == 71 {
            assert(ansi_slot(codes[71]) == 71);
        } else if i == 72 {
            assert(ansi_slot(codes[72]) == 72);
        } else if i == 73 {
            assert(ansi_slot(codes[73]) == 73);
        } else if i == 74 {
            assert(ansi_slot(codes[74]) == 74);
        } else if i == 75 {
            assert(ansi_slot(codes[75]) == 75);
        } else if i == 76 {
            assert(ansi_slot(codes[76]) == 76);
        } else if i == 77 {
            assert(ansi_slot(codes[77]) == 77);
        } else if i == 78 {
            assert(ansi_slot(codes[78]) == 78);
        } else if i == 79 {
            assert(ansi_slot(codes[79]) == 79);
        } else if i == 80 {
            assert(ansi_slot(codes[80]) == 80);
        } else if i == 81 {
            assert(ansi_slot(codes[81]) == 81);
        } else if i == 82 {
            assert(ansi_slot(codes[82]) == 82);
        } else if i == 83 {
            assert(ansi_slot(codes[83]) == 83);
        } else if i == 84 {
            assert(ansi_slot(codes[84]) == 84);
        } else if i == 85 {
            assert(ansi_slot(codes[85]) == 85);
        } else if i == 86 {
            assert(ansi_slot(codes[86]) == 86);
        }
    }
}

/// Whether no two key caps of `caps` are for the same key.
pub open spec fn distinct_keys(caps: Seq<KeyCap>) -> bool {
    forall|i: int, j: int| 0 <= i < caps.len() && 0 <= j < caps.len() && i != j ==> caps[i].key_code != caps[j].key_code
}

/// Where no key occurs twice, the lookup holds exactly the keys of `caps`, each with its
/// key cap.
pub proof fn lemma_lookup_distinct(caps: Seq<KeyCap>)
    requires
        distinct_keys(caps),
    ensures
        forall|i: int| 0 <= i < caps.len() ==> #[trigger] lookup_map(caps).contains_key(caps[i].key_code)
            && lookup_map(caps)[caps[i].key_code] == caps[i],
        forall|k: KeyCode| #[trigger] lookup_map(caps).contains_key(k) ==> exists|i: int| 0 <= i < caps.len() && caps[i].key_code == k,
    decreases caps.len(),
{
    if caps.len() > 0 {
        let rest = caps.drop_last();
        assert(distinct_keys(rest));
        lemma_lookup_distinct(rest);
        let last = caps.last();
        assert(lookup_map(caps) == lookup_map(rest).insert(last.key_code, last));
        assert forall|i: int| 0 <= i < caps.len() implies #[trigger] lookup_map(caps).contains_key(caps[i].key_code)
            && lookup_map(caps)[caps[i].key_code] == caps[i] by {
            if i < caps.len() - 1 {
                assert(rest[i] == caps[i]);
                assert(caps[i].key_code != caps[caps.len() - 1].key_code);
                assert(lookup_map(rest).contains_key(rest[i].key_code));
            }
        }
        assert forall|k: KeyCode| #[trigger] lookup_map(caps).contains_key(k) implies exists|i: int| 0 <= i < caps.len() && caps[i].key_code == k by {
            if k != last.key_code {
                assert(lookup_map(rest).contains_key(k));
                let i = choose|i: int| 0 <= i < rest.len() && rest[i].key_code == k;
                assert(caps[i] == rest[i]);
            } else {
                assert(caps[caps.len() - 1].key_code == k);
            }
        }
    }
}

/// The lookup of the ANSI keyboard finds each key of the layout with the key cap that the
/// layout draws for it, and no other key: 87 keys in all.
pub proof fn law_ansi_lookup_finds_layout(layout: AnsiKeyboardTklLayout)
    ensures
        forall|i: int| 0 <= i < layout.spec_layout().len() ==> #[trigger] lookup_map(layout.spec_layout()).contains_key(
            layout.spec_layout()[i].key_code,
        ) && lookup_map(layout.spec_layout())[layout.spec_layout()[i].key_code] == layout.spec_layout()[i],
        forall|k: KeyCode| #[trigger] lookup_map(layout.spec_layout()).contains_key(k) ==> exists|i: int|
            0 <= i < layout.spec_layout().len() && layout.spec_layout()[i].key_code == k,
        lookup_map(layout.spec_layout()).dom().finite(),
        lookup_map(layout.spec_layout()).dom().len() == 87,
{
    let caps = layout.spec_layout();
    lemma_ansi_slots();
    assert(caps.len() == 87);
    assert forall|i: int, j: int| 0 <= i < caps.len() && 0 <= j < caps.len() && i != j implies caps[i].key_code != caps[j].key_code by {
        assert(caps[i].key_code == ansi_layout_codes()[i]);
        assert(caps[j].key_code == ansi_layout_codes()[j]);
        assert(ansi_slot(ansi_layout_codes()[i]) == i);
        assert(ansi_slot(ansi_layout_codes()[j]) == j);
    }
    lemma_lookup_distinct(caps);
    lemma_lookup_len(caps);
}

/// The character rows of the main block, top to bottom.
pub open spec fn char_row(r: int) -> Seq<char> {
    if r == 0 {
        number_row()
    } else if r == 1 {
        top_row()
    } else if r == 2 {
        middle_row()
    } else {
        bottom_row()
    }
}

/// Where the first character key of row `r` starts: after the key that opens the row.
pub open spec fn char_row_x(r: int) -> int {
    if r == 0 {
        0
    } else if r == 1 {
        TAB_W - 1
    } else if r == 2 {
        CAPSLOCK_W - 1
    } else {
        SHIFT_L_W - 1
    }
}

/// The screen row of character row `r`.
pub open spec fn char_row_y(r: int) -> int {
    3 + 2 * r
}

/// The character key at index `k` of row `r` stands `k` key widths (less the shared border
/// column) right of the row's first character key.
proof fn lemma_char_row_key(r: int, k: int)
    requires
        0 <= r < 4,
        0 <= k < char_row(r).len(),
    ensures
        ansi_key_x(KeyCode::Char(char_row(r)[k])) == char_row_x(r) + (KEY_W - 1) * k,
        ansi_key_y(KeyCode::Char(char_row(r)[k])) == char_row_y(r),
{
    reveal_with_fuel(index_from, 14);
    if r == 0 && k == 0 {
        assert(char_row(0)[0] == char_row(0)[0]);
    } else if r == 0 && k == 1 {
        assert(char_row(0)[1] == char_row(0)[1]);
    } else if r == 0 && k == 2 {
        assert(char_row(0)[2] == char_row(0)[2]);
    } else if r == 0 && k == 3 {
        assert(char_row(0)[3] == char_row(0)[3]);
    } else if r == 0 && k == 4 {
        assert(char_row(0)[4] == char_row(0)[4]);
    } else if r == 0 && k == 5 {
        assert(char_row(0)[5] == char_row(0)[5]);
    } else if r == 0 && k == 6 {
        assert(char_row(0)[6] == char_row(0)[6]);
    } else if r == 0 && k == 7 {
        assert(char_row(0)[7] == char_row(0)[7]);
    } else if r == 0 && k == 8 {
        assert(char_row(0)[8] == char_row(0)[8]);
    } else if r == 0 && k == 9 {
        assert(char_row(0)[9] == char_row(0)[9]);
    } else if r == 0 && k == 10 {
        assert(char_row(0)[10] == char_row(0)[10]);
    } else if r == 0 && k == 11 {
        assert(char_row(0)[11] == char_row(0)[11]);
    } else if r == 0 && k == 12 {
        assert(char_row(0)[12] == char_row(0)[12]);
    } else if r == 1 && k == 0 {
        assert(char_row(1)[0] == char_row(1)[0]);
    } else if r == 1 && k == 1 {
        assert(char_row(1)[1] == char_row(1)[1]);
    } else if r == 1 && k == 2 {
        assert(char_row(1)[2] == char_row(1)[2]);
    } else if r == 1 && k == 3 {
        assert(char_row(1)[3] == char_row(1)[3]);
    } else if r == 1 && k == 4 {
        assert(char_row(1)[4] == char_row(1)[4]);
    } else if r == 1 && k == 5 {
        assert(char_row(1)[5] == char_row(1)[5]);
    } else if r == 1 && k == 6 {
        assert(char_row(1)[6] == char_row(1)[6]);
    } else if r == 1 && k == 7 {
        assert(char_row(1)[7] == char_row(1)[7]);
    } else if r == 1 && k == 8 {
        assert(char_row(1)[8] == char_row(1)[8]);
    } else if r == 1 && k == 9 {
        assert(char_row(1)[9] == char_row(1)[9]);
    } else if r == 1 && k == 10 {
        assert(char_row(1)[10] == char_row(1)[10]);
    } else if r == 1 && k == 11 {
        assert(char_row(1)[11] == char_row(1)[11]);
    } else if r == 1 && k == 12 {
        assert(char_row(1)[12] == char_row(1)[12]);
    } else if r == 2 && k == 0 {
        assert(char_row(2)[0] == char_row(2)[0]);
    } else if r == 2 && k == 1 {
        assert(char_row(2)[1] == char_row(2)[1]);
    } else if r == 2 && k == 2 {
        assert(char_row(2)[2] == char_row(2)[2]);
    } else if r == 2 && k == 3 {
        assert(char_row(2)[3] == char_row(2)[3]);
    } else if r == 2 && k == 4 {
        assert(char_row(2)[4] == char_row(2)[4]);
    } else if r == 2 && k == 5 {
        assert(char_row(2)[5] == char_row(2)[5]);
    } else if r == 2 && k == 6 {
        assert(char_row(2)[6] == char_row(2)[6]);
    } else if r == 2 && k == 7 {
        assert(char_row(2)[7] == char_row(2)[7]);
    } else if r == 2 && k == 8 {
        assert(char_row(2)[8] == char_row(2)[8]);
    } else if r == 2 && k == 9 {
        assert(char_row(2)[9] == char_row(2)[9]);
    } else if r == 2 && k == 10 {
        assert(char_row(2)[10] == char_row(2)[10]);
    } else if r == 3 && k == 0 {
        assert(char_row(3)[0] == char_row(3)[0]);
    } else if r == 3 && k == 1 {
        assert(char_row(3)[1] == char_row(3)[1]);
    } else if r == 3 && k == 2 {
        assert(char_row(3)[2] == char_row(3)[2]);
    } else if r == 3 && k == 3 {
        assert(char_row(3)[3] == char_row(3)[3]);
    } else if r == 3 && k == 4 {
        assert(char_row(3)[4] == char_row(3)[4]);
    } else if r == 3 && k == 5 {
        assert(char_row(3)[5] == char_row(3)[5]);
    } else if r == 3 && k == 6 {
        assert(char_row(3)[6] == char_row(3)[6]);
    } else if r == 3 && k == 7 {
        assert(char_row(3)[7] == char_row(3)[7]);
    } else if r == 3 && k == 8 {
        assert(char_row(3)[8] == char_row(3)[8]);
    } else if r == 3 && k == 9 {
        assert(char_row(3)[9] == char_row(3)[9]);
    }
}

/// The space bar sits in the bottom row, after the left control, super and alt keys.
proof fn lemma_space_key()
    ensures
        ansi_key_x(KeyCode::Char(' ')) == CTRL_L_W + SUPER_W + ALT_W - 3,
        ansi_key_y(KeyCode::Char(' ')) == 11,
{
    reveal_with_fuel(index_from, 14);
}

/// Whether key `i` of the ANSI layout opens a row of the main block.
pub open spec fn opens_main_row(i: int) -> bool {
    i == 13 || i == 27 || i == 41 || i == 54 || i == 66
}

/// Whether key `i` of the ANSI layout closes a row of the main block.
pub open spec fn closes_main_row(i: int) -> bool {
    i == 26 || i == 40 || i == 53 || i == 65 || i == 73
}

/// The rows of the ANSI main block (keys 13 to 73 in layout order) tile the keyboard: each row
/// starts at the left edge, each key starts in the column where the key before it ends, so
/// that neighbours share a border column, and every row ends in the same column.
pub proof fn law_ansi_rows_tile(layout: AnsiKeyboardTklLayout)
    ensures
        forall|i: int|
            13 <= i < 74 && !opens_main_row(i) ==> (#[trigger] layout.spec_layout()[i]).area.x
                == layout.spec_layout()[i - 1].area.x + layout.spec_layout()[i - 1].area.width - 1
                && layout.spec_layout()[i].area.y == layout.spec_layout()[i - 1].area.y,
        forall|i: int| 13 <= i < 74 && opens_main_row(i) ==> (#[trigger] layout.spec_layout()[i]).area.x == 0,
        forall|i: int|
            13 <= i < 74 && closes_main_row(i) ==> (#[trigger] layout.spec_layout()[i]).area.x
                + layout.spec_layout()[i].area.width - 1 == 74,
{
    let caps = layout.spec_layout();
    let codes = ansi_layout_codes();
    assert(caps.len() == 87);
    assert forall|i: int| 13 <= i < 74 implies {
        &&& !opens_main_row(i) ==> (#[trigger] caps[i]).area.x == caps[i - 1].area.x + caps[i - 1].area.width - 1
            && caps[i].area.y == caps[i - 1].area.y
        &&& opens_main_row(i) ==> caps[i].area.x == 0
        &&& closes_main_row(i) ==> caps[i].area.x + caps[i].area.width - 1 == 74
    } by {
        assert(caps[i] == (KeyCap { key_code: codes[i], area: ansi_key_area(codes[i]) }));
        assert(caps[i - 1] == (KeyCap { key_code: codes[i - 1], area: ansi_key_area(codes[i - 1]) }));
        lemma_space_key();
        if i == 13 {
            lemma_char_row_key(0, 0);
            assert(codes[13] == KeyCode::Char(char_row(0)[0]));
        } else if i == 14 {
            lemma_char_row_key(0, 0);
            assert(codes[13] == KeyCode::Char(char_row(0)[0]));
            lemma_char_row_key(0, 1);
            assert(codes[14] == KeyCode::Char(char_row(0)[1]));
        } else if i == 15 {
            lemma_char_row_key(0, 1);
            assert(codes[14] == KeyCode::Char(char_row(0)[1]));
            lemma_char_row_key(0, 2);
            assert(codes[15] == KeyCode::Char(char_row(0)[2]));
        } else if i == 16 {
            lemma_char_row_key(0, 2);
            assert(codes[15] == KeyCode::Char(char_row(0)[2]));
            lemma_char_row_key(0, 3);
            assert(codes[16] == KeyCode::Char(char_row(0)[3]));
        } else if i == 17 {
            lemma_char_row_key(0, 3);
            assert(codes[16] == KeyCode::Char(char_row(0)[3]));
            lemma_char_row_key(0, 4);
            assert(codes[17] == KeyCode::Char(char_row(0)[4]));
        } else if i == 18 {
            lemma_char_row_key(0, 4);
            assert(codes[17] == KeyCode::Char(char_row(0)[4]));
            lemma_char_row_key(0, 5);
            assert(codes[18] == KeyCode::Char(char_row(0)[5]));
        } else if i == 19 {
            lemma_char_row_key(0, 5);
            assert(codes[18] == KeyCode::Char(char_row(0)[5]));
            lemma_char_row_key(0, 6);
            assert(codes[19] == KeyCode::Char(char_row(0)[6]));
        } else if i == 20 {
            lemma_char_row_key(0, 6);
            assert(codes[19] == KeyCode::Char(char_row(0)[6]));
            lemma_char_row_key(0, 7);
            assert(codes[20] == KeyCode::Char(char_row(0)[7]));
        } else if i == 21 {
            lemma_char_row_key(0, 7);
            assert(codes[20] == KeyCode::Char(char_row(0)[7]));
            lemma_char_row_key(0, 8);
            assert(codes[21] == KeyCode::Char(char_row(0)[8]));
        } else if i == 22 {
            lemma_char_row_key(0, 8);
            assert(codes[21] == KeyCode::Char(char_row(0)[8]));
            lemma_char_row_key(0, 9);
            assert(codes[22] == KeyCode::Char(char_row(0)[9]));
        } else if i == 23 {
            lemma_char_row_key(0, 9);
            assert(codes[22] == KeyCode::Char(char_row(0)[9]));
            lemma_char_row_key(0, 10);
            assert(codes[23] == KeyCode::Char(char_row(0)[10]));
        } else if i == 24 {
            lemma_char_row_key(0, 10);
            assert(codes[23] == KeyCode::Char(char_row(0)[10]));
            lemma_char_row_key(0, 11);
            assert(codes[24] == KeyCode::Char(char_row(0)[11]));
        } else if i == 25 {
            lemma_char_row_key(0, 11);
            assert(codes[24] == KeyCode::Char(char_row(0)[11]));
            lemma_char_row_key(0, 12);
            assert(codes[25] == KeyCode::Char(char_row(0)[12]));
        } else if i == 26 {
            lemma_char_row_key(0, 12);
            assert(codes[25] == KeyCode::Char(char_row(0)[12]));
        } else if i == 27 {
            assert(codes[27] == codes[27]);
        } else if i == 28 {
            lemma_char_row_key(1, 0);
            assert(codes[28] == KeyCode::Char(char_row(1)[0]));
        } else if i == 29 {
            lemma_char_row_key(1, 0);
            assert(codes[28] == KeyCode::Char(char_row(1)[0]));
            lemma_char_row_key(1, 1);
            assert(codes[29] == KeyCode::Char(char_row(1)[1]));
        } else if i == 30 {
            lemma_char_row_key(1, 1);
            assert(codes[29] == KeyCode::Char(char_row(1)[1]));
            lemma_char_row_key(1, 2);
            assert(codes[30] == KeyCode::Char(char_row(1)[2]));
        } else if i == 31 {
            lemma_char_row_key(1, 2);
            assert(codes[30] == KeyCode::Char(char_row(1)[2]));
            lemma_char_row_key(1, 3);
            assert(codes[31] == KeyCode::Char(char_row(1)[3]));
        } else if i == 32 {
            lemma_char_row_key(1, 3);
            assert(codes[31] == KeyCode::Char(char_row(1)[3]));
            lemma_char_row_key(1, 4);
            assert(codes[32] == KeyCode::Char(char_row(1)[4]));
        } else if i == 33 {
            lemma_char_row_key(1, 4);
            assert(codes[32] == KeyCode::Char(char_row(1)[4]));
            lemma_char_row_key(1, 5);
            assert(codes[33] == KeyCode::Char(char_row(1)[5]));
        } else if i == 34 {
            lemma_char_row_key(1, 5);
            assert(codes[33] == KeyCode::Char(char_row(1)[5]));
            lemma_char_row_key(1, 6);
            assert(codes[34] == KeyCode::Char(char_row(1)[6]));
        } else if i == 35 {
            lemma_char_row_key(1, 6);
            assert(codes[34] == KeyCode::Char(char_row(1)[6]));
            lemma_char_row_key(1, 7);
            assert(codes[35] == KeyCode::Char(char_row(1)[7]));
        } else if i == 36 {
            lemma_char_row_key(1, 7);
            assert(codes[35] == KeyCode::Char(char_row(1)[7]));
            lemma_char_row_key(1, 8);
            assert(codes[36] == KeyCode::Char(char_row(1)[8]));
        } else if i == 37 {
            lemma_char_row_key(1, 8);
            assert(codes[36] == KeyCode::Char(char_row(1)[8]));
            lemma_char_row_key(1, 9);
            assert(codes[37] == KeyCode::Char(char_row(1)[9]));
        } else if i == 38 {
            lemma_char_row_key(1, 9);
            assert(codes[37] == KeyCode::Char(char_row(1)[9]));
            lemma_char_row_key(1, 10);
            assert(codes[38] == KeyCode::Char(char_row(1)[10]));
        } else if i == 39 {
            lemma_char_row_key(1, 10);
            assert(codes[38] == KeyCode::Char(char_row(1)[10]));
            lemma_char_row_key(1, 11);
            assert(codes[39] == KeyCode::Char(char_row(1)[11]));
        } else if i == 40 {
            lemma_char_row_key(1, 11);
            assert(codes[39] == KeyCode::Char(char_row(1)[11]));
            lemma_char_row_key(1, 12);
            assert(codes[40] == KeyCode::Char(char_row(1)[12]));
        } else if i == 41 {
            lemma_char_row_key(1, 12);
            assert(codes[40] == KeyCode::Char(char_row(1)[12]));
        } else if i == 42 {
            lemma_char_row_key(2, 0);
            assert(codes[42] == KeyCode::Char(char_row(2)[0]));
        } else if i == 43 {
            lemma_char_row_key(2, 0);
            assert(codes[42] == KeyCode::Char(char_row(2)[0]));
            lemma_char_row_key(2, 1);
            assert(codes[43] == KeyCode::Char(char_row(2)[1]));
        } else if i == 44 {
            lemma_char_row_key(2, 1);
            assert(codes[43] == KeyCode::Char(char_row(2)[1]));
            lemma_char_row_key(2, 2);
            assert(codes[44] == KeyCode::Char(char_row(2)[2]));
        } else if i == 45 {
            lemma_char_row_key(2, 2);
            assert(codes[44] == KeyCode::Char(char_row(2)[2]));
            lemma_char_row_key(2, 3);
            assert(codes[45] == KeyCode::Char(char_row(2)[3]));
        } else if i == 46 {
            lemma_char_row_key(2, 3);
            assert(codes[45] == KeyCode::Char(char_row(2)[3]));
            lemma_char_row_key(2, 4);
            assert(codes[46] == KeyCode::Char(char_row(2)[4]));
        } else if i == 47 {
            lemma_char_row_key(2, 4);
            assert(codes[46] == KeyCode::Char(char_row(2)[4]));
            lemma_char_row_key(2, 5);
            assert(codes[47] == KeyCode::Char(char_row(2)[5]));
        } else if i == 48 {
            lemma_char_row_key(2, 5);
            assert(codes[47] == KeyCode::Char(char_row(2)[5]));
            lemma_char_row_key(2, 6);
            assert(codes[48] == KeyCode::Char(char_row(2)[6]));
        } else if i == 49 {
            lemma_char_row_key(2, 6);
            assert(codes[48] == KeyCode::Char(char_row(2)[6]));
            lemma_char_row_key(2, 7);
            assert(codes[49] == KeyCode::Char(char_row(2)[7]));
        } else if i == 50 {
            lemma_char_row_key(2, 7);
            assert(codes[49] == KeyCode::Char(char_row(2)[7]));
            lemma_char_row_key(2, 8);
            assert(codes[50] == KeyCode::Char(char_row(2)[8]));
        } else if i == 51 {
            lemma_char_row_key(2, 8);
            assert(codes[50] == KeyCode::Char(char_row(2)[8]));
            lemma_char_row_key(2, 9);
            assert(codes[51] == KeyCode::Char(char_row(2)[9]));
        } else if i == 52 {
            lemma_char_row_key(2, 9);
            assert(codes[51] == KeyCode::Char(char_row(2)[9]));
            lemma_char_row_key(2, 10);
            assert(codes[52] == KeyCode::Char(char_row(2)[10]));
        } else if i == 53 {
            lemma_char_row_key(2, 10);
            assert(codes[52] == KeyCode::Char(char_row(2)[10]));
        } else if i == 54 {
            assert(codes[54] == codes[54]);
        } else if i == 55 {
            lemma_char_row_key(3, 0);
            assert(codes[55] == KeyCode::Char(char_row(3)[0]));
        } else if i == 56 {
            lemma_char_row_key(3, 0);
            assert(codes[55] == KeyCode::Char(char_row(3)[0]));
            lemma_char_row_key(3, 1);
            assert(codes[56] == KeyCode::Char(char_row(3)[1]));
        } else if i == 57 {
            lemma_char_row_key(3, 1);
            assert(codes[56] == KeyCode::Char(char_row(3)[1]));
            lemma_char_row_key(3, 2);
            assert(codes[57] == KeyCode::Char(char_row(3)[2]));
        } else if i == 58 {
            lemma_char_row_key(3, 2);
            assert(codes[57] == KeyCode::Char(char_row(3)[2]));
            lemma_char_row_key(3, 3);
            assert(codes[58] == KeyCode::Char(char_row(3)[3]));
        } else if i == 59 {
            lemma_char_row_key(3, 3);
            assert(codes[58] == KeyCode::Char(char_row(3)[3]));
            lemma_char_row_key(3, 4);
            assert(codes[59] == KeyCode::Char(char_row(3)[4]));
        } else if i == 60 {
            lemma_char_row_key(3, 4);
            assert(codes[59] == KeyCode::Char(char_row(3)[4]));
            lemma_char_row_key(3, 5);
            assert(codes[60] == KeyCode::Char(char_row(3)[5]));
        } else if i == 61 {
            lemma_char_row_key(3, 5);
            assert(codes[60] == KeyCode::Char(char_row(3)[5]));
            lemma_char_row_key(3, 6);
            assert(codes[61] == KeyCode::Char(char_row(3)[6]));
        } else if i == 62 {
            lemma_char_row_key(3, 6);
            assert(codes[61] == KeyCode::Char(char_row(3)[6]));
            lemma_char_row_key(3, 7);
            assert(codes[62] == KeyCode::Char(char_row(3)[7]));
        } else if i == 63 {
            lemma_char_row_key(3, 7);
            assert(codes[62] == KeyCode::Char(char_row(3)[7]));
            lemma_char_row_key(3, 8);
            assert(codes[63] == KeyCode::Char(char_row(3)[8]));
        } else if i == 64 {
            lemma_char_row_key(3, 8);
            assert(codes[63] == KeyCode::Char(char_row(3)[8]));
            lemma_char_row_key(3, 9);
            assert(codes[64] == KeyCode::Char(char_row(3)[9]));
        } else if i == 65 {
            lemma_char_row_key(3, 9);
            assert(codes[64] == KeyCode::Char(char_row(3)[9]));
        } else if i == 66 {
            assert(codes[66] == codes[66]);
        } else if i == 67 {
            assert(codes[67] == codes[67]);
        } else if i == 68 {
            assert(codes[68] == codes[68]);
        } else if i == 69 {
            assert(codes[69] == codes[69]);
        } else if i == 70 {
            assert(codes[70] == codes[70]);
        } else if i == 71 {
            assert(codes[71] == codes[71]);
        } else if i == 72 {
            assert(codes[72] == codes[72]);
        } else if i == 73 {
            assert(codes[73] == codes[73]);
        }
    }
}

/// The lookup of any layout holds exactly the keys of the layout's key caps, each with the
/// last key cap of the layout for it.
pub proof fn law_layout_lookup_later_wins<L: KeyboardLayout>(layout: &L)
    ensures
        forall|k: KeyCode|
            #[trigger] lookup_map(layout.spec_layout()).contains_key(k) <==> exists|i: int|
                0 <= i < layout.spec_layout().len() && layout.spec_layout()[i].key_code == k,
        forall|i: int|
            0 <= i < layout.spec_layout().len() && (forall|j: int|
                i < j < layout.spec_layout().len() ==> layout.spec_layout()[j].key_code
                    != layout.spec_layout()[i].key_code) ==> lookup_map(layout.spec_layout())[(
            #[trigger] layout.spec_layout()[i]).key_code] == layout.spec_layout()[i],
{
    law_lookup_later_wins(layout.spec_layout());
}

/// The cap of a key is drawn on the palette's mantle tone exactly for Esc, the modifiers,
/// the wide keys of the main block (Tab, Caps Lock, Backspace, Enter, Menu, the space bar),
/// F5 to F8, the four arrows and the whole navigation block (Insert, Home, Page Up, Delete,
/// End, Page Down, Print Screen, Scroll Lock, Pause); every other key keeps the cap style.
/// The key cap and the border style are kept as given.
pub proof fn law_cap_accents(key_cap: KeyCap, cap_style: Style, border_style: Style)
    ensures
        ({
            let w = key_cap_widget(key_cap, cap_style, border_style);
            let accent = Style { bg: Some(mocha().mantle), ..cap_style };
            let k = key_cap.key_code;
            let accented = k == KeyCode::Esc || k == KeyCode::Tab || k == KeyCode::CapsLock || k
                == KeyCode::Backspace || k == KeyCode::Enter || k == KeyCode::Menu || k == KeyCode::Char(' ')
                || k is Modifier || (k matches KeyCode::F(n) && 5 <= n <= 8) || k == KeyCode::Left || k
                == KeyCode::Right || k == KeyCode::Up || k == KeyCode::Down || k == KeyCode::Insert || k
                == KeyCode::Home || k == KeyCode::PageUp || k == KeyCode::Delete || k == KeyCode::End || k
                == KeyCode::PageDown || k == KeyCode::PrintScreen || k == KeyCode::ScrollLock || k
                == KeyCode::Pause;
            &&& w.key_cap == key_cap
            &&& w.border_style == border_style
            &&& accented ==> w.cap_style == accent
            &&& !accented ==> w.cap_style == cap_style
        }),
{
}

} // verus!
