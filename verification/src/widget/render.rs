use vstd::prelude::*;

use ratatui::buffer::Buffer;
use ratatui::style::Color as TermColor;
use ratatui::style::Style as TermStyle;
use ratatui::widgets::Widget;

use crate::styling::{Color, Style};
use crate::widget::border::{
    border_plan, border_strokes, drawable, is_border_glyph, join_border, joined_glyph,
    law_border_on_blank, law_border_on_rim, lemma_plan_strokes, BorderStroke,
};
use crate::widget::geometry::{inner_rect, Alignment, Rect};
use crate::widget::keyboard::{key_cap_widget, KeyCap, KeyCapWidget, KeyboardWidget, KEY_H};
use crate::widget::label::{key_label, label_alignment};

verus! {

/// ratatui's `Buffer`, the screen that widgets draw into; Verus sees nothing of it but what
/// `buffer_cells` names.
#[verifier::external_type_specification]
#[verifier::external_body]
pub struct ExBuffer(ratatui::buffer::Buffer);

/// ratatui's `Style`, which `term_style` builds and the drawing calls take; carried opaquely.
#[verifier::external_type_specification]
#[verifier::external_body]
pub struct ExTermStyle(TermStyle);

/// ratatui's `Color`, which `term_color` builds; carried opaquely.
#[verifier::external_type_specification]
#[verifier::external_body]
pub struct ExTermColor(TermColor);

/// What a cell of the screen shows: its symbol, its colors and its text modifiers (a bit set).
pub struct SpecCell {
    pub symbol: Seq<char>,
    pub fg: Color,
    pub bg: Color,
    pub underline_color: Color,
    pub modifier: u16,
}

/// The cells of the ratatui `Buffer` `buf` by their `(x, y)` position: one for each position
/// at which `Buffer::cell` hands out a cell (inside the buffer's area, and held by it), with
/// what that cell shows.
pub uninterp spec fn buffer_cells(buf: Buffer) -> Map<(u16, u16), SpecCell>;

/// The area of the ratatui `Buffer` `buf`: the rectangle of the screen that it stands for.
pub uninterp spec fn buffer_area(buf: Buffer) -> Rect;

/// Where a rectangle ends to the right: its left column plus its width, held at the last
/// column of the screen.
pub open spec fn right_of(r: Rect) -> int {
    if r.x + r.width > u16::MAX { u16::MAX as int } else { r.x + r.width }
}

/// Where a rectangle ends at the bottom: its top row plus its height, held at the last row
/// of the screen.
pub open spec fn bottom_of(r: Rect) -> int {
    if r.y + r.height > u16::MAX { u16::MAX as int } else { r.y + r.height }
}

/// The part of `a` that lies in `b`, as ratatui's `Rect::intersection` computes it: from
/// the larger of the left columns and top rows to the smaller of the ends, empty where
/// those cross.
pub open spec fn intersection(a: Rect, b: Rect) -> Rect {
    let x1 = if a.x >= b.x { a.x } else { b.x };
    let y1 = if a.y >= b.y { a.y } else { b.y };
    let x2 = if right_of(a) <= right_of(b) { right_of(a) } else { right_of(b) };
    let y2 = if bottom_of(a) <= bottom_of(b) { bottom_of(a) } else { bottom_of(b) };
    Rect {
        x: x1,
        y: y1,
        width: if x2 > x1 { (x2 - x1) as u16 } else { 0 },
        height: if y2 > y1 { (y2 - y1) as u16 } else { 0 },
    }
}

/// The text modifiers that a style can carry.
pub open spec fn modifier_bits() -> u16 {
    0x1ff
}

/// `cell` with `style` laid over it: each color that the style sets replaces the cell's,
/// the style's added modifiers are set and its removed ones cleared.
pub open spec fn patched(cell: SpecCell, style: Style) -> SpecCell {
    SpecCell {
        symbol: cell.symbol,
        fg: match style.fg {
            Some(c) => c,
            None => cell.fg,
        },
        bg: match style.bg {
            Some(c) => c,
            None => cell.bg,
        },
        underline_color: match style.underline_color {
            Some(c) => c,
            None => cell.underline_color,
        },
        modifier: (cell.modifier | (style.add_modifier & modifier_bits())) & !(style.sub_modifier
            & modifier_bits()),
    }
}

/// Whether `(x, y)` lies in `area`.
pub open spec fn in_rect(area: Rect, x: u16, y: u16) -> bool {
    area.x <= x < area.x + area.width && area.y <= y < area.y + area.height
}

/// Whether every position of `area` has a cell in `cells`.
pub open spec fn covers(cells: Map<(u16, u16), SpecCell>, area: Rect) -> bool {
    forall|x: u16, y: u16|
        area.x <= x < area.x + area.width && area.y <= y < area.y + area.height
            ==> #[trigger] cells.contains_key((x, y))
}

/// What ratatui's `Text::render` makes of the cells of a buffer whose area is `screen` when
/// it draws `Text` made of the one span `label`, styled `style` and aligned by `alignment`,
/// into `area` (clipping to the screen, line layout and character widths are ratatui's).
pub uninterp spec fn rendered_label(
    cells: Map<(u16, u16), SpecCell>,
    label: Seq<char>,
    style: Style,
    alignment: Alignment,
    area: Rect,
    screen: Rect,
) -> Map<(u16, u16), SpecCell>;

/// The ratatui `Color` that `color` stands for, variant by variant; no contract.
#[verifier::external_body]
fn term_color(color: Color) -> TermColor {
    match color {
        Color::Reset => TermColor::Reset, Color::Black => TermColor::Black,
        Color::Red => TermColor::Red, Color::Green => TermColor::Green,
        Color::Yellow => TermColor::Yellow, Color::Blue => TermColor::Blue,
        Color::Magenta => TermColor::Magenta, Color::Cyan => TermColor::Cyan,
        Color::Gray => TermColor::Gray, Color::DarkGray => TermColor::DarkGray,
        Color::LightRed => TermColor::LightRed, Color::LightGreen => TermColor::LightGreen,
        Color::LightYellow => TermColor::LightYellow, Color::LightBlue => TermColor::LightBlue,
        Color::LightMagenta => TermColor::LightMagenta, Color::LightCyan => TermColor::LightCyan,
        Color::White => TermColor::White, Color::Rgb(r, g, b) => TermColor::Rgb(r, g, b),
        Color::Indexed(i) => TermColor::Indexed(i),
    }
}

/// The ratatui `Style` that `style` stands for, field by field (the modifier bits through
/// `Modifier::from_bits_truncate`); no contract.
#[verifier::external_body]
fn term_style(style: Style) -> TermStyle {
    TermStyle {
        fg: style.fg.map(term_color),
        bg: style.bg.map(term_color),
        underline_color: style.underline_color.map(term_color),
        add_modifier: ratatui::style::Modifier::from_bits_truncate(style.add_modifier),
        sub_modifier: ratatui::style::Modifier::from_bits_truncate(style.sub_modifier),
    }
}

/// Calls ratatui's `Buffer::cell` at `(x, y)` and copies the symbol of the cell it hands out,
/// if any; the contract says that this is the symbol that `buffer_cells` names there, and that
/// no cell comes back exactly where `buffer_cells` has none.
#[verifier::external_body]
fn cell_symbol(buf: &Buffer, x: u16, y: u16) -> (r: Option<String>)
    ensures
        match r {
            Some(s) => buffer_cells(*buf).contains_key((x, y)) && s@ == buffer_cells(*buf)[(x, y)].symbol,
            None => !buffer_cells(*buf).contains_key((x, y)),
        },
{
    match buf.cell((x, y)) {
        Some(cell) => Some(String::from(cell.symbol())),
        None => None,
    }
}

/// Calls ratatui's `Cell::set_char` on the cell at `(x, y)` (reached by indexing the buffer,
/// which cannot fail where the cell is there); the contract says that the cell's symbol
/// becomes `c` and that nothing else of the buffer changes, its area included.
#[verifier::external_body]
fn set_cell_char(buf: &mut Buffer, x: u16, y: u16, c: char)
    requires
        buffer_cells(*old(buf)).contains_key((x, y)),
    ensures
        buffer_cells(*final(buf)) == buffer_cells(*old(buf)).insert(
            (x, y),
            SpecCell { symbol: seq![c], ..buffer_cells(*old(buf))[(x, y)] },
        ),
        buffer_area(*final(buf)) == buffer_area(*old(buf)),
{
    buf[(x, y)].set_char(c);
}

/// Calls ratatui's `Cell::set_style` on the cell at `(x, y)`; the contract says that the cell
/// becomes `patched` with `style` (the colors that the style sets replace the cell's, its added
/// modifiers are set, its removed ones cleared) and that nothing else of the buffer changes,
/// its area included.
#[verifier::external_body]
fn set_cell_style(buf: &mut Buffer, x: u16, y: u16, style: Style)
    requires
        buffer_cells(*old(buf)).contains_key((x, y)),
    ensures
        buffer_cells(*final(buf)) == buffer_cells(*old(buf)).insert(
            (x, y),
            patched(buffer_cells(*old(buf))[(x, y)], style),
        ),
        buffer_area(*final(buf)) == buffer_area(*old(buf)),
{
    buf[(x, y)].set_style(term_style(style));
}

/// Calls ratatui's `Text::render` on `Text` made of the one span `label`, with `style` and
/// `alignment`, into `area`, which it clips to the buffer's area and whose every cell there
/// it reaches. The contract names what that makes of the cells (`rendered_label`) and says
/// that the buffer keeps its area and cells at the same positions, and that no cell outside
/// the clipped area changes; which symbols and styles land where inside it is not stated.
#[verifier::external_body]
fn render_label(buf: &mut Buffer, label: &str, style: Style, alignment: Alignment, area: Rect)
    requires
        covers(buffer_cells(*old(buf)), intersection(area, buffer_area(*old(buf)))),
    ensures
        buffer_cells(*final(buf)) == rendered_label(
            buffer_cells(*old(buf)),
            label@,
            style,
            alignment,
            area,
            buffer_area(*old(buf)),
        ),
        buffer_cells(*final(buf)).dom() == buffer_cells(*old(buf)).dom(),
        buffer_area(*final(buf)) == buffer_area(*old(buf)),
        forall|x: u16, y: u16|
            #[trigger] buffer_cells(*old(buf)).contains_key((x, y)) && !in_rect(
                intersection(area, buffer_area(*old(buf))),
                x,
                y,
            ) ==> buffer_cells(*final(buf))[(x, y)] == buffer_cells(*old(buf))[(x, y)],
{
    let alignment = match alignment {
        Alignment::Left => ratatui::layout::Alignment::Left,
        Alignment::Center => ratatui::layout::Alignment::Center,
        Alignment::Right => ratatui::layout::Alignment::Right,
    };
    let area = ratatui::layout::Rect { x: area.x, y: area.y, width: area.width, height: area.height };
    ratatui::text::Text::from(ratatui::text::Span::from(label))
        .style(term_style(style))
        .alignment(alignment)
        .render(area, buf);
}

/// Calls ratatui's `Rect::intersection` on `area` and the buffer's area; the contract says
/// that the result is `intersection` of the two.
#[verifier::external_body]
fn clip_to_buffer(buf: &Buffer, area: Rect) -> (r: Rect)
    ensures
        r == intersection(area, buffer_area(*buf)),
{
    let area = ratatui::layout::Rect { x: area.x, y: area.y, width: area.width, height: area.height };
    let clipped = area.intersection(buf.area);
    Rect { x: clipped.x, y: clipped.y, width: clipped.width, height: clipped.height }
}

/// The cell that stroke `s` is drawn into.
pub open spec fn at(s: BorderStroke) -> (u16, u16) {
    (s.position.x, s.position.y)
}

/// What drawing stroke `s` with `style` makes of `cells`: where the stroke applies to the
/// cell's symbol, the cell shows the stroke's glyph joined with its first character, and
/// takes `style`.
pub open spec fn paint_stroke(cells: Map<(u16, u16), SpecCell>, s: BorderStroke, style: Style) -> Map<
    (u16, u16),
    SpecCell,
> {
    let cell = cells[at(s)];
    if !s.blank_only || cell.symbol == seq![' '] {
        cells.insert(
            at(s),
            patched(SpecCell { symbol: seq![joined_glyph(s.glyph, cell.symbol[0])], ..cell }, style),
        )
    } else {
        cells
    }
}

/// What drawing `strokes` one after the other with `style` makes of `cells`.
pub open spec fn paint_strokes(
    cells: Map<(u16, u16), SpecCell>,
    strokes: Seq<BorderStroke>,
    style: Style,
) -> Map<(u16, u16), SpecCell>
    decreases strokes.len(),
{
    if strokes.len() == 0 {
        cells
    } else {
        paint_stroke(paint_strokes(cells, strokes.drop_last(), style), strokes.last(), style)
    }
}

/// Whether the border of a key cap in `area` can be drawn into `cells`: the rectangle is
/// drawable, every cell of its border is there, and the cells of its sides show a symbol.
pub open spec fn border_ready(cells: Map<(u16, u16), SpecCell>, area: Rect) -> bool {
    &&& drawable(area)
    &&& forall|i: int|
        0 <= i < border_plan(area).len() ==> cells.contains_key(at(#[trigger] border_plan(area)[i]))
    &&& forall|i: int| 0 <= i < 6 ==> cells[at(#[trigger] border_plan(area)[i])].symbol.len() > 0
}

/// Drawing a stroke changes no cell but its own and keeps the cells that show a symbol
/// showing one.
proof fn lemma_paint_stroke(cells: Map<(u16, u16), SpecCell>, s: BorderStroke, style: Style)
    requires
        cells.contains_key(at(s)),
        !s.blank_only ==> cells[at(s)].symbol.len() > 0,
    ensures
        paint_stroke(cells, s, style).dom() == cells.dom(),
        forall|k: (u16, u16)|
            cells.contains_key(k) && cells[k].symbol.len() > 0 ==> #[trigger] paint_stroke(
                cells,
                s,
                style,
            )[k].symbol.len() > 0,
{
    assert(paint_stroke(cells, s, style).dom() =~= cells.dom());
}

/// Draws the border glyph `decorate` into the cell at `(x, y)`, joined with the first
/// character of the symbol that the cell shows.
fn draw_key_border(decorate: char, buf: &mut Buffer, x: u16, y: u16)
    requires
        is_border_glyph(decorate),
        buffer_cells(*old(buf)).contains_key((x, y)),
        buffer_cells(*old(buf))[(x, y)].symbol.len() > 0,
    ensures
        buffer_cells(*final(buf)) == buffer_cells(*old(buf)).insert(
            (x, y),
            SpecCell {
                symbol: seq![joined_glyph(decorate, buffer_cells(*old(buf))[(x, y)].symbol[0])],
                ..buffer_cells(*old(buf))[(x, y)]
            },
        ),
        buffer_area(*final(buf)) == buffer_area(*old(buf)),
{
    if let Some(symbol) = cell_symbol(buf, x, y) {
        let current = symbol.as_str().get_char(0);
        set_cell_char(buf, x, y, join_border(decorate, current));
    }
}

/// Draws the border of `key_cap` in `border_style`: its sides over whatever the cells show,
/// joining neighbouring borders, and its top and bottom onto blank cells only.
pub fn render_border(key_cap: KeyCap, border_style: Style, buf: &mut Buffer)
    requires
        border_ready(buffer_cells(*old(buf)), key_cap.area),
    ensures
        buffer_cells(*final(buf)) == paint_strokes(
            buffer_cells(*old(buf)),
            border_plan(key_cap.area),
            border_style,
        ),
        buffer_area(*final(buf)) == buffer_area(*old(buf)),
        forall|i: int|
            0 <= i < 6 ==> takes_colors(
                buffer_cells(*final(buf))[at(#[trigger] border_plan(key_cap.area)[i])],
                border_style,
            ),
        forall|k: (u16, u16)|
            #[trigger] buffer_cells(*final(buf))[k] != buffer_cells(*old(buf))[k] ==> takes_colors(
                buffer_cells(*final(buf))[k],
                border_style,
            ),
{
    proof {
        lemma_plan_strokes(key_cap.area);
        law_drawn_cells_take_the_style(buffer_cells(*old(buf)), border_plan(key_cap.area), border_style);
    }
    let strokes = border_strokes(key_cap.area);
    let ghost start = buffer_cells(*buf);
    let ghost screen = buffer_area(*buf);
    let ghost plan = border_plan(key_cap.area);
    proof {
        lemma_plan_strokes(key_cap.area);
        assert(plan.take(0) =~= Seq::<BorderStroke>::empty());
    }
    let mut i: usize = 0;
    while i < strokes.len()
        invariant
            strokes@ == plan,
            plan == border_plan(key_cap.area),
            plan.len() >= 6,
            border_ready(start, key_cap.area),
            forall|j: int|
                0 <= j < plan.len() ==> is_border_glyph(#[trigger] plan[j].glyph) && (plan[j].blank_only
                    <==> j >= 6),
            i <= plan.len(),
            buffer_cells(*buf) == paint_strokes(start, plan.take(i as int), border_style),
            buffer_cells(*buf).dom() == start.dom(),
            buffer_area(*buf) == screen,
            screen == buffer_area(*old(buf)),
            forall|j: int| 0 <= j < 6 ==> buffer_cells(*buf)[at(#[trigger] plan[j])].symbol.len() > 0,
        decreases plan.len() - i,
    {
        let s = strokes[i];
        let ghost before = buffer_cells(*buf);
        proof {
            assert(start.contains_key(at(plan[i as int])));
            assert(plan.take(i + 1).drop_last() =~= plan.take(i as int));
            if (i as int) < 6 {
                assert(before[at(plan[i as int])].symbol.len() > 0);
            }
        }
        if let Some(symbol) = cell_symbol(buf, s.position.x, s.position.y) {
            if s.applies_to(symbol.as_str()) {
                draw_key_border(s.glyph, buf, s.position.x, s.position.y);
                set_cell_style(buf, s.position.x, s.position.y, border_style);
            }
        }
        proof {
            lemma_paint_stroke(before, s, border_style);
            assert(buffer_cells(*buf) =~= paint_stroke(before, s, border_style));
            assert forall|j: int| 0 <= j < 6 implies buffer_cells(*buf)[at(#[trigger] plan[j])].symbol.len() > 0 by {
                assert(before.contains_key(at(plan[j])));
            }
        }
        i = i + 1;
    }
    proof {
        assert(plan.take(plan.len() as int) =~= plan);
    }
}

/// The cells that a key cap's label is drawn into: its area inside the border.
pub open spec fn label_area(widget: KeyCapWidget) -> Rect {
    inner_rect(widget.key_cap.area, 1, 1)
}

/// What drawing the label of `widget` makes of `cells`, on a screen whose area is `screen`.
pub open spec fn label_painted(cells: Map<(u16, u16), SpecCell>, widget: KeyCapWidget, screen: Rect) -> Map<
    (u16, u16),
    SpecCell,
> {
    let label = key_label(widget.key_cap.key_code);
    rendered_label(cells, label, widget.cap_style, label_alignment(label), label_area(widget), screen)
}

/// Whether `widget` can be drawn into `cells`, on a screen whose area is `screen`: its
/// border can, and every cell of its label area that lies on the screen is there.
#[verifier::opaque]
pub open spec fn key_cap_ready(cells: Map<(u16, u16), SpecCell>, widget: KeyCapWidget, screen: Rect) -> bool {
    border_ready(cells, widget.key_cap.area) && covers(cells, intersection(label_area(widget), screen))
}

/// What drawing `widget` makes of `cells`, on a screen whose area is `screen`: its border,
/// then its label.
#[verifier::opaque]
pub open spec fn key_cap_painted(cells: Map<(u16, u16), SpecCell>, widget: KeyCapWidget, screen: Rect) -> Map<
    (u16, u16),
    SpecCell,
> {
    label_painted(paint_strokes(cells, border_plan(widget.key_cap.area), widget.border_style), widget, screen)
}

/// What drawing `widgets` one after the other makes of `cells`, on a screen whose area is
/// `screen`.
pub open spec fn key_caps_painted(
    cells: Map<(u16, u16), SpecCell>,
    widgets: Seq<KeyCapWidget>,
    screen: Rect,
) -> Map<(u16, u16), SpecCell>
    decreases widgets.len(),
{
    if widgets.len() == 0 {
        cells
    } else {
        key_cap_painted(key_caps_painted(cells, widgets.drop_last(), screen), widgets.last(), screen)
    }
}

/// The key cap widgets of `keyboard`, in the order of its keys.
#[verifier::opaque]
pub open spec fn keyboard_key_caps(keyboard: KeyboardWidget) -> Seq<KeyCapWidget> {
    Seq::new(
        keyboard.spec_keys().len(),
        |i: int| key_cap_widget(keyboard.spec_keys()[i], keyboard.spec_cap_style(), keyboard.spec_border_style()),
    )
}

/// Drawing strokes into cells that the buffer holds keeps the cells that it holds.
proof fn lemma_paint_strokes_dom(cells: Map<(u16, u16), SpecCell>, strokes: Seq<BorderStroke>, style: Style)
    requires
        forall|i: int| 0 <= i < strokes.len() ==> cells.contains_key(at(#[trigger] strokes[i])),
    ensures
        paint_strokes(cells, strokes, style).dom() == cells.dom(),
    decreases strokes.len(),
{
    if strokes.len() > 0 {
        let rest = strokes.drop_last();
        assert forall|i: int| 0 <= i < rest.len() implies cells.contains_key(at(#[trigger] rest[i])) by {
            assert(rest[i] == strokes[i]);
        }
        lemma_paint_strokes_dom(cells, rest, style);
        let before = paint_strokes(cells, rest, style);
        let s = strokes.last();
        assert(cells.contains_key(at(strokes[strokes.len() - 1])));
        assert(paint_stroke(before, s, style).dom() =~= before.dom());
    }
}

/// Whether the buffer holds a cell at each position of `area`.
fn covers_area(buf: &Buffer, area: Rect) -> (r: bool)
    ensures
        r == covers(buffer_cells(*buf), area),
{
    let cells = Ghost(buffer_cells(*buf));
    let x_end: u32 = if area.x as u32 + area.width as u32 > 0x10000 { 0x10000 } else { area.x as u32 + area.width as u32 };
    let y_end: u32 = if area.y as u32 + area.height as u32 > 0x10000 { 0x10000 } else { area.y as u32 + area.height as u32 };
    let mut y: u32 = area.y as u32;
    while y < y_end
        invariant
            cells@ == buffer_cells(*buf),
            x_end <= 0x10000,
            y_end <= 0x10000,
            x_end == area.x + area.width || (x_end == 0x10000 && area.x + area.width > 0x10000),
            y_end == area.y + area.height || (y_end == 0x10000 && area.y + area.height > 0x10000),
            area.y <= y,
            y <= y_end || y == area.y,
            forall|px: u16, py: u16|
                area.x <= px < area.x + area.width && area.y <= py < y ==> #[trigger] cells@.contains_key((px, py)),
        decreases y_end - y,
    {
        let mut x: u32 = area.x as u32;
        while x < x_end
            invariant
                cells@ == buffer_cells(*buf),
                x_end <= 0x10000,
                x_end == area.x + area.width || (x_end == 0x10000 && area.x + area.width > 0x10000),
                area.y <= y < y_end,
                y_end <= 0x10000,
                y_end == area.y + area.height || (y_end == 0x10000 && area.y + area.height > 0x10000),
                area.x <= x,
                x <= x_end || x == area.x,
                forall|px: u16, py: u16|
                    area.x <= px < area.x + area.width && area.y <= py < y ==> #[trigger] cells@.contains_key((px, py)),
                forall|px: u16| area.x <= px < x ==> #[trigger] cells@.contains_key((px, y as u16)),
            decreases x_end - x,
        {
            if cell_symbol(buf, x as u16, y as u16).is_none() {
                proof {
                    assert((x as u16) == x) by (bit_vector)
                        requires
                            x < 0x10000u32,
                    ;
                    assert((y as u16) == y) by (bit_vector)
                        requires
                            y < 0x10000u32,
                    ;
                    let px = x as u16;
                    let py = y as u16;
                    assert(area.x <= px < area.x + area.width && area.y <= py < area.y + area.height);
                    assert(!cells@.contains_key((px, py)));
                }
                return false;
            }
            proof {
                assert((x as u16) == x) by (bit_vector)
                    requires
                        x < 0x10000u32,
                ;
            }
            x = x + 1;
        }
        proof {
            assert((y as u16) == y) by (bit_vector)
                requires
                    y < 0x10000u32,
            ;
            assert forall|px: u16, py: u16|
                area.x <= px < area.x + area.width && area.y <= py < y + 1 implies #[trigger] cells@.contains_key((px, py)) by {
                if py as int == y as int {
                    assert(cells@.contains_key((px, y as u16)));
                }
            }
        }
        y = y + 1;
    }
    true
}

/// Whether the border of a key cap in `area` can be drawn into the buffer.
fn border_fits(buf: &Buffer, area: Rect) -> (r: bool)
    ensures
        r == border_ready(buffer_cells(*buf), area),
{
    let end = area.x as u32 + area.width as u32;
    if end < 1 || end > u16::MAX as u32 || area.y as u32 + (KEY_H - 1) as u32 > u16::MAX as u32 || (
    area.width >= 2 && area.y as u32 + KEY_H as u32 > u16::MAX as u32) {
        return false;
    }
    let strokes = border_strokes(area);
    let ghost plan = border_plan(area);
    let ghost cells = buffer_cells(*buf);
    let mut i: usize = 0;
    while i < strokes.len()
        invariant
            strokes@ == plan,
            plan == border_plan(area),
            cells == buffer_cells(*buf),
            drawable(area),
            plan.len() >= 6,
            i <= plan.len(),
            forall|j: int| 0 <= j < i ==> cells.contains_key(at(#[trigger] plan[j])),
            forall|j: int| 0 <= j < i && j < 6 ==> cells[at(#[trigger] plan[j])].symbol.len() > 0,
        decreases plan.len() - i,
    {
        let s = strokes[i];
        match cell_symbol(buf, s.position.x, s.position.y) {
            None => {
                return false;
            },
            Some(symbol) => {
                if i < 6 && symbol.as_str().unicode_len() == 0 {
                    return false;
                }
            },
        }
        i = i + 1;
    }
    true
}

impl KeyCapWidget {
    /// Draws the key's label inside its border (see `keypad`), clipped to the buffer's area.
    pub fn render_keypad(&self, buf: &mut Buffer)
        requires
            covers(buffer_cells(*old(buf)), intersection(label_area(*self), buffer_area(*old(buf)))),
        ensures
            buffer_cells(*final(buf)) == label_painted(buffer_cells(*old(buf)), *self, buffer_area(*old(buf))),
            buffer_area(*final(buf)) == buffer_area(*old(buf)),
            buffer_cells(*final(buf)).dom() == buffer_cells(*old(buf)).dom(),
            forall|x: u16, y: u16|
                #[trigger] buffer_cells(*old(buf)).contains_key((x, y)) && !in_rect(
                    intersection(label_area(*self), buffer_area(*old(buf))),
                    x,
                    y,
                ) ==> buffer_cells(*final(buf))[(x, y)] == buffer_cells(*old(buf))[(x, y)],
    {
        let pad = self.keypad();
        render_label(buf, pad.label.as_str(), pad.style, pad.alignment, pad.area);
    }

    /// Whether the key cap can be drawn into the buffer.
    pub fn fits(&self, buf: &Buffer) -> (r: bool)
        ensures
            r == key_cap_ready(buffer_cells(*buf), *self, buffer_area(*buf)),
    {
        proof {
            reveal(key_cap_ready);
        }
        if !border_fits(buf, self.key_cap.area) {
            return false;
        }
        let area = clip_to_buffer(buf, self.key_cap.area.inner(1, 1));
        covers_area(buf, area)
    }

    /// Draws the key cap, its border and then its label, where it fits into the buffer;
    /// elsewhere leaves the buffer as it is and answers `false`.
    pub fn render_key_cap(&self, buf: &mut Buffer) -> (drawn: bool)
        ensures
            drawn == key_cap_ready(buffer_cells(*old(buf)), *self, buffer_area(*old(buf))),
            drawn ==> buffer_cells(*final(buf)) == key_cap_painted(
                buffer_cells(*old(buf)),
                *self,
                buffer_area(*old(buf)),
            ),
            !drawn ==> buffer_cells(*final(buf)) == buffer_cells(*old(buf)),
            buffer_area(*final(buf)) == buffer_area(*old(buf)),
    {
        if !self.fits(buf) {
            return false;
        }
        let ghost start = buffer_cells(*buf);
        let ghost screen = buffer_area(*buf);
        proof {
            reveal(key_cap_ready);
            reveal(key_cap_painted);
        }
        render_border(self.key_cap, self.border_style, buf);
        proof {
            lemma_paint_strokes_dom(start, border_plan(self.key_cap.area), self.border_style);
            let painted = buffer_cells(*buf);
            let clipped = intersection(label_area(*self), screen);
            assert forall|x: u16, y: u16|
                clipped.x <= x < clipped.x + clipped.width && clipped.y <= y < clipped.y + clipped.height
                    implies #[trigger] painted.contains_key((x, y)) by {
                assert(start.contains_key((x, y)));
            }
        }
        self.render_keypad(buf);
        true
    }
}

impl KeyboardWidget {
    /// Draws the key caps one after the other, in the order of the keys. Stops at the first
    /// key cap that does not fit into the buffer, with its index, leaving it and the ones
    /// after it undrawn.
    #[verifier::rlimit(80)]
    #[verifier::spinoff_prover]
    pub fn render_keys(&self, buf: &mut Buffer) -> (r: Result<(), usize>)
        ensures
            buffer_area(*final(buf)) == buffer_area(*old(buf)),
            r is Ok ==> buffer_cells(*final(buf)) == key_caps_painted(
                buffer_cells(*old(buf)),
                keyboard_key_caps(*self),
                buffer_area(*old(buf)),
            ) && forall|j: int|
                0 <= j < keyboard_key_caps(*self).len() ==> key_cap_ready(
                    key_caps_painted(buffer_cells(*old(buf)), keyboard_key_caps(*self).take(j), buffer_area(*old(buf))),
                    #[trigger] keyboard_key_caps(*self)[j],
                    buffer_area(*old(buf)),
                ),
            r matches Err(n) ==> n < keyboard_key_caps(*self).len() && buffer_cells(*final(buf))
                == key_caps_painted(
                buffer_cells(*old(buf)),
                keyboard_key_caps(*self).take(n as int),
                buffer_area(*old(buf)),
            ) && !key_cap_ready(
                key_caps_painted(
                    buffer_cells(*old(buf)),
                    keyboard_key_caps(*self).take(n as int),
                    buffer_area(*old(buf)),
                ),
                keyboard_key_caps(*self)[n as int],
                buffer_area(*old(buf)),
            ) && forall|j: int|
                0 <= j < n ==> key_cap_ready(
                    key_caps_painted(buffer_cells(*old(buf)), keyboard_key_caps(*self).take(j), buffer_area(*old(buf))),
                    #[trigger] keyboard_key_caps(*self)[j],
                    buffer_area(*old(buf)),
                ),
    {
        let widgets = self.key_cap_widgets();
        let ghost spec_widgets = keyboard_key_caps(*self);
        let ghost start = buffer_cells(*buf);
        let ghost screen = buffer_area(*buf);
        proof {
            reveal(keyboard_key_caps);
            assert(widgets@ =~= spec_widgets);
            assert(spec_widgets.take(0) =~= Seq::<KeyCapWidget>::empty());
        }
        let mut i: usize = 0;
        while i < widgets.len()
            invariant
                widgets@ == spec_widgets,
                spec_widgets == keyboard_key_caps(*self),
                start == buffer_cells(*old(buf)),
                screen == buffer_area(*old(buf)),
                buffer_area(*buf) == screen,
                i <= widgets@.len(),
                buffer_cells(*buf) == key_caps_painted(start, spec_widgets.take(i as int), screen),
                forall|j: int|
                    0 <= j < i ==> key_cap_ready(
                        key_caps_painted(start, spec_widgets.take(j), screen),
                        #[trigger] spec_widgets[j],
                        screen,
                    ),
            decreases widgets@.len() - i,
        {
            let ghost before = buffer_cells(*buf);
            let drawn = widgets[i].render_key_cap(buf);
            if !drawn {
                return Err(i);
            }
            proof {
                let t = spec_widgets.take(i + 1);
                assert(t.drop_last() =~= spec_widgets.take(i as int));
                assert(t.last() == spec_widgets[i as int]);
            }
            i = i + 1;
        }
        proof {
            assert(spec_widgets.take(spec_widgets.len() as int) =~= spec_widgets);
        }
        Ok(())
    }
}

/// Drawing strokes leaves every cell that no stroke is drawn into as it was.
proof fn lemma_paint_strokes_frame(
    cells: Map<(u16, u16), SpecCell>,
    strokes: Seq<BorderStroke>,
    style: Style,
    k: (u16, u16),
)
    requires
        forall|i: int| 0 <= i < strokes.len() ==> at(#[trigger] strokes[i]) != k,
    ensures
        paint_strokes(cells, strokes, style).contains_key(k) == cells.contains_key(k),
        paint_strokes(cells, strokes, style)[k] == cells[k],
    decreases strokes.len(),
{
    if strokes.len() > 0 {
        let rest = strokes.drop_last();
        assert forall|i: int| 0 <= i < rest.len() implies at(#[trigger] rest[i]) != k by {
            assert(rest[i] == strokes[i]);
        }
        lemma_paint_strokes_frame(cells, rest, style, k);
        assert(at(strokes[strokes.len() - 1]) != k);
    }
}

/// Drawing the border of a key cap changes no cell outside its rectangle, and keeps the
/// cells that the buffer holds.
pub proof fn law_border_stays_inside(cells: Map<(u16, u16), SpecCell>, area: Rect, style: Style)
    requires
        border_ready(cells, area),
        area.width >= 1,
    ensures
        paint_strokes(cells, border_plan(area), style).dom() == cells.dom(),
        forall|x: u16, y: u16|
            !(area.x <= x < area.x + area.width && area.y <= y < area.y + KEY_H) ==> #[trigger] paint_strokes(
                cells,
                border_plan(area),
                style,
            )[(x, y)] == cells[(x, y)],
{
    let plan = border_plan(area);
    lemma_paint_strokes_dom(cells, plan, style);
    law_border_on_rim(area);
    assert forall|x: u16, y: u16|
        !(area.x <= x < area.x + area.width && area.y <= y < area.y + KEY_H) implies #[trigger] paint_strokes(
            cells,
            plan,
            style,
        )[(x, y)] == cells[(x, y)] by {
        assert forall|i: int| 0 <= i < plan.len() implies at(#[trigger] plan[i]) != (x, y) by {
            let p = plan[i].position;
            assert(area.x <= p.x < area.x + area.width && area.y <= p.y < area.y + KEY_H);
        }
        lemma_paint_strokes_frame(cells, plan, style, (x, y));
    }
}

/// Whether every cell of the rows of a key cap in `area` is there and shows a blank.
pub open spec fn blank_key_rows(cells: Map<(u16, u16), SpecCell>, area: Rect) -> bool {
    forall|x: u16, y: u16|
        area.x <= x < area.x + area.width && area.y <= y < area.y + KEY_H ==> #[trigger] cells.contains_key(
            (x, y),
        ) && cells[(x, y)].symbol == seq![' ']
}

/// The symbols that the sides of a key cap in `area` show once drawn onto blank cells.
pub open spec fn sides_drawn(p: Map<(u16, u16), SpecCell>, area: Rect) -> bool {
    let x = area.x;
    let r = (area.x + area.width - 1) as u16;
    let y = area.y;
    &&& p[(x, y)].symbol == seq!['┌']
    &&& p[(x, (y + 1) as u16)].symbol == seq!['│']
    &&& p[(x, (y + 2) as u16)].symbol == seq!['└']
    &&& p[(r, y)].symbol == seq!['┐']
    &&& p[(r, (y + 1) as u16)].symbol == seq!['│']
    &&& p[(r, (y + 2) as u16)].symbol == seq!['┘']
}

/// A cell of the rows of a key cap over blank cells is there and blank.
#[verifier::spinoff_prover]
proof fn lemma_blank_cell(cells: Map<(u16, u16), SpecCell>, area: Rect, x: u16, y: u16)
    requires
        blank_key_rows(cells, area),
        area.x <= x < area.x + area.width,
        area.y <= y < area.y + KEY_H,
    ensures
        cells.contains_key((x, y)),
        cells[(x, y)].symbol =~= seq![' '],
{
    assert(cells.contains_key((x, y)));
    assert(cells[(x, y)].symbol =~= seq![' ']);
}

/// The cell that side stroke `i` of a key cap in `area` is drawn into: the left side top to
/// bottom, then the right side top to bottom.
pub open spec fn side_cell(area: Rect, i: int) -> (u16, u16) {
    let x = if i < 3 { area.x } else { (area.x + area.width - 1) as u16 };
    (x, (area.y + i % 3) as u16)
}

/// After the first `j` of the six side strokes, drawn onto blank cells: each of them shows
/// its glyph, and every other cell is as it was.
#[verifier::spinoff_prover]
proof fn lemma_sides_on_blank(cells: Map<(u16, u16), SpecCell>, area: Rect, style: Style, j: int)
    requires
        drawable(area),
        area.width >= 2,
        blank_key_rows(cells, area),
        0 <= j <= 6,
    ensures
        ({
            let plan = border_plan(area);
            let m = paint_strokes(cells, plan.take(j), style);
            &&& forall|c: u16, row: u16|
                area.x <= c < area.x + area.width && area.y <= row < area.y + KEY_H ==> #[trigger] m.contains_key(
                    (c, row),
                )
            &&& forall|c: u16, row: u16|
                area.x < c < area.x + area.width - 1 && area.y <= row < area.y + KEY_H ==> #[trigger] m[(c, row)]
                    == cells[(c, row)]
            &&& forall|i: int| 0 <= i < 6 ==> at(#[trigger] plan[i]) == side_cell(area, i)
            &&& forall|i: int| j <= i < 6 ==> #[trigger] m[side_cell(area, i)] == cells[side_cell(area, i)]
            &&& forall|i: int| 0 <= i < j ==> (#[trigger] m[side_cell(area, i)]).symbol == seq![plan[i].glyph]
        }),
    decreases j,
{
    let plan = border_plan(area);
    assert forall|i: int| 0 <= i < 6 implies at(#[trigger] plan[i]) == side_cell(area, i) by {
        if i == 0 {
        } else if i == 1 {
        } else if i == 2 {
        } else if i == 3 {
        } else if i == 4 {
        } else {
        }
    }
    if j == 0 {
        assert(plan.take(0) =~= Seq::<BorderStroke>::empty());
    } else {
        lemma_sides_on_blank(cells, area, style, j - 1);
        let before = paint_strokes(cells, plan.take(j - 1), style);
        assert(plan.take(j).drop_last() =~= plan.take(j - 1));
        let s = plan[j - 1];
        lemma_plan_strokes(area);
        assert(is_border_glyph(s.glyph));
        law_border_on_blank(s.glyph);
        let here = side_cell(area, j - 1);
        assert(at(s) == here);
        let hx = here.0;
        let hy = here.1;
        assert(here == (hx, hy));
        assert(area.x <= hx < area.x + area.width && area.y <= hy < area.y + KEY_H);
        lemma_blank_cell(cells, area, hx, hy);
        assert(before[here] == cells[here]);
        let m = paint_strokes(cells, plan.take(j), style);
        assert forall|i: int| 0 <= i < 6 && i != j - 1 implies side_cell(area, i) != here by {
            if i < 3 && j - 1 >= 3 || i >= 3 && j - 1 < 3 {
                assert(side_cell(area, i).0 != here.0);
            } else {
                assert(side_cell(area, i).1 != here.1);
            }
        }
        assert forall|i: int| j <= i < 6 implies #[trigger] m[side_cell(area, i)] == cells[side_cell(area, i)] by {
            assert(side_cell(area, i) != here);
        }
        assert forall|i: int| 0 <= i < j implies (#[trigger] m[side_cell(area, i)]).symbol == seq![plan[i].glyph] by {
            if i != j - 1 {
                assert(side_cell(area, i) != here);
            }
        }
    }
}

/// After the sides and the first `k` strokes of the top and bottom edges, drawn onto blank
/// cells: the sides are drawn, the edge cells reached show `─`, the others are still blank.
#[verifier::spinoff_prover]
proof fn lemma_edges_on_blank(cells: Map<(u16, u16), SpecCell>, area: Rect, style: Style, k: int)
    requires
        drawable(area),
        area.width >= 2,
        blank_key_rows(cells, area),
        0 <= k <= 2 * (area.width - 1),
    ensures
        ({
            let p = paint_strokes(cells, border_plan(area).take(6 + k), style);
            let x = area.x;
            let r = area.x + area.width - 1;
            let y = area.y;
            let b = (area.y + 2) as u16;
            &&& sides_drawn(p, area)
            &&& forall|c: u16, row: u16|
                area.x <= c < area.x + area.width && area.y <= row < area.y + KEY_H ==> #[trigger] p.contains_key(
                    (c, row),
                )
            &&& forall|c: u16|
                x < c < r ==> (#[trigger] p[(c, y)]).symbol == (if 2 * (c - x) < k {
                    seq!['─']
                } else {
                    seq![' ']
                })
            &&& forall|c: u16|
                x < c < r ==> (#[trigger] p[(c, b)]).symbol == (if 2 * (c - x) + 1 < k {
                    seq!['─']
                } else {
                    seq![' ']
                })
        }),
    decreases k,
{
    let plan = border_plan(area);
    let x = area.x;
    let r = (area.x + area.width - 1) as u16;
    let y = area.y;
    let b = (area.y + 2) as u16;
    if k == 0 {
        lemma_sides_on_blank(cells, area, style, 6);
        let m = paint_strokes(cells, plan.take(6), style);
        assert(m[side_cell(area, 0)].symbol == seq![plan[0].glyph]);
        assert(m[side_cell(area, 1)].symbol == seq![plan[1].glyph]);
        assert(m[side_cell(area, 2)].symbol == seq![plan[2].glyph]);
        assert(m[side_cell(area, 3)].symbol == seq![plan[3].glyph]);
        assert(m[side_cell(area, 4)].symbol == seq![plan[4].glyph]);
        assert(m[side_cell(area, 5)].symbol == seq![plan[5].glyph]);
        assert forall|c: u16| x < c < r implies (#[trigger] m[(c, y)]).symbol == seq![' '] by {
            assert(cells.contains_key((c, y)));
            assert(m[(c, y)] == cells[(c, y)]);
        }
        assert forall|c: u16| x < c < r implies (#[trigger] m[(c, b)]).symbol == seq![' '] by {
            assert(cells.contains_key((c, b)));
            assert(m[(c, b)] == cells[(c, b)]);
        }
    } else {
        lemma_edges_on_blank(cells, area, style, k - 1);
        let before = paint_strokes(cells, plan.take(6 + k - 1), style);
        assert(plan.take(6 + k).drop_last() =~= plan.take(6 + k - 1));
        let s = plan[6 + k - 1];
        let c = (x + (k - 1) / 2) as u16;
        if (k - 1) % 2 == 0 {
            assert(at(s) == (c, y));
        } else {
            assert(at(s) == (c, b));
        }
        law_border_on_blank('─');
    }
}

/// Drawn onto blank cells, the border of a key cap at least two columns wide shows its four
/// corners, its two sides, and its top and bottom edges.
#[verifier::spinoff_prover]
pub proof fn law_border_on_blank_cells(cells: Map<(u16, u16), SpecCell>, area: Rect, style: Style)
    requires
        drawable(area),
        area.width >= 2,
        blank_key_rows(cells, area),
    ensures
        sides_drawn(paint_strokes(cells, border_plan(area), style), area),
        forall|c: u16|
            area.x < c < area.x + area.width - 1 ==> (#[trigger] paint_strokes(cells, border_plan(area), style)[(
                c,
                area.y,
            )]).symbol == seq!['─'] && paint_strokes(cells, border_plan(area), style)[(c, (area.y + 2) as u16)].symbol
                == seq!['─'],
{
    let k = 2 * (area.width - 1);
    lemma_edges_on_blank(cells, area, style, k);
    assert(border_plan(area).take(6 + k) =~= border_plan(area));
}

/// Drawing a key cap draws its border, stroke by stroke in the border style, then its label
/// into the area inside the border.
pub proof fn law_key_cap_border_then_label(cells: Map<(u16, u16), SpecCell>, widget: KeyCapWidget, screen: Rect)
    ensures
        key_cap_painted(cells, widget, screen) == label_painted(
            paint_strokes(cells, border_plan(widget.key_cap.area), widget.border_style),
            widget,
            screen,
        ),
{
    reveal(key_cap_painted);
}

/// Drawing a keyboard draws, key after key in the order of its keys, the key cap widget that
/// `KeyCapWidget::new` makes of the key with the keyboard's cap and border styles.
pub proof fn law_keyboard_draws_keys_in_order(
    keyboard: KeyboardWidget,
    cells: Map<(u16, u16), SpecCell>,
    screen: Rect,
    i: int,
)
    requires
        0 <= i < keyboard.spec_keys().len(),
    ensures
        keyboard_key_caps(keyboard).len() == keyboard.spec_keys().len(),
        keyboard_key_caps(keyboard)[i] == key_cap_widget(
            keyboard.spec_keys()[i],
            keyboard.spec_cap_style(),
            keyboard.spec_border_style(),
        ),
        key_caps_painted(cells, keyboard_key_caps(keyboard).take(i + 1), screen) == key_cap_painted(
            key_caps_painted(cells, keyboard_key_caps(keyboard).take(i), screen),
            keyboard_key_caps(keyboard)[i],
            screen,
        ),
{
    reveal(keyboard_key_caps);
    let ws = keyboard_key_caps(keyboard);
    assert(ws.take(i + 1).drop_last() =~= ws.take(i));
}

/// Whether `cell` shows the colors that `style` sets.
pub open spec fn takes_colors(cell: SpecCell, style: Style) -> bool {
    &&& style.fg matches Some(c) ==> cell.fg == c
    &&& style.bg matches Some(c) ==> cell.bg == c
    &&& style.underline_color matches Some(c) ==> cell.underline_color == c
}

/// Drawing strokes in `style`: every cell that comes out different from what it was shows the
/// colors of `style`, and so does the cell of every stroke that draws over whatever the cell
/// shows (the sides of a border), whether its glyph changed it or not.
pub proof fn law_drawn_cells_take_the_style(
    cells: Map<(u16, u16), SpecCell>,
    strokes: Seq<BorderStroke>,
    style: Style,
)
    ensures
        forall|k: (u16, u16)|
            #[trigger] paint_strokes(cells, strokes, style)[k] != cells[k] ==> takes_colors(
                paint_strokes(cells, strokes, style)[k],
                style,
            ),
        forall|i: int|
            0 <= i < strokes.len() && !strokes[i].blank_only ==> takes_colors(
                paint_strokes(cells, strokes, style)[at(#[trigger] strokes[i])],
                style,
            ),
    decreases strokes.len(),
{
    if strokes.len() > 0 {
        let rest = strokes.drop_last();
        law_drawn_cells_take_the_style(cells, rest, style);
        let before = paint_strokes(cells, rest, style);
        let s = strokes.last();
        let after = paint_strokes(cells, strokes, style);
        assert(after == paint_stroke(before, s, style));
        assert forall|k: (u16, u16)| #[trigger] after[k] != cells[k] implies takes_colors(after[k], style) by {
            if k != at(s) || !(!s.blank_only || before[at(s)].symbol == seq![' ']) {
                assert(after[k] == before[k]);
            }
        }
        assert forall|i: int| 0 <= i < strokes.len() && !strokes[i].blank_only implies takes_colors(
            after[at(#[trigger] strokes[i])],
            style,
        ) by {
            if i < strokes.len() - 1 {
                assert(rest[i] == strokes[i]);
                assert(takes_colors(before[at(rest[i])], style));
                if at(strokes[i]) != at(s) || !(!s.blank_only || before[at(s)].symbol == seq![' ']) {
                    assert(after[at(strokes[i])] == before[at(strokes[i])]);
                }
            }
        }
    }
}

} // verus!
