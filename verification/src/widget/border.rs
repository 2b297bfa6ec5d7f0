use vstd::prelude::*;

use crate::parser::scan::same_text;
use crate::widget::geometry::{Position, Rect};
use crate::widget::keyboard::KEY_H;

verus! {

/// One glyph of a key cap's border: drawn at `position`, and, where `blank_only` holds, only
/// onto a cell that shows a blank.
#[derive(Debug, Clone, Copy, PartialEq, Eq, Structural)]
pub struct BorderStroke {
    pub glyph: char,
    pub position: Position,
    pub blank_only: bool,
}

pub open spec fn stroke(glyph: char, x: int, y: int, blank_only: bool) -> BorderStroke {
    BorderStroke { glyph, position: Position { x: x as u16, y: y as u16 }, blank_only }
}

/// The rectangles whose border can be drawn: the column where they end and their right edge,
/// one column left of it, are columns of the screen, and so is their bottom row; where the
/// top and bottom edges have strokes (two columns or more), so is the row below the
/// rectangle. (A rectangle of no width that does not start in the first column has its
/// right side drawn in the column before its left side.)
pub open spec fn drawable(area: Rect) -> bool {
    &&& 1 <= area.x + area.width <= u16::MAX
    &&& area.y + KEY_H - 1 <= u16::MAX
    &&& area.width >= 2 ==> area.y + KEY_H <= u16::MAX
}

/// The number of top and bottom strokes of a border of `width` columns: two for each column
/// from the left edge up to the one before the right edge.
pub open spec fn edge_strokes(width: u16) -> nat {
    if width >= 1 {
        (2 * (width - 1)) as nat
    } else {
        0
    }
}

/// The strokes that draw the border of a key cap in `area`, in drawing order: the left side
/// top to bottom, the right side top to bottom, then, column by column from the left edge up
/// to the column before the right edge, the top and the bottom stroke of that column.
pub open spec fn border_plan(area: Rect) -> Seq<BorderStroke> {
    let x = area.x as int;
    let y = area.y as int;
    let right = area.x + area.width - 1;
    let bottom = area.y + (KEY_H - 1);
    seq![
        stroke('┌', x, y, false),
        stroke('│', x, y + 1, false),
        stroke('└', x, y + 2, false),
        stroke('┐', right, y, false),
        stroke('│', right, y + 1, false),
        stroke('┘', right, y + 2, false),
    ] + Seq::new(
        edge_strokes(area.width),
        |i: int| if i % 2 == 0 { stroke('─', x + i / 2, y, true) } else { stroke('─', x + i / 2, bottom, true) },
    )
}

/// The strokes that draw the border of a key cap in `area`.
pub fn border_strokes(area: Rect) -> (r: Vec<BorderStroke>)
    requires
        drawable(area),
    ensures
        r@ == border_plan(area),
{
    let x = area.x;
    let y = area.y;
    let right = area.x + area.width - 1;
    let mut strokes: Vec<BorderStroke> = Vec::new();
    strokes.push(BorderStroke { glyph: '┌', position: Position { x, y }, blank_only: false });
    strokes.push(BorderStroke { glyph: '│', position: Position { x, y: y + 1 }, blank_only: false });
    strokes.push(BorderStroke { glyph: '└', position: Position { x, y: y + 2 }, blank_only: false });
    strokes.push(BorderStroke { glyph: '┐', position: Position { x: right, y }, blank_only: false });
    strokes.push(BorderStroke { glyph: '│', position: Position { x: right, y: y + 1 }, blank_only: false });
    strokes.push(BorderStroke { glyph: '┘', position: Position { x: right, y: y + 2 }, blank_only: false });
    let ghost corners = strokes@;
    let ghost plan = border_plan(area);
    assert(corners =~= plan.take(6));
    let bottom = area.y + (KEY_H - 1);
    let mut column = area.x;
    while column < right
        invariant
            drawable(area),
            x == area.x,
            y == area.y,
            right == area.x + area.width - 1,
            bottom == area.y + KEY_H - 1,
            plan == border_plan(area),
            x <= column,
            column <= right || column == x,
            strokes@ == plan.take(6 + 2 * (column - x)),
        decreases right - column,
    {
        strokes.push(BorderStroke { glyph: '─', position: Position { x: column, y }, blank_only: true });
        strokes.push(BorderStroke { glyph: '─', position: Position { x: column, y: bottom }, blank_only: true });
        proof {
            let k = 2 * (column - x);
            assert(plan[6 + k] == stroke('─', x + k / 2, y as int, true));
            assert(plan[6 + k + 1] == stroke('─', x + (k + 1) / 2, bottom as int, true));
            assert(strokes@ =~= plan.take(6 + 2 * (column + 1 - x)));
        }
        column = column + 1;
    }
    assert(plan.take(6 + 2 * (column - x)) =~= plan);
    strokes
}

impl BorderStroke {
    /// Whether the stroke is drawn onto a cell that shows `symbol`.
    pub fn applies_to(&self, symbol: &str) -> (r: bool)
        ensures
            r == (!self.blank_only || symbol@ == seq![' ']),
    {
        if !self.blank_only {
            return true;
        }
        let blank = " ";
        proof {
            reveal_strlit(" ");
            assert(blank@ =~= seq![' ']);
        }
        same_text(symbol, blank)
    }
}

/// The glyphs that a key cap's border is drawn with.
pub open spec fn is_border_glyph(c: char) -> bool {
    c == '└' || c == '┌' || c == '┐' || c == '┘' || c == '│' || c == '─'
}

/// The glyph that a cell shows once the border glyph `decorate` is drawn over its glyph
/// `current`: where two key caps meet, their borders join.
pub open spec fn joined_glyph(decorate: char, current: char) -> char {
    if decorate == '└' {
        if current == ' ' || current == '─' { '└' }
        else if current == '┘' { '╨' }
        else if current == '╡' { '╬' }
        else if current == '┐' { '╪' }
        else if current == '╩' { current }
        else if current == '┌' { '├' }
        else { '└' }
    } else if decorate == '┌' {
        if current == ' ' || current == '─' { '┌' }
        else if current == '┘' { '╪' }
        else if current == '╡' { '╫' }
        else if current == '┤' { '╫' }
        else if current == '┐' { '╥' }
        else if current == '│' { current }
        else if current == '└' { '├' }
        else if current == '╨' { '╫' }
        else if current == '╫' { current }
        else if current == '╪' { '╫' }
        else { '┌' }
    } else if decorate == '┐' {
        if current == ' ' { '┐' }
        else if current == '─' { '┬' }
        else if current == '┌' { '╥' }
        else if current == '┘' { '┤' }
        else if current == '└' { '╪' }
        else if current == '╨' { '╫' }
        else { '┐' }
    } else if decorate == '┘' {
        if current == ' ' || current == '─' { '┘' }
        else if current == '┌' { '╪' }
        else if current == '└' { '╨' }
        else { '┘' }
    } else if decorate == '│' {
        if current == ' ' { '│' }
        else if current == '│' { '║' }
        else { '|' }
    } else {
        if current == ' ' || current == '─' { '─' }
        else { '#' }
    }
}

/// The glyph that a cell shows once the border glyph `decorate` is drawn over `current`.
pub fn join_border(decorate: char, current: char) -> (r: char)
    requires
        is_border_glyph(decorate),
    ensures
        r == joined_glyph(decorate, current),
{
    match decorate {
        '└' => match current {
            ' ' | '─' => '└',
            '┘' => '╨',
            '╡' => '╬',
            '┐' => '╪',
            '╩' => current,
            '┌' => '├',
            _ => '└',
        },
        '┌' => match current {
            ' ' | '─' => '┌',
            '┘' => '╪',
            '╡' => '╫',
            '┤' => '╫',
            '┐' => '╥',
            '│' => current,
            '└' => '├',
            '╨' => '╫',
            '╫' => current,
            '╪' => '╫',
            _ => '┌',
        },
        '┐' => match current {
            ' ' => '┐',
            '─' => '┬',
            '┌' => '╥',
            '┘' => '┤',
            '└' => '╪',
            '╨' => '╫',
            _ => '┐',
        },
        '┘' => match current {
            ' ' | '─' => '┘',
            '┌' => '╪',
            '└' => '╨',
            _ => '┘',
        },
        '│' => match current {
            ' ' => '│',
            '│' => '║',
            _ => '|',
        },
        _ => match current {
            ' ' | '─' => '─',
            _ => '#',
        },
    }
}

/// Whether `decorate` is one of the glyphs that a key cap's border is drawn with.
pub fn border_glyph(decorate: char) -> (r: bool)
    ensures
        r == is_border_glyph(decorate),
{
    decorate == '└' || decorate == '┌' || decorate == '┐' || decorate == '┘' || decorate == '│' || decorate == '─'
}

/// Every stroke of a key cap's border lies on the rim of its area: in its left or right
/// column, or in its top or bottom row, and inside the area.
pub proof fn law_border_on_rim(area: Rect)
    requires
        drawable(area),
        area.width >= 1,
    ensures
        forall|i: int|
            0 <= i < border_plan(area).len() ==> {
                let p = #[trigger] border_plan(area)[i].position;
                &&& area.x <= p.x < area.x + area.width
                &&& area.y <= p.y < area.y + KEY_H
                &&& (p.x == area.x || p.x == area.x + area.width - 1 || p.y == area.y || p.y
                    == area.y + KEY_H - 1)
            },
        border_plan(area).len() == 6 + edge_strokes(area.width),
{
    let plan = border_plan(area);
    assert forall|i: int| 0 <= i < plan.len() implies {
        let p = #[trigger] plan[i].position;
        &&& area.x <= p.x < area.x + area.width
        &&& area.y <= p.y < area.y + KEY_H
        &&& (p.x == area.x || p.x == area.x + area.width - 1 || p.y == area.y || p.y == area.y
            + KEY_H - 1)
    } by {
        if i >= 6 {
            let k = i - 6;
            assert(0 <= k / 2 < area.width - 1);
        }
    }
}

/// Drawing a border glyph onto a blank cell shows that glyph.
pub proof fn law_border_on_blank(decorate: char)
    requires
        is_border_glyph(decorate),
    ensures
        joined_glyph(decorate, ' ') == decorate,
{
}

/// The first six strokes of a border draw its sides, each onto whatever the cell shows; the
/// others draw its top and bottom, only onto blank cells; every stroke draws a border glyph.
pub proof fn lemma_plan_strokes(area: Rect)
    ensures
        forall|i: int|
            0 <= i < border_plan(area).len() ==> is_border_glyph(#[trigger] border_plan(area)[i].glyph)
                && (border_plan(area)[i].blank_only <==> i >= 6),
{
    let plan = border_plan(area);
    assert forall|i: int| 0 <= i < plan.len() implies is_border_glyph(#[trigger] plan[i].glyph) && (
    plan[i].blank_only <==> i >= 6) by {
        if i == 0 {
        } else if i == 1 {
        } else if i == 2 {
        } else if i == 3 {
        } else if i == 4 {
        } else if i == 5 {
        }
    }
}

} // verus!
