use vstd::prelude::*;

verus! {

/// A cell position on the terminal: column `x`, row `y`.
#[derive(Debug, Clone, Copy, PartialEq, Eq, Structural, Default)]
pub struct Position {
    pub x: u16,
    pub y: u16,
}

/// A width and a height, in cells.
#[derive(Debug, Clone, Copy, PartialEq, Eq, Structural, Default)]
pub struct Size {
    pub width: u16,
    pub height: u16,
}

/// A rectangle of cells whose top left corner is `(x, y)`.
#[derive(Debug, Clone, Copy, PartialEq, Eq, Structural, Default)]
pub struct Rect {
    pub x: u16,
    pub y: u16,
    pub width: u16,
    pub height: u16,
}

/// How text is placed along a line.
#[derive(Debug, Clone, Copy, PartialEq, Eq, Structural)]
pub enum Alignment {
    Left,
    Center,
    Right,
}

impl Position {
    pub fn new(x: u16, y: u16) -> (r: Position)
        ensures
            r == (Position { x, y }),
    {
        Position { x, y }
    }
}

impl Size {
    pub fn new(width: u16, height: u16) -> (r: Size)
        ensures
            r == (Size { width, height }),
    {
        Size { width, height }
    }
}

/// The rectangle placed at `position` with extent `size`.
pub open spec fn rect_at(position: Position, size: Size) -> Rect {
    Rect { x: position.x, y: position.y, width: size.width, height: size.height }
}

/// `rect` shrunk by `horizontal` cells on the left and right and `vertical` cells on the
/// top and bottom; the empty rectangle at the origin where it is too small for that.
pub open spec fn inner_rect(rect: Rect, horizontal: u16, vertical: u16) -> Rect {
    let h2 = if 2 * horizontal > u16::MAX { u16::MAX as int } else { 2 * horizontal };
    let v2 = if 2 * vertical > u16::MAX { u16::MAX as int } else { 2 * vertical };
    if rect.width < h2 || rect.height < v2 {
        Rect { x: 0, y: 0, width: 0, height: 0 }
    } else {
        Rect {
            x: if rect.x + horizontal > u16::MAX { u16::MAX } else { (rect.x + horizontal) as u16 },
            y: if rect.y + vertical > u16::MAX { u16::MAX } else { (rect.y + vertical) as u16 },
            width: (rect.width - h2) as u16,
            height: (rect.height - v2) as u16,
        }
    }
}

/// A position and a size make the rectangle placed there.
impl From<(Position, Size)> for Rect {
    fn from(parts: (Position, Size)) -> (r: Rect) {
        let (position, size) = parts;
        Rect { x: position.x, y: position.y, width: size.width, height: size.height }
    }
}

impl vstd::std_specs::convert::FromSpecImpl<(Position, Size)> for Rect {
    open spec fn obeys_from_spec() -> bool {
        true
    }

    open spec fn from_spec(parts: (Position, Size)) -> Rect {
        Rect { x: parts.0.x, y: parts.0.y, width: parts.1.width, height: parts.1.height }
    }
}

impl Rect {
    /// The rectangle placed at `position` with extent `size`.
    pub fn from_parts(position: Position, size: Size) -> (r: Rect)
        ensures
            r == rect_at(position, size),
    {
        Rect { x: position.x, y: position.y, width: size.width, height: size.height }
    }

    /// This rectangle shrunk by a margin of `horizontal` columns and `vertical` rows.
    pub fn inner(self, horizontal: u16, vertical: u16) -> (r: Rect)
        ensures
            r == inner_rect(self, horizontal, vertical),
    {
        let h2 = if horizontal > u16::MAX / 2 { u16::MAX } else { horizontal * 2 };
        let v2 = if vertical > u16::MAX / 2 { u16::MAX } else { vertical * 2 };
        if self.width < h2 || self.height < v2 {
            Rect { x: 0, y: 0, width: 0, height: 0 }
        } else {
            Rect {
                x: self.x.saturating_add(horizontal),
                y: self.y.saturating_add(vertical),
                width: self.width - h2,
                height: self.height - v2,
            }
        }
    }
}

} // verus!
