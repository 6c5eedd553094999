use vstd::prelude::*;

verus! {

/// What one cell of the grid currently shows.
#[derive(Copy, Clone, Debug, PartialEq, Eq, Structural)]
pub enum PixelState {
    /// Nothing drawn yet.
    Empty,
    /// Part of a horizontal segment.
    HLine,
    /// Part of a vertical segment.
    VLine,
    /// A horizontal and a vertical segment meet here.
    Cross,
    /// A single drawn point.
    Pixel,
    /// Inside a filled shape.
    Filled,
    /// One character of text.
    Text(char),
    /// A circular point marker, solid (`true`) or hollow (`false`).
    Circle(bool),
}

/// The character shown for the interior of a filled shape (a full block).
pub const FILLED_CHAR: char = '\u{2588}';

/// The character that a cell in state `s` renders as.
pub open spec fn char_of(s: PixelState) -> char {
    match s {
        PixelState::Empty => ' ',
        PixelState::HLine => '-',
        PixelState::VLine => '|',
        PixelState::Cross => '+',
        PixelState::Pixel => '.',
        PixelState::Text(c) => c,
        PixelState::Circle(solid) => if solid { '@' } else { 'O' },
        PixelState::Filled => FILLED_CHAR,
    }
}

/// `a` and `b` are segments of opposite orientation.
pub open spec fn is_crossing_pair(a: PixelState, b: PixelState) -> bool {
    (a is HLine && b is VLine) || (a is VLine && b is HLine)
}

/// The mark a cell holds after `incoming` is drawn over `current`.
///
/// The first rule that applies decides: opposite segments make a crossing;
/// a filled cell absorbs everything; a marker beats everything but a fill
/// (the incoming marker where both are markers); a pixel beats everything
/// below it; otherwise the incoming mark replaces the current one.
pub open spec fn reduce(current: PixelState, incoming: PixelState) -> PixelState {
    if is_crossing_pair(current, incoming) {
        PixelState::Cross
    } else if current is Filled || incoming is Filled {
        PixelState::Filled
    } else if incoming is Circle {
        incoming
    } else if current is Circle {
        current
    } else if current is Pixel || incoming is Pixel {
        PixelState::Pixel
    } else {
        incoming
    }
}

/// A filled cell stays filled whatever is drawn over it, and filling a cell
/// makes it filled whatever it held.
pub proof fn lemma_filled_absorbs(m: PixelState)
    ensures
        reduce(PixelState::Filled, m) == PixelState::Filled,
        reduce(m, PixelState::Filled) == PixelState::Filled,
{
}

/// Drawing a vertical and a horizontal segment through the same cell leaves
/// a crossing there, in either order, where the cell was empty, a crossing
/// or text. (Over a segment the second stroke of the same orientation would
/// replace the crossing; a fill, a marker or a pixel outranks segments.)
pub proof fn lemma_crossing_either_order(m: PixelState)
    requires
        m is Empty || m is Cross || m is Text,
    ensures
        reduce(reduce(m, PixelState::VLine), PixelState::HLine) == PixelState::Cross,
        reduce(reduce(m, PixelState::HLine), PixelState::VLine) == PixelState::Cross,
{
}

impl PixelState {
    /// The character this cell renders as.
    pub fn to_char(self) -> (r: char)
        ensures
            r == char_of(self),
    {
        match self {
            PixelState::Empty => ' ',
            PixelState::HLine => '-',
            PixelState::VLine => '|',
            PixelState::Cross => '+',
            PixelState::Pixel => '.',
            PixelState::Text(c) => c,
            PixelState::Circle(solid) => {
                if solid {
                    '@'
                } else {
                    'O'
                }
            },
            PixelState::Filled => FILLED_CHAR,
        }
    }

    /// Draws `new_state` over this cell, merging the two marks.
    pub fn update(&mut self, new_state: PixelState)
        ensures
            *final(self) == reduce(*old(self), new_state),
    {
        let next_state = match (*self, new_state) {
            (PixelState::HLine, PixelState::VLine) => PixelState::Cross,
            (PixelState::VLine, PixelState::HLine) => PixelState::Cross,
            (PixelState::Filled, _) => PixelState::Filled,
            (_, PixelState::Filled) => PixelState::Filled,
            (_, PixelState::Circle(what)) => PixelState::Circle(what),
            (PixelState::Circle(what), _) => PixelState::Circle(what),
            (_, PixelState::Pixel) => PixelState::Pixel,
            (PixelState::Pixel, _) => PixelState::Pixel,
            (_, new) => new,
        };
        *self = next_state;
    }
}

} // verus!
