//! Layout options of text drawn with walls.
use vstd::prelude::*;

verus! {

#[derive(Copy, Clone, Debug, PartialEq, Eq, Structural)]
pub enum HorizontalAlign {
    Left,
    Center,
    Right,
}

#[derive(Copy, Clone, Debug, PartialEq, Eq, Structural)]
pub enum VerticalAlign {
    Top,
    Center,
    Bottom,
}

#[derive(Copy, Clone, Debug, PartialEq, Eq, Structural)]
pub enum TextLayout {
    Left,
    Right,
    Centered,
    Justified,
}

/// The wall font a text is built from.
#[derive(Copy, Clone, Debug, PartialEq, Eq, Structural)]
pub enum ObstacleFont {
    Simple,
}

} // verus!
