use vstd::prelude::*;

verus! {

/// One character cell to be drawn on the terminal: position, palette slots of the
/// foreground and background, and the code page 437 glyph.
#[derive(Clone, Copy, PartialEq, Eq, Structural, Debug)]
pub struct ScreenCell {
    pub x: i32,
    pub y: i32,
    pub fg: u8,
    pub bg: u8,
    pub glyph: u16,
}

/// Text to print: a fixed string, or one the application renders from the world (a
/// health line, the depth, an entry of the game log, the name of a listed entity).
#[derive(Clone, Copy, PartialEq, Eq, Debug)]
pub enum Text {
    Literal { s: &'static str },
    Health { hp: i32, max_hp: i32 },
    Depth { depth: i32 },
    LogEntry { index: usize },
    Name { index: usize },
}

/// One drawing call on the terminal, with colours as palette slots.
#[derive(Clone, Copy, PartialEq, Eq, Debug)]
pub enum DrawCommand {
    SetCell { x: i32, y: i32, fg: u8, bg: u8, glyph: u16 },
    SetBg { x: i32, y: i32, bg: u8 },
    Print { x: i32, y: i32, text: Text },
    PrintColor { x: i32, y: i32, fg: u8, bg: u8, text: Text },
    PrintColorCentered { y: i32, fg: u8, bg: u8, text: Text },
    /// Fills the rectangle of width `w` and height `h` at `(x, y)` with a glyph.
    FillRegion { x: i32, y: i32, w: i32, h: i32, glyph: u16, fg: u8, bg: u8 },
    HollowBox { x: i32, y: i32, w: i32, h: i32, fg: u8, bg: u8 },
    DoubleBox { x: i32, y: i32, w: i32, h: i32, fg: u8, bg: u8 },
    /// A horizontal bar of `width` cells, filled in proportion `n / max`.
    BarHorizontal { x: i32, y: i32, width: i32, n: i32, max: i32, fg: u8, bg: u8 },
    ClsBg { bg: u8 },
    /// The title artwork, drawn from `(x, y)`.
    MenuArt { x: i32, y: i32 },
}

} // verus!
