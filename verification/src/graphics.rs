//! The display's drawing instructions as data, and the sink that takes them.

use vstd::prelude::*;

verus! {

/// Width of the display in tiles.
pub const DISPLAY_WIDTH_TILES: u32 = 16;

/// Height of the display in tiles.
pub const DISPLAY_HEIGHT_TILES: u32 = 16;

/// Width of the display in pixels.
pub const DISPLAY_WIDTH: u32 = 32 * DISPLAY_WIDTH_TILES;

/// Height of the display in pixels.
pub const DISPLAY_HEIGHT: u32 = 32 * DISPLAY_HEIGHT_TILES;

/// What kind of game content an image instruction draws.
#[derive(Clone, Copy, PartialEq, Eq, Structural, Debug)]
pub enum DrawImageType {
    Block,
    Unit,
    Item,
    Liquid,
}

impl DrawImageType {
    /// The operand that stands for this kind in the image instruction.
    pub open spec fn spec_code(&self) -> u32 {
        match self {
            DrawImageType::Block => 0,
            DrawImageType::Unit => 1,
            DrawImageType::Item => 2,
            DrawImageType::Liquid => 3,
        }
    }

    /// The operand that stands for this kind in the image instruction.
    #[verifier::when_used_as_spec(spec_code)]
    pub fn code(&self) -> (code: u32)
        ensures
            code == self.spec_code(),
    {
        match self {
            DrawImageType::Block => 0,
            DrawImageType::Unit => 1,
            DrawImageType::Item => 2,
            DrawImageType::Liquid => 3,
        }
    }
}

/// One instruction to the display, with its operands in instruction order.
#[derive(Clone, Copy, PartialEq, Eq, Structural, Debug)]
pub enum DrawCommand {
    Clear { red: u8, green: u8, blue: u8 },
    Color { red: u8, green: u8, blue: u8, alpha: u8 },
    Col { color: u32 },
    Stroke { width: u32 },
    Line { x1: u32, y1: u32, x2: u32, y2: u32 },
    Rect { x: u32, y: u32, width: u32, height: u32 },
    LineRect { x: u32, y: u32, width: u32, height: u32 },
    Poly { x: u32, y: u32, sides: u32, radius: u32, rotation: u32 },
    LinePoly { x: u32, y: u32, sides: u32, radius: u32, rotation: u32 },
    Triangle { x1: u32, y1: u32, x2: u32, y2: u32, x3: u32, y3: u32 },
    Image { x: u32, y: u32, kind: DrawImageType, id: u32, size: u32, rotation: u32 },
    /// Draws the text printed so far at this position.
    Print { x: u32, y: u32 },
    Translate { x: u32, y: u32 },
    Scale { x: u32, y: u32 },
    Rotate { degrees: u32 },
    Reset,
    Flush,
    /// Appends one character to the text that the next `Print` draws.
    PrintChar { c: char },
}

/// Something that takes display instructions: the display itself, or a list
/// that keeps them.
pub trait Graphics {
    /// Every instruction submitted so far, oldest first.
    ///
    /// The display itself has nowhere to keep this record and leaves the
    /// definition as it stands here. Of it the contract of `draw` is taken on
    /// trust: it is then read as "this method executes this instruction".
    open spec fn drawn(&self) -> Seq<DrawCommand> {
        Seq::empty()
    }

    /// Submits one instruction.
    fn draw(&mut self, command: DrawCommand)
        ensures
            final(self).drawn() == old(self).drawn().push(command),
    ;
}

/// A sink that keeps the instructions it is given.
pub struct DrawList {
    commands: Vec<DrawCommand>,
}

impl DrawList {
    /// An empty list.
    pub fn new() -> (list: Self)
        ensures
            list.drawn() == Seq::<DrawCommand>::empty(),
    {
        DrawList { commands: Vec::new() }
    }

    /// The instructions kept so far, oldest first.
    pub fn commands(&self) -> (commands: &Vec<DrawCommand>)
        ensures
            commands@ == self.drawn(),
    {
        &self.commands
    }
}

impl Graphics for DrawList {
    closed spec fn drawn(&self) -> Seq<DrawCommand> {
        self.commands@
    }

    fn draw(&mut self, command: DrawCommand) {
        self.commands.push(command);
    }
}

} // verus!
