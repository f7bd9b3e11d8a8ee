//! A text printer for the display: it keeps a pen position in pixels, feeds
//! characters to the display's text buffer and breaks lines at the right edge.

use crate::graphics::{DrawCommand, Graphics};
use vstd::prelude::*;
use vstd::string::StrSliceExecFns;

verus! {

/// Width of one character cell in pixels.
pub const CHAR_WIDTH: u32 = 7;

/// Height of one character cell in pixels.
pub const CHAR_HEIGHT: u32 = 13;

/// Horizontal position of the first character of a line.
pub const BASE_X: u32 = 7;

/// Vertical position of the first line.
pub const BASE_Y: u32 = 508;

/// The pen offset beyond which a line is broken.
pub const LINE_LIMIT: u32 = 497;

/// The colour that text is drawn in.
pub const INK: u32 = 0xffff_ffff;

/// The colour that erases a character cell.
pub const PAPER: u32 = 0x0000_00ff;

/// Where the next character goes: offsets from the base position, `x` to the
/// right and `y` down.
pub struct Pen {
    pub x: int,
    pub y: int,
}

/// Whether `c` is a control code: U+0000 to U+001F, or U+007F to U+009F.
pub open spec fn spec_is_control(c: char) -> bool {
    c as u32 <= 0x1f || 0x7f <= c as u32 <= 0x9f
}

/// Whether `c` is a control code: U+0000 to U+001F, or U+007F to U+009F.
#[verifier::when_used_as_spec(spec_is_control)]
pub fn is_control(c: char) -> (control: bool)
    ensures
        control == spec_is_control(c),
{
    let code = c as u32;
    code <= 0x1f || (0x7f <= code && code <= 0x9f)
}

/// The pen at the start of the next line.
pub open spec fn line_feed(pen: Pen) -> Pen {
    Pen { x: 0, y: pen.y + CHAR_HEIGHT }
}

/// The pen after a character that takes a cell: one cell to the right, and
/// from there to the start of the next line if that is beyond the limit.
pub open spec fn advance(pen: Pen) -> Pen {
    if pen.x + CHAR_WIDTH > LINE_LIMIT {
        line_feed(pen)
    } else {
        Pen { x: pen.x + CHAR_WIDTH, y: pen.y }
    }
}

/// What a character that takes a cell sends to the display: itself, after a
/// line feed where the line is broken.
pub open spec fn advance_draws(pen: Pen, c: char) -> Seq<DrawCommand> {
    if pen.x + CHAR_WIDTH > LINE_LIMIT {
        seq![DrawCommand::PrintChar { c: '\n' }, DrawCommand::PrintChar { c }]
    } else {
        seq![DrawCommand::PrintChar { c }]
    }
}

/// Whether a character that takes a cell can be printed at `pen` without the
/// pen leaving the range of a `u32`.
pub open spec fn advance_fits(pen: Pen) -> bool {
    &&& pen.x + CHAR_WIDTH <= u32::MAX
    &&& pen.x + CHAR_WIDTH > LINE_LIMIT ==> pen.y + CHAR_HEIGHT <= u32::MAX
}

/// The cell that a backspace at `pen` erases.
pub open spec fn erased_cell(pen: Pen) -> DrawCommand {
    DrawCommand::Rect {
        x: (BASE_X + pen.x - CHAR_WIDTH) as u32,
        y: (BASE_Y - pen.y - CHAR_HEIGHT - 3) as u32,
        width: CHAR_WIDTH,
        height: CHAR_HEIGHT,
    }
}

/// The pen after `c`.
///
/// - A line feed moves to the start of the next line.
/// - A tab counts as four spaces.
/// - A backspace moves one cell back, unless the pen is in the first cell.
/// - Any other control code leaves the pen where it is.
/// - Any other character takes a cell.
pub open spec fn pen_after_char(pen: Pen, c: char) -> Pen {
    if c == '\n' {
        line_feed(pen)
    } else if c == '\t' {
        advance(advance(advance(advance(pen))))
    } else if c == '\u{8}' && pen.x >= CHAR_WIDTH {
        Pen { x: pen.x - CHAR_WIDTH, y: pen.y }
    } else if is_control(c) {
        pen
    } else {
        advance(pen)
    }
}

/// What `c`, printed at `pen`, sends to the display.
pub open spec fn char_draws(pen: Pen, c: char) -> Seq<DrawCommand> {
    if c == '\n' {
        seq![DrawCommand::PrintChar { c: '\n' }]
    } else if c == '\t' {
        advance_draws(pen, ' ') + advance_draws(advance(pen), ' ') + advance_draws(
            advance(advance(pen)),
            ' ',
        ) + advance_draws(advance(advance(advance(pen))), ' ')
    } else if c == '\u{8}' && pen.x >= CHAR_WIDTH {
        seq![
            DrawCommand::Col { color: PAPER },
            erased_cell(pen),
            DrawCommand::Col { color: INK },
        ]
    } else if is_control(c) {
        Seq::empty()
    } else {
        advance_draws(pen, c)
    }
}

/// Whether `c` can be printed at `pen` without a coordinate leaving the range
/// of a `u32`.
pub open spec fn char_fits(pen: Pen, c: char) -> bool {
    if c == '\n' {
        pen.y + CHAR_HEIGHT <= u32::MAX
    } else if c == '\t' {
        &&& advance_fits(pen)
        &&& advance_fits(advance(pen))
        &&& advance_fits(advance(advance(pen)))
        &&& advance_fits(advance(advance(advance(pen))))
    } else if c == '\u{8}' && pen.x >= CHAR_WIDTH {
        &&& BASE_X + pen.x - CHAR_WIDTH <= u32::MAX
        &&& pen.y + CHAR_HEIGHT + 3 <= BASE_Y
    } else if is_control(c) {
        true
    } else {
        advance_fits(pen)
    }
}

/// The pen after the characters of `text`, printed in order from `pen`.
pub open spec fn pen_after(pen: Pen, text: Seq<char>) -> Pen
    decreases text.len(),
{
    if text.len() == 0 {
        pen
    } else {
        pen_after_char(pen_after(pen, text.drop_last()), text.last())
    }
}

/// What the characters of `text`, printed in order from `pen`, send to the
/// display.
pub open spec fn text_draws(pen: Pen, text: Seq<char>) -> Seq<DrawCommand>
    decreases text.len(),
{
    if text.len() == 0 {
        Seq::empty()
    } else {
        text_draws(pen, text.drop_last()) + char_draws(
            pen_after(pen, text.drop_last()),
            text.last(),
        )
    }
}

/// Whether every character of `text` fits where it is printed, starting from
/// `pen`.
pub open spec fn text_fits(pen: Pen, text: Seq<char>) -> bool
    decreases text.len(),
{
    if text.len() == 0 {
        true
    } else {
        text_fits(pen, text.drop_last()) && char_fits(
            pen_after(pen, text.drop_last()),
            text.last(),
        )
    }
}

/// A text that fits, fits up to any point of it.
pub proof fn lemma_prefix_fits(pen: Pen, text: Seq<char>, n: int)
    requires
        text_fits(pen, text),
        0 <= n <= text.len(),
    ensures
        text_fits(pen, text.take(n)),
    decreases text.len(),
{
    if n == text.len() {
        assert(text.take(n) =~= text);
    } else {
        lemma_prefix_fits(pen, text.drop_last(), n);
        assert(text.drop_last().take(n) =~= text.take(n));
    }
}

/// The text printer. `target` takes what it draws.
pub struct DisplayPrinter<G: Graphics> {
    target: G,
    cur_x: u32,
    next_x: u32,
    cur_y: u32,
    next_y: u32,
}

impl<G: Graphics> DisplayPrinter<G> {
    /// The sink that takes what the printer draws.
    pub closed spec fn target(&self) -> G {
        self.target
    }

    /// Every instruction submitted to the display so far, oldest first: the
    /// sink's own record, to which the printer can add only by drawing.
    pub open spec fn drawn(&self) -> Seq<DrawCommand> {
        self.target().drawn()
    }

    /// Where the next character goes.
    pub closed spec fn pen(&self) -> Pen {
        Pen { x: self.next_x as int, y: self.next_y as int }
    }

    /// Where the text printed since the last flush begins.
    pub closed spec fn anchor(&self) -> Pen {
        Pen { x: self.cur_x as int, y: self.cur_y as int }
    }

    /// A printer on `target`, with the pen at the base position. Nothing is
    /// drawn.
    pub fn new(target: G) -> (printer: Self)
        ensures
            printer.target() == target,
            printer.pen() == (Pen { x: 0, y: 0 }),
            printer.anchor() == (Pen { x: 0, y: 0 }),
    {
        DisplayPrinter {
            target,
            cur_x: 0,
            next_x: 0,
            cur_y: 0,
            next_y: 0,
        }
    }

    /// The sink that takes what the printer draws.
    pub fn target_ref(&self) -> (target: &G)
        ensures
            *target == self.target(),
    {
        &self.target
    }

    /// The pen's offsets from the base position, to the right and down.
    pub fn pen_offset(&self) -> (offset: (u32, u32))
        ensures
            offset.0 == self.pen().x,
            offset.1 == self.pen().y,
    {
        (self.next_x, self.next_y)
    }

    /// The offsets, to the right and down, of the place where the text
    /// printed since the last flush begins.
    pub fn anchor_offset(&self) -> (offset: (u32, u32))
        ensures
            offset.0 == self.anchor().x,
            offset.1 == self.anchor().y,
    {
        (self.cur_x, self.cur_y)
    }

    /// Puts the pen back at the base position and wipes the display: reset,
    /// clear to black, ink colour, flush.
    pub fn clear(&mut self)
        ensures
            final(self).pen() == (Pen { x: 0, y: 0 }),
            final(self).anchor() == (Pen { x: 0, y: 0 }),
            final(self).drawn() == old(self).drawn() + seq![
                DrawCommand::Reset,
                DrawCommand::Clear { red: 0, green: 0, blue: 0 },
                DrawCommand::Col { color: INK },
                DrawCommand::Flush,
            ],
    {
        self.cur_x = 0;
        self.next_x = 0;
        self.cur_y = 0;
        self.next_y = 0;
        self.target.draw(DrawCommand::Reset);
        self.target.draw(DrawCommand::Clear { red: 0, green: 0, blue: 0 });
        self.target.draw(DrawCommand::Col { color: INK });
        self.target.draw(DrawCommand::Flush);
        proof {
            assert(self.drawn() =~= old(self).drawn() + seq![
                DrawCommand::Reset,
                DrawCommand::Clear { red: 0, green: 0, blue: 0 },
                DrawCommand::Col { color: INK },
                DrawCommand::Flush,
            ]);
        }
    }

    /// Moves the pen to the start of the next line.
    fn handle_line_feed(&mut self)
        requires
            old(self).pen().y + CHAR_HEIGHT <= u32::MAX,
        ensures
            final(self).pen() == line_feed(old(self).pen()),
            final(self).anchor() == old(self).anchor(),
            final(self).drawn() == old(self).drawn(),
    {
        self.next_x = 0;
        self.next_y = self.next_y + CHAR_HEIGHT;
    }

    /// Prints a character that takes a cell.
    fn put(&mut self, c: char)
        requires
            advance_fits(old(self).pen()),
        ensures
            final(self).pen() == advance(old(self).pen()),
            final(self).anchor() == old(self).anchor(),
            final(self).drawn() == old(self).drawn() + advance_draws(old(self).pen(), c),
    {
        self.next_x = self.next_x + CHAR_WIDTH;
        if self.next_x > LINE_LIMIT {
            self.target.draw(DrawCommand::PrintChar { c: '\n' });
            self.handle_line_feed();
        }
        self.target.draw(DrawCommand::PrintChar { c });
        proof {
            assert(self.drawn() =~= old(self).drawn() + advance_draws(old(self).pen(), c));
        }
    }

    /// Whether a character that takes a cell fits at the offsets `x`, `y`.
    fn cell_fits(x: u32, y: u32) -> (fits: bool)
        ensures
            fits == advance_fits(Pen { x: x as int, y: y as int }),
    {
        x <= u32::MAX - CHAR_WIDTH && (x + CHAR_WIDTH <= LINE_LIMIT || y <= u32::MAX - CHAR_HEIGHT)
    }

    /// The offsets after a character that takes a cell at the offsets `x`,
    /// `y`.
    fn cell_after(x: u32, y: u32) -> (next: (u32, u32))
        requires
            advance_fits(Pen { x: x as int, y: y as int }),
        ensures
            (Pen { x: next.0 as int, y: next.1 as int }) == advance(Pen { x: x as int, y: y as int }),
    {
        if x + CHAR_WIDTH > LINE_LIMIT {
            (0, y + CHAR_HEIGHT)
        } else {
            (x + CHAR_WIDTH, y)
        }
    }

    /// Whether `print_char` may be called with `c`: no coordinate would leave
    /// the range of a `u32`.
    pub fn can_print(&self, c: char) -> (fits: bool)
        ensures
            fits == char_fits(self.pen(), c),
    {
        let x = self.next_x;
        let y = self.next_y;
        if c == '\n' {
            y <= u32::MAX - CHAR_HEIGHT
        } else if c == '\t' {
            if !Self::cell_fits(x, y) {
                return false;
            }
            let first = Self::cell_after(x, y);
            if !Self::cell_fits(first.0, first.1) {
                return false;
            }
            let second = Self::cell_after(first.0, first.1);
            if !Self::cell_fits(second.0, second.1) {
                return false;
            }
            let third = Self::cell_after(second.0, second.1);
            Self::cell_fits(third.0, third.1)
        } else if c == '\u{8}' && x >= CHAR_WIDTH {
            x - CHAR_WIDTH <= u32::MAX - BASE_X && y <= BASE_Y - CHAR_HEIGHT - 3
        } else if is_control(c) {
            true
        } else {
            Self::cell_fits(x, y)
        }
    }

    /// Whether `flush` may be called: the place where the text begins lies on
    /// or above the base line and within the range of a `u32`.
    pub fn can_flush(&self) -> (fits: bool)
        ensures
            fits == (BASE_X + self.anchor().x <= u32::MAX && self.anchor().y <= BASE_Y),
    {
        self.cur_x <= u32::MAX - BASE_X && self.cur_y <= BASE_Y
    }

    /// Prints one character: see `pen_after_char` for what it does to the
    /// pen and `char_draws` for what it sends to the display.
    pub fn print_char(&mut self, c: char)
        requires
            char_fits(old(self).pen(), c),
        ensures
            final(self).pen() == pen_after_char(old(self).pen(), c),
            final(self).anchor() == old(self).anchor(),
            final(self).drawn() == old(self).drawn() + char_draws(old(self).pen(), c),
    {
        if c == '\n' {
            self.target.draw(DrawCommand::PrintChar { c });
            self.handle_line_feed();
            proof {
                assert(self.drawn() =~= old(self).drawn() + char_draws(old(self).pen(), c));
            }
        } else if c == '\t' {
            self.put(' ');
            self.put(' ');
            self.put(' ');
            self.put(' ');
            proof {
                assert(self.drawn() =~= old(self).drawn() + char_draws(old(self).pen(), c));
            }
        } else if c == '\u{8}' && self.next_x >= CHAR_WIDTH {
            self.next_x = self.next_x - CHAR_WIDTH;
            self.target.draw(DrawCommand::Col { color: PAPER });
            self.target.draw(
                DrawCommand::Rect {
                    x: BASE_X + self.next_x,
                    y: BASE_Y - self.next_y - CHAR_HEIGHT - 3,
                    width: CHAR_WIDTH,
                    height: CHAR_HEIGHT,
                },
            );
            self.target.draw(DrawCommand::Col { color: INK });
            proof {
                assert(self.drawn() =~= old(self).drawn() + char_draws(old(self).pen(), c));
            }
        } else if is_control(c) {
            proof {
                assert(self.drawn() =~= old(self).drawn() + char_draws(old(self).pen(), c));
            }
        } else {
            self.put(c);
        }
    }

    /// Prints the characters of `s` in order.
    pub fn print_str(&mut self, s: &str)
        requires
            text_fits(old(self).pen(), s@),
        ensures
            final(self).pen() == pen_after(old(self).pen(), s@),
            final(self).anchor() == old(self).anchor(),
            final(self).drawn() == old(self).drawn() + text_draws(old(self).pen(), s@),
    {
        let n = s.unicode_len();
        let mut i: usize = 0;
        proof {
            assert(s@.take(0) =~= Seq::<char>::empty());
            assert(self.drawn() + Seq::<DrawCommand>::empty() =~= self.drawn());
        }
        while i < n
            invariant
                i <= n,
                n == s@.len(),
                text_fits(old(self).pen(), s@),
                self.pen() == pen_after(old(self).pen(), s@.take(i as int)),
                self.anchor() == old(self).anchor(),
                self.drawn() == old(self).drawn() + text_draws(old(self).pen(), s@.take(i as int)),
            decreases n - i,
        {
            let c = s.get_char(i);
            proof {
                lemma_prefix_fits(old(self).pen(), s@, i + 1);
                assert(s@.take(i + 1).drop_last() =~= s@.take(i as int));
                assert(s@.take(i + 1).last() == c);
            }
            let ghost before = self.drawn();
            self.print_char(c);
            proof {
                let start = old(self).pen();
                let head = s@.take(i as int);
                assert(self.drawn() =~= old(self).drawn() + (text_draws(start, head) + char_draws(
                    pen_after(start, head),
                    c,
                )));
            }
            i = i + 1;
        }
        proof {
            assert(s@.take(n as int) =~= s@);
        }
    }

    /// Draws the text printed since the last flush at the place where it
    /// begins, and lets the next text begin at the pen.
    pub fn flush(&mut self)
        requires
            BASE_X + old(self).anchor().x <= u32::MAX,
            old(self).anchor().y <= BASE_Y,
        ensures
            final(self).pen() == old(self).pen(),
            final(self).anchor() == old(self).pen(),
            final(self).drawn() == old(self).drawn().push(
                DrawCommand::Print {
                    x: (BASE_X + old(self).anchor().x) as u32,
                    y: (BASE_Y - old(self).anchor().y) as u32,
                },
            ),
    {
        self.target.draw(DrawCommand::Print { x: BASE_X + self.cur_x, y: BASE_Y - self.cur_y });
        self.cur_x = self.next_x;
        self.cur_y = self.next_y;
    }
}

} // verus!
