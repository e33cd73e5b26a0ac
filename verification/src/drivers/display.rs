//! Drawing primitives of the panel and the manager that takes them.
//!
//! The manager does not touch hardware. It records each primitive that the
//! widgets issue, in order, for the caller to carry out on the panel, and it
//! refuses primitives while the caller has marked the panel as not
//! answering.

use crate::text::{decimal, decimal_digits};
use display_interface::DisplayError as InterfaceError;
use vstd::prelude::*;
use vstd::string::*;

verus! {

/// Height of a progress bar, in pixels.
pub const PROGRESS_BAR_HEIGHT: u32 = 8;

/// Size of text. Each size has a fixed glyph cell, by which text is measured.
#[derive(Clone, Copy, Debug, PartialEq, Eq)]
pub enum TextSize {
    Small,
    Normal,
    Large,
}

/// Width of one glyph cell of `size`, in pixels.
pub open spec fn char_width(size: TextSize) -> int {
    match size {
        TextSize::Small => 5,
        TextSize::Normal => 6,
        TextSize::Large => 8,
    }
}

/// Height of one line of `size`, in pixels.
pub open spec fn line_height(size: TextSize) -> int {
    match size {
        TextSize::Small => 8,
        TextSize::Normal => 10,
        TextSize::Large => 16,
    }
}

impl TextSize {
    /// Width of one glyph cell, in pixels.
    pub fn char_width(&self) -> (w: u32)
        ensures
            w == char_width(*self),
    {
        match self {
            TextSize::Small => 5,
            TextSize::Normal => 6,
            TextSize::Large => 8,
        }
    }

    /// Height of one line, in pixels.
    pub fn line_height(&self) -> (h: u32)
        ensures
            h == line_height(*self),
    {
        match self {
            TextSize::Small => 8,
            TextSize::Normal => 10,
            TextSize::Large => 16,
        }
    }
}

/// What can go wrong with the display.
#[derive(Clone, Copy, Debug, PartialEq, Eq)]
pub enum DisplayError {
    /// The panel could not be initialised.
    DriverError,
    /// The panel refused a drawing primitive.
    DrawError,
    /// The bus failed; the code is the one that the bus driver reported.
    I2CError(i32),
}

/// The text of a bus error code: decimal, with a minus sign below zero.
pub open spec fn code_text(code: i32) -> Seq<char> {
    if code < 0 {
        seq!['-'] + decimal_digits((-code) as nat)
    } else {
        decimal_digits(code as nat)
    }
}

/// The message of `error`.
pub open spec fn error_message(error: DisplayError) -> Seq<char> {
    match error {
        DisplayError::DriverError => "Display driver initialisation error"@,
        DisplayError::DrawError => "Error drawing to display"@,
        DisplayError::I2CError(code) => "I2C Communication error: "@ + code_text(code),
    }
}

impl DisplayError {
    /// A message for people.
    pub fn message(&self) -> (text: String)
        ensures
            text@ == error_message(*self),
    {
        match self {
            DisplayError::DriverError => String::from_str("Display driver initialisation error"),
            DisplayError::DrawError => String::from_str("Error drawing to display"),
            DisplayError::I2CError(code) => {
                let mut text = String::from_str("I2C Communication error: ");
                if *code < 0 {
                    proof {
                        reveal_strlit("-");
                    }
                    text.append("-");
                    let magnitude: u32 = if *code == i32::MIN {
                        0x8000_0000
                    } else {
                        (-*code) as u32
                    };
                    let digits = decimal(magnitude);
                    text.append(digits.as_str());
                    assert(text@ =~= error_message(*self));
                } else {
                    let digits = decimal(*code as u32);
                    text.append(digits.as_str());
                }
                text
            },
        }
    }
}


/// `display_interface::DisplayError`, the error that the bus interface crates
/// and the display drivers built on them hand up. Its values are opaque
/// here: nothing is claimed of them.
#[verifier::external_type_specification]
#[verifier::external_body]
pub struct ExInterfaceError(InterfaceError);

impl From<InterfaceError> for DisplayError {
    /// Whatever the interface reports counts as a refused primitive.
    fn from(error: InterfaceError) -> (converted: Self) {
        DisplayError::DrawError
    }
}

impl vstd::std_specs::convert::FromSpecImpl<InterfaceError> for DisplayError {
    open spec fn obeys_from_spec() -> bool {
        true
    }

    open spec fn from_spec(error: InterfaceError) -> Self {
        DisplayError::DrawError
    }
}

/// One drawing primitive, as the manager records it.
#[derive(Debug, PartialEq, Eq)]
pub enum DrawCommand {
    /// Blank the frame.
    Clear,
    /// Show the frame on the panel.
    Flush,
    /// Text with its top left corner at `(x, y)`.
    Text { text: String, x: i32, y: i32, size: TextSize },
    /// A rectangle with its top left corner at `(x, y)`: filled, or a
    /// one-pixel outline.
    Rectangle { x: i32, y: i32, width: u32, height: u32, filled: bool },
}

impl Clone for DrawCommand {
    fn clone(&self) -> (copy: Self)
        ensures
            copy == *self,
    {
        match self {
            DrawCommand::Clear => DrawCommand::Clear,
            DrawCommand::Flush => DrawCommand::Flush,
            DrawCommand::Text { text, x, y, size } => DrawCommand::Text {
                text: text.clone(),
                x: *x,
                y: *y,
                size: *size,
            },
            DrawCommand::Rectangle { x, y, width, height, filled } => DrawCommand::Rectangle {
                x: *x,
                y: *y,
                width: *width,
                height: *height,
                filled: *filled,
            },
        }
    }
}

/// A drawing primitive as a mathematical value.
pub enum DrawOp {
    Clear,
    Flush,
    Text { text: Seq<char>, x: i32, y: i32, size: TextSize },
    Rectangle { x: i32, y: i32, width: u32, height: u32, filled: bool },
}

impl View for DrawCommand {
    type V = DrawOp;

    open spec fn view(&self) -> DrawOp {
        match *self {
            DrawCommand::Clear => DrawOp::Clear,
            DrawCommand::Flush => DrawOp::Flush,
            DrawCommand::Text { text, x, y, size } => DrawOp::Text { text: text@, x, y, size },
            DrawCommand::Rectangle { x, y, width, height, filled } => DrawOp::Rectangle {
                x,
                y,
                width,
                height,
                filled,
            },
        }
    }
}

/// The primitives that `commands` stand for, in order.
pub open spec fn ops_of(commands: Seq<DrawCommand>) -> Seq<DrawOp> {
    Seq::new(commands.len(), |i: int| commands[i]@)
}

/// Width of the filled part of a progress bar `width` pixels wide at
/// `progress` percent; anything over 100 counts as 100.
pub open spec fn fill_width(width: u32, progress: u8) -> int {
    if progress >= 100 {
        width as int
    } else {
        width * progress / 100
    }
}

/// Whether a progress bar can be drawn at `(x, y)`: where it has a filled
/// part, that part starts one pixel in, which must still be a coordinate.
pub open spec fn progress_bar_fits(x: i32, y: i32, width: u32, progress: u8) -> bool {
    fill_width(width, progress) > 0 ==> x < i32::MAX && y < i32::MAX
}

/// The primitives of a progress bar: the outline, eight pixels high, then,
/// unless the filled part is empty, a filled rectangle one pixel inside the
/// outline, two pixels narrower than the filled part and never narrower
/// than nothing.
pub open spec fn progress_bar_ops(x: i32, y: i32, width: u32, progress: u8) -> Seq<DrawOp> {
    let outline = DrawOp::Rectangle { x, y, width, height: PROGRESS_BAR_HEIGHT, filled: false };
    let fill = fill_width(width, progress);
    if fill > 0 {
        seq![
            outline,
            DrawOp::Rectangle {
                x: (x + 1) as i32,
                y: (y + 1) as i32,
                width: (if fill >= 2 {
                    fill - 2
                } else {
                    0
                }) as u32,
                height: 6,
                filled: true,
            },
        ]
    } else {
        seq![outline]
    }
}

/// The display manager: the primitives issued and not yet taken by the
/// caller, oldest first, and whether the panel answers.
pub struct DisplayManager {
    commands: Vec<DrawCommand>,
    online: bool,
}

impl View for DisplayManager {
    type V = Seq<DrawOp>;

    closed spec fn view(&self) -> Seq<DrawOp> {
        ops_of(self.commands@)
    }
}

/// What issuing `ops` to a display does: a panel that answers takes them
/// all, in order; one that does not takes none and the call fails with
/// `DrawError`. Whether the panel answers is for the caller to say, not for
/// a primitive to change.
pub open spec fn issued(
    before: DisplayManager,
    after: DisplayManager,
    ops: Seq<DrawOp>,
    result: Result<(), DisplayError>,
) -> bool {
    &&& after.is_online() == before.is_online()
    &&& before.is_online() ==> result is Ok && after@ == before@ + ops
    &&& !before.is_online() ==> result == Err::<(), DisplayError>(DisplayError::DrawError)
        && after@ == before@
}

impl DisplayManager {
    /// Whether the panel answers.
    pub closed spec fn is_online(&self) -> bool {
        self.online
    }

    /// A manager of a panel that answers, with nothing issued.
    pub fn new() -> (display: Self)
        ensures
            display@ == Seq::<DrawOp>::empty(),
            display.is_online(),
    {
        let display = DisplayManager { commands: Vec::new(), online: true };
        assert(display@ =~= Seq::<DrawOp>::empty());
        display
    }

    /// Whether the panel answers.
    pub fn online(&self) -> (online: bool)
        ensures
            online == self.is_online(),
    {
        self.online
    }

    /// Records whether the panel answers, as the caller found when it last
    /// carried primitives out.
    pub fn set_online(&mut self, online: bool)
        ensures
            final(self).is_online() == online,
            final(self)@ == old(self)@,
    {
        self.online = online;
    }

    /// Number of primitives issued and not yet taken.
    pub fn pending(&self) -> (n: usize)
        ensures
            n == self@.len(),
    {
        self.commands.len()
    }

    /// Hands out the primitives issued since the last call, oldest first, for
    /// the caller to carry out, and forgets them.
    pub fn take_commands(&mut self) -> (commands: Vec<DrawCommand>)
        ensures
            ops_of(commands@) == old(self)@,
            final(self)@ == Seq::<DrawOp>::empty(),
            final(self).is_online() == old(self).is_online(),
    {
        let mut commands: Vec<DrawCommand> = Vec::new();
        std::mem::swap(&mut self.commands, &mut commands);
        assert(self@ =~= Seq::<DrawOp>::empty());
        commands
    }

    /// Records one primitive, or refuses it.
    fn issue(&mut self, command: DrawCommand) -> (result: Result<(), DisplayError>)
        ensures
            issued(*old(self), *final(self), seq![command@], result),
    {
        if !self.online {
            return Err(DisplayError::DrawError);
        }
        self.commands.push(command);
        assert(self@ =~= old(self)@ + seq![command@]);
        Ok(())
    }

    /// Blanks the frame.
    pub fn clear(&mut self) -> (result: Result<(), DisplayError>)
        ensures
            issued(*old(self), *final(self), seq![DrawOp::Clear], result),
    {
        self.issue(DrawCommand::Clear)
    }

    /// Shows the frame on the panel.
    pub fn flush(&mut self) -> (result: Result<(), DisplayError>)
        ensures
            issued(*old(self), *final(self), seq![DrawOp::Flush], result),
    {
        self.issue(DrawCommand::Flush)
    }

    /// Draws `text` with its top left corner at `(x, y)`.
    pub fn draw_text(&mut self, text: &str, x: i32, y: i32, size: TextSize) -> (result: Result<
        (),
        DisplayError,
    >)
        ensures
            issued(
                *old(self),
                *final(self),
                seq![DrawOp::Text { text: text@, x, y, size }],
                result,
            ),
    {
        self.issue(DrawCommand::Text { text: String::from_str(text), x, y, size })
    }

    /// Draws a rectangle with its top left corner at `(x, y)`: filled, or a
    /// one-pixel outline.
    pub fn draw_rectangle(
        &mut self,
        x: i32,
        y: i32,
        width: u32,
        height: u32,
        filled: bool,
    ) -> (result: Result<(), DisplayError>)
        ensures
            issued(
                *old(self),
                *final(self),
                seq![DrawOp::Rectangle { x, y, width, height, filled }],
                result,
            ),
    {
        self.issue(DrawCommand::Rectangle { x, y, width, height, filled })
    }

    /// Draws a progress bar `width` pixels wide at `progress` percent with its
    /// top left corner at `(x, y)`.
    pub fn draw_progress_bar(&mut self, x: i32, y: i32, width: u32, progress: u8) -> (result:
        Result<(), DisplayError>)
        requires
            progress_bar_fits(x, y, width, progress),
        ensures
            issued(*old(self), *final(self), progress_bar_ops(x, y, width, progress), result),
    {
        let height = PROGRESS_BAR_HEIGHT;
        let percent: u64 = if progress >= 100 {
            100
        } else {
            progress as u64
        };
        assert(width as u64 * percent <= 0xffff_ffff * 100 && (width as u64 * percent) / 100
            <= width && (percent == 100 ==> (width as u64 * percent) / 100 == width))
            by (nonlinear_arith)
            requires
                width <= 0xffff_ffff,
                percent <= 100,
        ;
        let fill: u32 = ((width as u64 * percent) / 100) as u32;
        self.draw_rectangle(x, y, width, height, false)?;
        if fill > 0 {
            let inner: u32 = if fill >= 2 {
                fill - 2
            } else {
                0
            };
            self.draw_rectangle(x + 1, y + 1, inner, height - 2, true)?;
        }
        assert(self@ =~= old(self)@ + progress_bar_ops(x, y, width, progress));
        Ok(())
    }
}

/// A progress bar at 100 percent or more looks the same whatever the number,
/// at 0 percent it is the outline alone, and its filled part is one pixel
/// wide exactly where `width * progress / 100` is 3.
pub proof fn lemma_progress_bar_clamps(x: i32, y: i32, width: u32, progress: u8)
    ensures
        progress >= 100 ==> progress_bar_ops(x, y, width, progress) == progress_bar_ops(
            x,
            y,
            width,
            100,
        ),
        progress_bar_ops(x, y, width, 0) == seq![
            DrawOp::Rectangle { x, y, width, height: PROGRESS_BAR_HEIGHT, filled: false },
        ],
        fill_width(width, progress) == 3 ==> progress_bar_ops(x, y, width, progress).len() == 2
            && progress_bar_ops(x, y, width, progress)[1] == (DrawOp::Rectangle {
            x: (x + 1) as i32,
            y: (y + 1) as i32,
            width: 1,
            height: 6,
            filled: true,
        }),
        progress < 100 && width * progress < 100 ==> progress_bar_ops(x, y, width, progress).len()
            == 1,
{
}

} // verus!
