//! The VGA text buffer of the user-land boot program: a grid of colored characters.

use vstd::prelude::*;

verus! {

/// The number of lines of the screen.
pub const BUFFER_HEIGHT: usize = 25;

/// The number of columns of the screen.
pub const BUFFER_WIDTH: usize = 80;

/// The number of characters of the screen.
pub const BUFFER_LEN: usize = 2000;

/// The sixteen VGA colors.
#[derive(Debug, Copy, Clone, Eq, PartialEq, Structural)]
pub enum Color {
    Black,
    Blue,
    Green,
    Cyan,
    Red,
    Magenta,
    Brown,
    LightGray,
    DarkGray,
    LightBlue,
    LightGreen,
    LightCyan,
    LightRed,
    Pink,
    Yellow,
    White,
}

impl Color {
    /// The VGA number of the color.
    pub open spec fn spec_value(self) -> u8 {
        match self {
            Color::Black => 0,
            Color::Blue => 1,
            Color::Green => 2,
            Color::Cyan => 3,
            Color::Red => 4,
            Color::Magenta => 5,
            Color::Brown => 6,
            Color::LightGray => 7,
            Color::DarkGray => 8,
            Color::LightBlue => 9,
            Color::LightGreen => 10,
            Color::LightCyan => 11,
            Color::LightRed => 12,
            Color::Pink => 13,
            Color::Yellow => 14,
            Color::White => 15,
        }
    }

    /// Returns the VGA number of the color.
    pub fn value(self) -> (r: u8)
        ensures
            r == self.spec_value(),
            r < 16,
    {
        match self {
            Color::Black => 0,
            Color::Blue => 1,
            Color::Green => 2,
            Color::Cyan => 3,
            Color::Red => 4,
            Color::Magenta => 5,
            Color::Brown => 6,
            Color::LightGray => 7,
            Color::DarkGray => 8,
            Color::LightBlue => 9,
            Color::LightGreen => 10,
            Color::LightCyan => 11,
            Color::LightRed => 12,
            Color::Pink => 13,
            Color::Yellow => 14,
            Color::White => 15,
        }
    }
}

/// A foreground and a background color: the background in the high four bits, the foreground
/// in the low four bits.
#[derive(Debug, Copy, Clone, Eq, PartialEq, Structural)]
pub struct ColorCode(u8);

impl ColorCode {
    /// The byte of the color code.
    pub closed spec fn spec_byte(self) -> u8 {
        self.0
    }

    /// The color code of the given foreground and background colors.
    pub fn new(foreground: Color, background: Color) -> (r: Self)
        ensures
            r.spec_byte() == background.spec_value() * 16 + foreground.spec_value(),
    {
        ColorCode(background.value() * 16 + foreground.value())
    }

    /// The same code with another foreground color.
    pub fn with_foreground(self, foreground: Color) -> (r: Self)
        ensures
            r.spec_byte() == (self.spec_byte() / 16) * 16 + foreground.spec_value(),
    {
        ColorCode((self.0 / 16) * 16 + foreground.value())
    }

    /// Returns the byte of the color code.
    pub fn byte(self) -> (r: u8)
        ensures
            r == self.spec_byte(),
    {
        self.0
    }

    /// The character `ascii_character` in these colors.
    pub fn char(self, ascii_character: u8) -> (r: ScreenChar)
        ensures
            r == (ScreenChar { ascii_character, color_code: self }),
    {
        ScreenChar { ascii_character, color_code: self }
    }
}

/// A character on the screen, with its colors.
#[derive(Debug, Copy, Clone, Eq, PartialEq, Structural)]
pub struct ScreenChar {
    pub ascii_character: u8,
    pub color_code: ColorCode,
}

impl ScreenChar {
    /// The blank character: a null character, black on black.
    pub closed spec fn spec_black() -> ScreenChar {
        ScreenChar { ascii_character: 0, color_code: ColorCode(0) }
    }

    /// Returns the blank character: a null character, black on black.
    pub fn black() -> (r: Self)
        ensures
            r == Self::spec_black(),
    {
        let r = Self { ascii_character: 0, color_code: ColorCode::new(Color::Black, Color::Black) };
        r
    }
}

/// The position of the character at column `x` of line `y`.
pub open spec fn position(x: int, y: int) -> int {
    BUFFER_WIDTH * y + x
}

/// The screen after the character `c` is written at column `x` of line `y`: positions past the
/// end of the screen are ignored.
pub open spec fn put_char(screen: Seq<ScreenChar>, c: ScreenChar, x: int, y: int) -> Seq<
    ScreenChar,
> {
    if position(x, y) < BUFFER_LEN {
        screen.update(position(x, y), c)
    } else {
        screen
    }
}

/// A blank screen.
pub open spec fn blank_screen() -> Seq<ScreenChar> {
    Seq::new(BUFFER_LEN as nat, |i: int| ScreenChar::spec_black())
}

/// The characters of the screen, line after line.
pub struct Screen {
    chars: Vec<ScreenChar>,
}

impl View for Screen {
    type V = Seq<ScreenChar>;

    closed spec fn view(&self) -> Seq<ScreenChar> {
        self.chars@
    }
}

impl Screen {
    #[verifier::type_invariant]
    spec fn full(self) -> bool {
        self.chars@.len() == BUFFER_LEN
    }

    /// The screen holds a character for every position.
    pub fn len(&self) -> (r: usize)
        ensures
            r == self@.len(),
            r == BUFFER_LEN,
    {
        proof {
            use_type_invariant(self);
        }
        self.chars.len()
    }

    /// A blank screen.
    pub fn new() -> (r: Self)
        ensures
            r@ == blank_screen(),
    {
        let chars = vec![ScreenChar::black(); BUFFER_LEN];
        let r = Screen { chars };
        assert(r@ =~= blank_screen());
        r
    }

    /// Writes a character at column `x` of line `y`; a position past the end of the screen is
    /// ignored.
    pub fn write_char(&mut self, c: ScreenChar, x: usize, y: usize)
        requires
            BUFFER_WIDTH * y + x <= usize::MAX,
        ensures
            final(self)@ == put_char(old(self)@, c, x as int, y as int),
        no_unwind
    {
        proof {
            use_type_invariant(&*self);
        }
        let pos = BUFFER_WIDTH * y + x;
        if pos < self.chars.len() {
            self.chars[pos] = c;
        }
    }

    /// The characters of the screen, line after line.
    pub fn as_slice(&self) -> (r: &[ScreenChar])
        ensures
            r@ == self@,
    {
        self.chars.as_slice()
    }
}

/// The character of the spinner after `counter` ticks: it changes every two ticks, cycling
/// through `_`, `-`, `+`, `*` and `!` (by their ASCII codes).
pub open spec fn spec_spinner_char(counter: usize) -> u8 {
    let step = (counter / 2) % 5;
    if step == 0 {
        95
    } else if step == 1 {
        45
    } else if step == 2 {
        43
    } else if step == 3 {
        42
    } else {
        33
    }
}

/// Returns the character of the spinner after `counter` ticks.
pub fn spinner_char(counter: usize) -> (r: u8)
    ensures
        r == spec_spinner_char(counter),
{
    match (counter / 2) % 5 {
        0 => 95u8,
        1 => 45u8,
        2 => 43u8,
        3 => 42u8,
        _ => 33u8,
    }
}

} // verus!
