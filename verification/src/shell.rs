//! The shell of the user-land boot program: a console that writes text on the VGA screen.
//!
//! Text goes from column 2 of the first line of the shell; a line ends at the right border of
//! the screen, and the next one starts at column 2. The prompt sits at column 0.

use vstd::prelude::*;

use vstd::string::StrSliceExecFns;

use crate::vga::{blank_screen, put_char, Color, ColorCode, Screen, ScreenChar, BUFFER_WIDTH};

verus! {

/// The state of a shell: where the next character goes, and what the screen shows.
pub struct ShellState {
    pub x: int,
    pub y: int,
    pub screen: Seq<ScreenChar>,
}

/// The state after a move to the start of the next line.
pub open spec fn next_line_state(s: ShellState) -> ShellState {
    ShellState { x: 2, y: s.y + 1, screen: s.screen }
}

/// The state after the cursor moves past a character.
pub open spec fn next_char_state(s: ShellState) -> ShellState {
    if s.x + 1 >= BUFFER_WIDTH {
        next_line_state(s)
    } else {
        ShellState { x: s.x + 1, y: s.y, screen: s.screen }
    }
}

/// The state after the character `c` is written in the given colors.
pub open spec fn write_char_state(s: ShellState, color: ColorCode, c: u8) -> ShellState {
    next_char_state(
        ShellState {
            x: s.x,
            y: s.y,
            screen: put_char(s.screen, ScreenChar { ascii_character: c, color_code: color }, s.x, s.y),
        },
    )
}

/// The character is ASCII.
pub open spec fn is_ascii_char(c: char) -> bool {
    (c as u32) < 128
}

/// The state after the character `c` of a text is written: an ASCII character is written, a
/// line feed (were it not ASCII) would go to the next line, and other characters are ignored.
pub open spec fn text_char_state(s: ShellState, color: ColorCode, c: char) -> ShellState {
    if is_ascii_char(c) {
        write_char_state(s, color, c as u8)
    } else if c == '\n' {
        next_line_state(s)
    } else {
        s
    }
}

/// The state after a text is written.
pub open spec fn write_text_state(s: ShellState, color: ColorCode, text: Seq<char>) -> ShellState
    decreases text.len(),
{
    if text.len() == 0 {
        s
    } else {
        text_char_state(write_text_state(s, color, text.drop_last()), color, text.last())
    }
}

/// The state after bytes are written, each as a character.
pub open spec fn write_bytes_state(s: ShellState, color: ColorCode, bytes: Seq<u8>) -> ShellState
    decreases bytes.len(),
{
    if bytes.len() == 0 {
        s
    } else {
        write_char_state(write_bytes_state(s, color, bytes.drop_last()), color, bytes.last())
    }
}

/// The state after a prompt: the next line starts with the prompt sign.
pub open spec fn prompt_state(s: ShellState, prompt: ColorCode) -> ShellState {
    let s1 = next_line_state(s);
    ShellState {
        x: s1.x,
        y: s1.y,
        screen: put_char(
            s1.screen,
            ScreenChar { ascii_character: 62, color_code: prompt },
            0,
            s1.y,
        ),
    }
}

/// The hexadecimal digit of a value below 16.
pub open spec fn hex_char(v: int) -> char {
    if v < 10 {
        (48 + v) as char
    } else {
        (55 + v) as char
    }
}

/// The sixteen hexadecimal digits of a number, the most significant first.
pub open spec fn hex_digits(num: u64) -> Seq<u8> {
    Seq::new(16, |k: int| hex_char(((num >> ((60 - 4 * k) as u64)) & 0xF) as int) as u8)
}

/// Lines up to `y + n` still have positions on the screen that fit in a `usize`.
pub open spec fn line_room(y: int, n: int) -> bool {
    (y + n + 2) * BUFFER_WIDTH <= usize::MAX
}

/// Hex encodes the four low bits of `u4`.
pub fn hex_u4(u4: u8) -> (r: char)
    ensures
        r == hex_char((u4 % 16) as int),
{
    let v = u4 & 0x0F;
    assert(v == u4 % 16) by (bit_vector)
        requires
            v == u4 & 0x0F,
    ;
    match v {
        0 => '0',
        1 => '1',
        2 => '2',
        3 => '3',
        4 => '4',
        5 => '5',
        6 => '6',
        7 => '7',
        8 => '8',
        9 => '9',
        10 => 'A',
        11 => 'B',
        12 => 'C',
        13 => 'D',
        14 => 'E',
        _ => 'F',
    }
}

/// A console on the VGA screen.
pub struct Shell {
    shell_start: usize,
    x: usize,
    y: usize,
    color: ColorCode,
    prompt: ColorCode,
    screen: Screen,
}

impl View for Shell {
    type V = ShellState;

    closed spec fn view(&self) -> ShellState {
        ShellState { x: self.x as int, y: self.y as int, screen: self.screen@ }
    }
}

impl Shell {
    #[verifier::type_invariant]
    spec fn cursor_on_line(self) -> bool {
        self.x < BUFFER_WIDTH
    }

    /// The colors of the text.
    pub closed spec fn spec_color(self) -> ColorCode {
        self.color
    }

    /// The colors of the prompt.
    pub closed spec fn spec_prompt(self) -> ColorCode {
        self.prompt
    }

    /// A shell whose first line is line `shell_start` of a blank screen; the prompt is green
    /// on the background of the text.
    pub fn new(shell_start: usize, color: ColorCode) -> (r: Self)
        ensures
            r@.x == 2,
            r@.y == shell_start,
            r@.screen == blank_screen(),
            r.spec_color() == color,
            r.spec_prompt().spec_byte() == (color.spec_byte() / 16) * 16 + Color::Green.spec_value(),
    {
        Self {
            shell_start,
            x: 2,
            y: shell_start,
            color,
            prompt: color.with_foreground(Color::Green),
            screen: Screen::new(),
        }
    }

    /// The characters of the screen, line after line, to display.
    pub fn screen(&self) -> (r: &[ScreenChar])
        ensures
            r@ == self@.screen,
    {
        self.screen.as_slice()
    }

    /// Writes a text: its ASCII characters, the others are ignored.
    pub fn write(&mut self, string: &str)
        requires
            line_room(old(self)@.y, string@.len() as int),
        ensures
            final(self)@ == write_text_state(old(self)@, old(self).spec_color(), string@),
            final(self).spec_color() == old(self).spec_color(),
            final(self).spec_prompt() == old(self).spec_prompt(),
            final(self)@.y <= old(self)@.y + string@.len(),
    {
        let ghost s0 = self@;
        let ghost text = string@;
        let n = string.unicode_len();
        let mut i: usize = 0;
        while i < n
            invariant
                n == text.len(),
                text == string@,
                0 <= i <= n,
                self@ == write_text_state(s0, self.spec_color(), text.take(i as int)),
                self.spec_color() == old(self).spec_color(),
                self.spec_prompt() == old(self).spec_prompt(),
                s0 == old(self)@,
                self@.y <= s0.y + i,
                line_room(s0.y, n as int),
            decreases n - i,
        {
            let c = string.get_char(i);
            proof {
                assert(text.take(i + 1).drop_last() =~= text.take(i as int));
                assert(text.take(i + 1).last() == c);
            }
            if (c as u32) < 128 {
                self.write_char(c as u8);
            } else if c == '\n' {
                self.next_line();
            }
            i = i + 1;
        }
        proof {
            assert(text.take(n as int) =~= text);
        }
    }

    /// Writes a text, then goes to the next line.
    pub fn writeln(&mut self, string: &str)
        requires
            line_room(old(self)@.y, string@.len() + 1int),
        ensures
            final(self)@ == next_line_state(
                write_text_state(old(self)@, old(self).spec_color(), string@),
            ),
            final(self).spec_color() == old(self).spec_color(),
            final(self).spec_prompt() == old(self).spec_prompt(),
    {
        self.write(string);
        self.next_line();
    }

    /// Writes the sixteen hexadecimal digits of a number, the most significant first.
    pub fn write_num(&mut self, num: u64)
        requires
            line_room(old(self)@.y, 16),
        ensures
            final(self)@ == write_bytes_state(old(self)@, old(self).spec_color(), hex_digits(num)),
            final(self).spec_color() == old(self).spec_color(),
            final(self).spec_prompt() == old(self).spec_prompt(),
    {
        let ghost s0 = self@;
        let ghost digits = hex_digits(num);
        let mut k: u64 = 0;
        while k < 16
            invariant
                0 <= k <= 16,
                self@ == write_bytes_state(s0, self.spec_color(), digits.take(k as int)),
                self.spec_color() == old(self).spec_color(),
                self.spec_prompt() == old(self).spec_prompt(),
                s0 == old(self)@,
                digits == hex_digits(num),
                self@.y <= s0.y + k,
                line_room(s0.y, 16),
            decreases 16 - k,
        {
            let i = 15 - k;
            let u4 = num >> (i * 4);
            let u4 = (u4 & 0xF) as u8;
            let c = hex_u4(u4);
            proof {
                assert(digits.take(k + 1).drop_last() =~= digits.take(k as int));
                assert(i * 4 == (60 - 4 * k) as u64);
                assert((num >> (i * 4)) & 0xF < 16) by (bit_vector);
                assert(u4 % 16 == u4);
                assert(digits[k as int] == c as u8);
            }
            self.write_char(c as u8);
            k = k + 1;
        }
        proof {
            assert(digits.take(16) =~= digits);
        }
    }

    /// Handles a key typed by the user: a line feed starts a new prompt, another ASCII
    /// character is written, others are ignored.
    pub fn input(&mut self, c: char)
        requires
            line_room(old(self)@.y, 1),
        ensures
            c == '\n' ==> final(self)@ == prompt_state(old(self)@, old(self).spec_prompt()),
            c != '\n' && is_ascii_char(c) ==> final(self)@ == write_char_state(
                old(self)@,
                old(self).spec_color(),
                c as u8,
            ),
            c != '\n' && !is_ascii_char(c) ==> final(self)@ == old(self)@,
            final(self).spec_color() == old(self).spec_color(),
            final(self).spec_prompt() == old(self).spec_prompt(),
    {
        if c == '\n' {
            self.prompt();
        } else if (c as u32) < 128 {
            self.write_char(c as u8);
        }
    }

    /// Goes to the next line and writes the prompt sign at its start.
    pub fn prompt(&mut self)
        requires
            line_room(old(self)@.y, 1),
        ensures
            final(self)@ == prompt_state(old(self)@, old(self).spec_prompt()),
            final(self).spec_color() == old(self).spec_color(),
            final(self).spec_prompt() == old(self).spec_prompt(),
    {
        self.next_line();
        let c = self.prompt.char(62u8);
        self.screen.write_char(c, 0, self.y);
    }

    /// Writes a character at the cursor, and moves the cursor past it.
    fn write_char(&mut self, c: u8)
        requires
            line_room(old(self)@.y, 1),
        ensures
            final(self)@ == write_char_state(old(self)@, old(self).spec_color(), c),
            final(self).spec_color() == old(self).spec_color(),
            final(self).spec_prompt() == old(self).spec_prompt(),
            final(self)@.y <= old(self)@.y + 1,
    {
        proof {
            use_type_invariant(&*self);
        }
        let sc = self.color.char(c);
        self.screen.write_char(sc, self.x, self.y);
        self.next_char();
    }

    /// Moves the cursor to the start of the next line.
    fn next_line(&mut self)
        requires
            line_room(old(self)@.y, 1),
        ensures
            final(self)@ == next_line_state(old(self)@),
            final(self).spec_color() == old(self).spec_color(),
            final(self).spec_prompt() == old(self).spec_prompt(),
    {
        proof {
            use_type_invariant(&*self);
        }
        self.y = self.y + 1;
        self.x = 2;
    }

    /// Moves the cursor past a character, to the next line at the right border.
    fn next_char(&mut self)
        requires
            line_room(old(self)@.y, 1),
        ensures
            final(self)@ == next_char_state(old(self)@),
            final(self).spec_color() == old(self).spec_color(),
            final(self).spec_prompt() == old(self).spec_prompt(),
    {
        proof {
            use_type_invariant(&*self);
        }
        let x = self.x + 1;
        if x >= BUFFER_WIDTH {
            self.next_line();
        } else {
            self.x = x;
        }
    }
}

} // verus!
