use coral::shell::{hex_u4, Shell};
use coral::user_syscalls::SyscallResult;
use coral::vga::{Color, ColorCode, Screen, ScreenChar, BUFFER_LEN, BUFFER_WIDTH};

fn color() -> ColorCode {
    ColorCode::new(Color::Pink, Color::Black)
}

fn at(shell: &Shell, x: usize, y: usize) -> ScreenChar {
    shell.screen()[BUFFER_WIDTH * y + x]
}

#[test]
fn color_codes() {
    assert_eq!(ColorCode::new(Color::Pink, Color::Black).byte(), 13);
    assert_eq!(ColorCode::new(Color::White, Color::Blue).byte(), 0x1f);
    assert_eq!(color().with_foreground(Color::Green).byte(), 2);
    assert_eq!(ColorCode::new(Color::Red, Color::Cyan).with_foreground(Color::Yellow).byte(), 0x3e);
    let c = color().char(b'a');
    assert_eq!(c.ascii_character, b'a');
    assert_eq!(c.color_code, color());
    assert_eq!(ScreenChar::black().ascii_character, 0);
    assert_eq!(ScreenChar::black().color_code.byte(), 0);
}

#[test]
fn screen_writes_and_ignores_positions_past_the_end() {
    let mut screen = Screen::new();
    assert_eq!(screen.len(), BUFFER_LEN);
    screen.write_char(color().char(b'x'), 3, 1);
    assert_eq!(screen.as_slice()[BUFFER_WIDTH + 3].ascii_character, b'x');
    let before: Vec<ScreenChar> = screen.as_slice().to_vec();
    screen.write_char(color().char(b'y'), 0, 25);
    assert_eq!(screen.as_slice(), &before[..]);
}

#[test]
fn shell_writes_text_from_column_two() {
    let mut shell = Shell::new(4, color());
    shell.write("hi");
    assert_eq!(at(&shell, 2, 4).ascii_character, b'h');
    assert_eq!(at(&shell, 3, 4).ascii_character, b'i');
    assert_eq!(at(&shell, 3, 4).color_code, color());
}

#[test]
fn shell_skips_non_ascii_characters() {
    let mut shell = Shell::new(0, color());
    shell.write("aéb");
    assert_eq!(at(&shell, 2, 0).ascii_character, b'a');
    assert_eq!(at(&shell, 3, 0).ascii_character, b'b');
}

#[test]
fn shell_wraps_at_the_right_border() {
    let mut shell = Shell::new(0, color());
    let line: String = std::iter::repeat('a').take(78).collect();
    shell.write(&line);
    shell.write("b");
    assert_eq!(at(&shell, 79, 0).ascii_character, b'a');
    assert_eq!(at(&shell, 2, 1).ascii_character, b'b');
}

#[test]
fn shell_writeln_and_prompt() {
    let mut shell = Shell::new(4, color());
    shell.writeln("ok");
    shell.write("x");
    assert_eq!(at(&shell, 2, 5).ascii_character, b'x');
    shell.prompt();
    let p = at(&shell, 0, 6);
    assert_eq!(p.ascii_character, b'>');
    assert_eq!(p.color_code, color().with_foreground(Color::Green));
}

#[test]
fn shell_input() {
    let mut shell = Shell::new(4, color());
    shell.input('a');
    assert_eq!(at(&shell, 2, 4).ascii_character, b'a');
    shell.input('\n');
    assert_eq!(at(&shell, 0, 5).ascii_character, b'>');
    shell.input('z');
    assert_eq!(at(&shell, 2, 5).ascii_character, b'z');
    shell.input('é');
    shell.input('y');
    assert_eq!(at(&shell, 3, 5).ascii_character, b'y');
}

#[test]
fn hex_digits() {
    assert_eq!(hex_u4(0), '0');
    assert_eq!(hex_u4(9), '9');
    assert_eq!(hex_u4(10), 'A');
    assert_eq!(hex_u4(15), 'F');
    assert_eq!(hex_u4(0x1f), 'F');
    assert_eq!(hex_u4(0xa3), '3');
}

#[test]
fn shell_write_num() {
    let mut shell = Shell::new(0, color());
    shell.write_num(0x0123_4567_89ab_cdef);
    let text: String = (2..18).map(|x| at(&shell, x, 0).ascii_character as char).collect();
    assert_eq!(text, "0123456789ABCDEF");
}

#[test]
fn syscall_result_names() {
    assert_eq!(SyscallResult(0).str(), "Success");
    assert_eq!(SyscallResult(1).str(), "Invalid Params");
    assert_eq!(SyscallResult(2).str(), "Internal Error");
    assert_eq!(SyscallResult(3).str(), "Unkonwn Error");
    assert_eq!(SyscallResult(-1).str(), "Unkonwn Error");
}

#[test]
fn spinner_cycles_every_two_ticks() {
    let chars: Vec<u8> = (0..12).map(coral::vga::spinner_char).collect();
    assert_eq!(chars, b"__--++**!!__".to_vec());
}
