//! Log-line formatting: a bracketed, colored title column followed by the
//! message. Printing is the caller's business; these functions only build
//! the line.

use vstd::prelude::*;

verus! {

/// Width of the bracketed title column, brackets included.
pub const TITLE_WIDTH: usize = 16;

/// Terminal colors for the title.
#[derive(Clone, Copy, Debug, PartialEq, Eq, Structural)]
pub enum Color {
    Red,
    Green,
    Blue,
    Yellow,
    Cyan,
    Magenta,
    White,
    Black,
    BrightRed,
    BrightGreen,
    Reset,
}

/// The ANSI escape sequence that selects `color`.
pub open spec fn spec_color_code(color: Color) -> Seq<char> {
    match color {
        Color::Red => "\u{1b}[31m"@,
        Color::Green => "\u{1b}[32m"@,
        Color::Blue => "\u{1b}[34m"@,
        Color::Yellow => "\u{1b}[33m"@,
        Color::Cyan => "\u{1b}[36m"@,
        Color::Magenta => "\u{1b}[35m"@,
        Color::White => "\u{1b}[37m"@,
        Color::Black => "\u{1b}[30m"@,
        Color::BrightRed => "\u{1b}[91m"@,
        Color::BrightGreen => "\u{1b}[92m"@,
        Color::Reset => "\u{1b}[0m"@,
    }
}

/// `text` wrapped in the escape codes that color it and reset afterwards.
pub open spec fn spec_colored(color: Color, text: Seq<char>) -> Seq<char> {
    spec_color_code(color) + text + spec_color_code(Color::Reset)
}

/// `n` spaces.
pub open spec fn spec_pad(n: nat) -> Seq<char> {
    Seq::new(n, |i: int| ' ')
}

/// The padding after a title of `title_bytes` bytes: fills the title column.
pub open spec fn spec_pad_len(title_bytes: nat) -> nat {
    if title_bytes <= TITLE_WIDTH - 2 {
        (TITLE_WIDTH - 2 - title_bytes) as nat
    } else {
        0
    }
}

/// One log line: the colored title in brackets, padding to the title column
/// width, a space, and the message.
pub open spec fn spec_log_line(color: Color, title: &str, text: &str) -> Seq<char> {
    "["@ + spec_colored(color, title@) + "]"@ + spec_pad(spec_pad_len(title.len() as nat)) + " "@
        + text@
}

/// Wraps `text` in the escape codes that color it and reset afterwards.
pub fn get_colored(color: Color, text: &str) -> (r: String)
    ensures
        r@ == spec_colored(color, text@),
{
    let code = match color {
        Color::Red => "\u{1b}[31m",
        Color::Green => "\u{1b}[32m",
        Color::Blue => "\u{1b}[34m",
        Color::Yellow => "\u{1b}[33m",
        Color::Cyan => "\u{1b}[36m",
        Color::Magenta => "\u{1b}[35m",
        Color::White => "\u{1b}[37m",
        Color::Black => "\u{1b}[30m",
        Color::BrightRed => "\u{1b}[91m",
        Color::BrightGreen => "\u{1b}[92m",
        Color::Reset => "\u{1b}[0m",
    };
    let mut s = String::from_str(code);
    s.append(text);
    s.append("\u{1b}[0m");
    s
}

/// Builds one log line with a colored title column.
pub fn log(color: Color, title: &str, text: &str) -> (r: String)
    ensures
        r@ == spec_log_line(color, title, text),
{
    let title_len = title.len();
    let padding: usize = if title_len <= TITLE_WIDTH - 2 {
        TITLE_WIDTH - 2 - title_len
    } else {
        0
    };
    let mut s = String::from_str("[");
    let colored = get_colored(color, title);
    s.append(colored.as_str());
    s.append("]");
    let mut i: usize = 0;
    while i < padding
        invariant
            i <= padding,
            s@ == "["@ + spec_colored(color, title@) + "]"@ + spec_pad(i as nat),
        decreases padding - i,
    {
        crate::push_char(&mut s, ' ');
        proof {
            assert(s@ =~= "["@ + spec_colored(color, title@) + "]"@ + spec_pad((i + 1) as nat));
        }
        i = i + 1;
    }
    s.append(" ");
    s.append(text);
    proof {
        assert(s@ =~= spec_log_line(color, title, text));
    }
    s
}

/// A blue-titled log line.
pub fn blue(title: &str, text: &str) -> (r: String)
    ensures
        r@ == spec_log_line(Color::Blue, title, text),
{
    log(Color::Blue, title, text)
}

/// A red-titled log line.
pub fn red(title: &str, text: &str) -> (r: String)
    ensures
        r@ == spec_log_line(Color::Red, title, text),
{
    log(Color::Red, title, text)
}

/// A green-titled log line.
pub fn green(title: &str, text: &str) -> (r: String)
    ensures
        r@ == spec_log_line(Color::Green, title, text),
{
    log(Color::Green, title, text)
}

/// A yellow-titled log line.
pub fn yellow(title: &str, text: &str) -> (r: String)
    ensures
        r@ == spec_log_line(Color::Yellow, title, text),
{
    log(Color::Yellow, title, text)
}

/// A cyan-titled log line.
pub fn cyan(title: &str, text: &str) -> (r: String)
    ensures
        r@ == spec_log_line(Color::Cyan, title, text),
{
    log(Color::Cyan, title, text)
}

/// A magenta-titled log line.
pub fn magenta(title: &str, text: &str) -> (r: String)
    ensures
        r@ == spec_log_line(Color::Magenta, title, text),
{
    log(Color::Magenta, title, text)
}

/// A white-titled log line.
pub fn white(title: &str, text: &str) -> (r: String)
    ensures
        r@ == spec_log_line(Color::White, title, text),
{
    log(Color::White, title, text)
}

/// A black-titled log line.
pub fn black(title: &str, text: &str) -> (r: String)
    ensures
        r@ == spec_log_line(Color::Black, title, text),
{
    log(Color::Black, title, text)
}

/// A bright-red-titled log line.
pub fn bright_red(title: &str, text: &str) -> (r: String)
    ensures
        r@ == spec_log_line(Color::BrightRed, title, text),
{
    log(Color::BrightRed, title, text)
}

/// A bright-green-titled log line.
pub fn bright_green(title: &str, text: &str) -> (r: String)
    ensures
        r@ == spec_log_line(Color::BrightGreen, title, text),
{
    log(Color::BrightGreen, title, text)
}

} // verus!
