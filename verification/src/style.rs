//! Terminal colours and text attributes, as ANSI escape sequences.
use vstd::prelude::*;

verus! {

/// A value to be shown in a colour, possibly bold, italic or underlined.
pub struct Style<T> {
    pub data: T,
    pub color: Color,
    pub bold: bool,
    pub italic: bool,
    pub underline: bool,
}

#[derive(Debug, Clone, Copy, PartialEq, Eq, Structural)]
pub enum Color {
    Black,
    Red,
    Green,
    Yellow,
    Blue,
    Magenta,
    Cyan,
    White,
    Orange,
}

/// The SGR parameters that select a colour.
pub open spec fn spec_ansi_code(c: Color) -> Seq<char> {
    match c {
        Color::Black => "30"@,
        Color::Red => "31"@,
        Color::Green => "32"@,
        Color::Yellow => "33"@,
        Color::Blue => "34"@,
        Color::Magenta => "35"@,
        Color::Cyan => "36"@,
        Color::White => "37"@,
        Color::Orange => "31;43"@,
    }
}

/// The escape sequence that starts styled text: ESC `[`, then `1;` if bold, `3;` if
/// italic, `4;` if underlined, then the colour's code and `m`.
pub open spec fn spec_prefix(color: Color, bold: bool, italic: bool, underline: bool) -> Seq<
    char,
> {
    "\x1b["@ + (if bold {
        "1;"@
    } else {
        Seq::empty()
    }) + (if italic {
        "3;"@
    } else {
        Seq::empty()
    }) + (if underline {
        "4;"@
    } else {
        Seq::empty()
    }) + spec_ansi_code(color) + "m"@
}

impl Color {
    pub fn ansi_code(&self) -> (s: &'static str)
        ensures
            s@ == spec_ansi_code(*self),
    {
        match self {
            Color::Black => "30",
            Color::Red => "31",
            Color::Green => "32",
            Color::Yellow => "33",
            Color::Blue => "34",
            Color::Magenta => "35",
            Color::Cyan => "36",
            Color::White => "37",
            Color::Orange => "31;43",
        }
    }
}

impl<T> Style<T> {
    /// Plain text in a colour: not bold, italic or underlined.
    pub fn new(data: T, color: Color) -> (s: Self)
        ensures
            s.data == data,
            s.color == color,
            !s.bold,
            !s.italic,
            !s.underline,
    {
        Style { data, color, bold: false, italic: false, underline: false }
    }

    pub fn bold(self) -> (s: Self)
        ensures
            s == (Style { bold: true, ..self }),
    {
        Style { bold: true, ..self }
    }

    pub fn italic(self) -> (s: Self)
        ensures
            s == (Style { italic: true, ..self }),
    {
        Style { italic: true, ..self }
    }

    pub fn underline(self) -> (s: Self)
        ensures
            s == (Style { underline: true, ..self }),
    {
        Style { underline: true, ..self }
    }

    /// The escape sequence written before the data.
    pub fn prefix(&self) -> (r: String)
        ensures
            r@ == spec_prefix(self.color, self.bold, self.italic, self.underline),
    {
        let mut r = String::from_str("\x1b[");
        if self.bold {
            r.append("1;");
        }
        if self.italic {
            r.append("3;");
        }
        if self.underline {
            r.append("4;");
        }
        r.append(self.color.ansi_code());
        r.append("m");
        proof {
            reveal_strlit("");
        }
        r
    }

    /// The escape sequence written after the data, which resets every attribute.
    pub fn suffix(&self) -> (r: &'static str)
        ensures
            r@ == "\x1b[0m"@,
    {
        "\x1b[0m"
    }
}

/// Any value can be given a colour.
pub trait Styled {
    fn color(&self, color: Color) -> (s: Style<&Self>)
        ensures
            s.data == self,
            s.color == color,
            !s.bold,
            !s.italic,
            !s.underline,
    ;
}

impl<T> Styled for T {
    fn color(&self, color: Color) -> (s: Style<&T>) {
        Style::new(self, color)
    }
}

} // verus!
