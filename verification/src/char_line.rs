use vstd::prelude::*;

verus! {

/// An RGBA color of a rendered terminal cell.
#[derive(Clone, Copy, Debug, PartialEq, Eq)]
pub struct TerminalCharColor {
    pub r: u8,
    pub g: u8,
    pub b: u8,
    pub a: u8,
}

impl TerminalCharColor {
    /// White, the foreground of the default style.
    pub open spec fn white_spec() -> TerminalCharColor {
        TerminalCharColor { r: 255, g: 255, b: 255, a: 255 }
    }

    /// The color channels as one RGBA quadruple.
    pub fn get_rgba(&self) -> (rgba: [u8; 4])
        ensures
            rgba@ == seq![self.r, self.g, self.b, self.a],
    {
        let rgba = [self.r, self.g, self.b, self.a];
        proof {
            assert(rgba@ =~= seq![self.r, self.g, self.b, self.a]);
        }
        rgba
    }
}

/// The visual attributes a printed character is stamped with: weight,
/// underline, foreground color and an optional background fill.
#[derive(Clone, Copy, Debug, PartialEq, Eq)]
pub struct CharCodeStyle {
    pub bold: bool,
    pub underline: bool,
    pub fg_color: TerminalCharColor,
    pub bg_color: Option<TerminalCharColor>,
}

impl CharCodeStyle {
    /// The default style: regular weight, no underline, white foreground,
    /// no background fill.
    pub open spec fn default_spec() -> CharCodeStyle {
        CharCodeStyle {
            bold: false,
            underline: false,
            fg_color: TerminalCharColor::white_spec(),
            bg_color: None,
        }
    }

    /// Construct the default style.
    pub fn new() -> (style: CharCodeStyle)
        ensures
            style == CharCodeStyle::default_spec(),
    {
        CharCodeStyle {
            bold: false,
            underline: false,
            fg_color: TerminalCharColor { r: 255, g: 255, b: 255, a: 255 },
            bg_color: None,
        }
    }
}

/// One character cell: the character together with the style that was
/// current when it was printed. The style is captured at print time and
/// never altered afterwards.
#[derive(Clone, Copy, Debug, PartialEq, Eq)]
pub struct CharCode {
    pub c: char,
    pub style: CharCodeStyle,
}

impl CharCode {
    /// Pair a character with its style.
    pub fn new(c: char, style: CharCodeStyle) -> (code: CharCode)
        ensures
            code == (CharCode { c, style }),
    {
        CharCode { c, style }
    }
}

/// One line of the scrollback buffer: an append-only sequence of cells.
#[derive(Clone, Debug, PartialEq, Eq)]
pub struct CharLine {
    char_codes: Vec<CharCode>,
}

impl View for CharLine {
    type V = Seq<CharCode>;

    closed spec fn view(&self) -> Seq<CharCode> {
        self.char_codes@
    }
}

impl CharLine {
    /// An empty line.
    pub fn new() -> (line: CharLine)
        ensures
            line@ == Seq::<CharCode>::empty(),
    {
        CharLine { char_codes: Vec::new() }
    }

    /// Append one cell at the right end of the line.
    pub fn push_code(&mut self, char_code: CharCode)
        ensures
            final(self)@ == old(self)@.push(char_code),
    {
        self.char_codes.push(char_code)
    }

    /// The cells of the line, left to right.
    pub fn char_codes(&self) -> (codes: &[CharCode])
        ensures
            codes@ == self@,
    {
        self.char_codes.as_slice()
    }
}

} // verus!
