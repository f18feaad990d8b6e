use vstd::prelude::*;

use crate::char_line::{CharCode, CharCodeStyle, CharLine, TerminalCharColor};

verus! {

/// One event from the byte-stream tokenizer: a printable character, a raw
/// control byte, or a CSI dispatch carrying its parameter groups and the
/// final byte of the sequence.
pub enum TermEvent {
    Print(char),
    Control(u8),
    Csi(Vec<Vec<u16>>, char),
}

/// A printed NUL is stored as a space; every other character is kept as is.
pub open spec fn norm_char_spec(c: char) -> char {
    if c == '\u{0000}' {
        ' '
    } else {
        c
    }
}

/// The palette entry named by an SGR color code: 30..37 select a foreground
/// and 40..47 a background, both mapping to the same eight colors; any other
/// code falls back to white.
pub open spec fn terminal_color_spec(color_num: u16) -> TerminalCharColor {
    if color_num == 30 || color_num == 40 {
        TerminalCharColor { r: 0, g: 0, b: 0, a: 255 }
    } else if color_num == 31 || color_num == 41 {
        TerminalCharColor { r: 255, g: 0, b: 0, a: 255 }
    } else if color_num == 32 || color_num == 42 {
        TerminalCharColor { r: 0, g: 255, b: 0, a: 255 }
    } else if color_num == 33 || color_num == 43 {
        TerminalCharColor { r: 255, g: 255, b: 0, a: 255 }
    } else if color_num == 34 || color_num == 44 {
        TerminalCharColor { r: 0, g: 0, b: 255, a: 255 }
    } else if color_num == 35 || color_num == 45 {
        TerminalCharColor { r: 128, g: 0, b: 128, a: 255 }
    } else if color_num == 36 || color_num == 46 {
        TerminalCharColor { r: 0, g: 255, b: 255, a: 255 }
    } else {
        TerminalCharColor { r: 255, g: 255, b: 255, a: 255 }
    }
}

/// The effect of a single SGR code on an accumulated style: 0 resets to the
/// default, 1 and 22 set and clear bold, 4 and 24 set and clear underline,
/// 30..37 pick the foreground, 40..47 the background; other codes do nothing.
pub open spec fn apply_sgr_code_spec(style: CharCodeStyle, code: u16) -> CharCodeStyle {
    if code == 0 {
        CharCodeStyle::default_spec()
    } else if code == 1 {
        CharCodeStyle {
            bold: true,
            underline: style.underline,
            fg_color: style.fg_color,
            bg_color: style.bg_color,
        }
    } else if code == 22 {
        CharCodeStyle {
            bold: false,
            underline: style.underline,
            fg_color: style.fg_color,
            bg_color: style.bg_color,
        }
    } else if code == 4 {
        CharCodeStyle {
            bold: style.bold,
            underline: true,
            fg_color: style.fg_color,
            bg_color: style.bg_color,
        }
    } else if code == 24 {
        CharCodeStyle {
            bold: style.bold,
            underline: false,
            fg_color: style.fg_color,
            bg_color: style.bg_color,
        }
    } else if 30 <= code && code <= 37 {
        CharCodeStyle {
            bold: style.bold,
            underline: style.underline,
            fg_color: terminal_color_spec(code),
            bg_color: style.bg_color,
        }
    } else if 40 <= code && code <= 47 {
        CharCodeStyle {
            bold: style.bold,
            underline: style.underline,
            fg_color: style.fg_color,
            bg_color: Some(terminal_color_spec(code)),
        }
    } else {
        style
    }
}

/// All codes of one parameter group applied in order.
pub open spec fn apply_sgr_codes_spec(style: CharCodeStyle, codes: Seq<u16>) -> CharCodeStyle
    decreases codes.len(),
{
    if codes.len() == 0 {
        style
    } else {
        apply_sgr_codes_spec(apply_sgr_code_spec(style, codes[0]), codes.drop_first())
    }
}

/// All parameter groups applied in order; an empty group changes nothing.
pub open spec fn apply_sgr_groups_spec(style: CharCodeStyle, groups: Seq<Seq<u16>>) -> CharCodeStyle
    decreases groups.len(),
{
    if groups.len() == 0 {
        style
    } else {
        apply_sgr_groups_spec(apply_sgr_codes_spec(style, groups[0]), groups.drop_first())
    }
}

/// The style an SGR sequence selects: every code of every group applied in
/// order, starting over from the default style.
pub open spec fn sgr_style_spec(groups: Seq<Seq<u16>>) -> CharCodeStyle {
    apply_sgr_groups_spec(CharCodeStyle::default_spec(), groups)
}

/// The parameter groups of a CSI dispatch as a sequence of sequences.
pub open spec fn groups_view(params: Vec<Vec<u16>>) -> Seq<Seq<u16>> {
    params@.map_values(|group: Vec<u16>| group@)
}

/// The scrollback of a freshly constructed interpreter: one open, empty line.
pub open spec fn initial_lines_spec() -> Seq<Seq<CharCode>> {
    seq![Seq::<CharCode>::empty()]
}

/// The interpreter: owns the scrollback buffer and the current style, and
/// mutates them under the three tokenizer callbacks.
pub struct CharResolver {
    char_lines: Vec<CharLine>,
    current_code_style: CharCodeStyle,
}

impl CharResolver {
    /// The scrollback buffer as a sequence of lines of cells.
    pub closed spec fn lines(&self) -> Seq<Seq<CharCode>> {
        self.char_lines@.map_values(|line: CharLine| line@)
    }

    /// The style the next printed character will be stamped with.
    pub closed spec fn style(&self) -> CharCodeStyle {
        self.current_code_style
    }

    /// The buffer always keeps at least the line currently open for appends.
    pub open spec fn wf(&self) -> bool {
        self.lines().len() >= 1
    }

    /// A fresh interpreter: one open, empty line and the default style.
    pub fn new() -> (resolver: CharResolver)
        ensures
            resolver.lines() == initial_lines_spec(),
            resolver.style() == CharCodeStyle::default_spec(),
            resolver.wf(),
    {
        let mut char_lines: Vec<CharLine> = Vec::new();
        char_lines.push(CharLine::new());
        let resolver = CharResolver { char_lines, current_code_style: CharCodeStyle::new() };
        proof {
            assert(resolver.lines() =~= initial_lines_spec());
        }
        resolver
    }

    /// Read-only snapshot of the scrollback lines. Two reads with no feed in
    /// between see the same content, since the result is a function of the
    /// interpreter state alone.
    pub fn get_lines(&self) -> (lines: &[CharLine])
        ensures
            lines@.len() == self.lines().len(),
            forall|i: int| 0 <= i < lines@.len() ==> #[trigger] lines@[i]@ == self.lines()[i],
    {
        self.char_lines.as_slice()
    }

    /// Print one character: append it, stamped with the current style, to
    /// the last line of the buffer; a NUL is stored as a space. With no open
    /// line (an empty buffer) the character is dropped.
    pub fn print(&mut self, c: char)
        ensures
            final(self).style() == old(self).style(),
            old(self).lines().len() == 0 ==> final(self).lines() == old(self).lines(),
            old(self).lines().len() > 0 ==> final(self).lines() == old(self).lines().update(
                old(self).lines().len() - 1,
                old(self).lines().last().push(
                    CharCode { c: norm_char_spec(c), style: old(self).style() },
                ),
            ),
            old(self).wf() ==> final(self).wf(),
    {
        let len: usize = self.char_lines.len();
        if len > 0 {
            let c = if c == '\u{0000}' {
                ' '
            } else {
                c
            };
            let code = CharCode::new(c, self.current_code_style);
            let last_line = &mut self.char_lines[len - 1];
            last_line.push_code(code);
            proof {
                assert(self.lines() =~= old(self).lines().update(
                    old(self).lines().len() - 1,
                    old(self).lines().last().push(
                        CharCode { c: norm_char_spec(c), style: old(self).style() },
                    ),
                ));
            }
        }
    }

    /// Handle a control byte: a line feed (0x0A) opens a new empty line at
    /// the end of the buffer; every other control byte is ignored.
    pub fn execute(&mut self, byte: u8)
        ensures
            final(self).style() == old(self).style(),
            byte == 0x0A ==> final(self).lines() == old(self).lines().push(
                Seq::<CharCode>::empty(),
            ),
            byte != 0x0A ==> final(self).lines() == old(self).lines(),
            old(self).wf() ==> final(self).wf(),
    {
        if byte == 0x0A {
            let new_line = CharLine::new();
            self.char_lines.push(new_line);
            proof {
                assert(self.lines() =~= old(self).lines().push(Seq::<CharCode>::empty()));
            }
        }
    }

    /// Dispatch a CSI sequence: only a final byte of 'm' (SGR) is handled,
    /// replacing the current style with the one the parameters select; every
    /// other final byte is ignored. The buffer is never touched.
    pub fn csi_dispatch(&mut self, params: &Vec<Vec<u16>>, action: char)
        ensures
            final(self).lines() == old(self).lines(),
            action == 'm' ==> final(self).style() == sgr_style_spec(groups_view(*params)),
            action != 'm' ==> final(self).style() == old(self).style(),
            old(self).wf() ==> final(self).wf(),
    {
        if action == 'm' {
            self.current_code_style = self.resolve_style(params);
        }
    }

    /// The palette color selected by an SGR color code.
    pub fn get_terminal_color(color_num: u16) -> (color: TerminalCharColor)
        ensures
            color == terminal_color_spec(color_num),
    {
        match color_num {
            30 | 40 => TerminalCharColor { r: 0, g: 0, b: 0, a: 255 },
            31 | 41 => TerminalCharColor { r: 255, g: 0, b: 0, a: 255 },
            32 | 42 => TerminalCharColor { r: 0, g: 255, b: 0, a: 255 },
            33 | 43 => TerminalCharColor { r: 255, g: 255, b: 0, a: 255 },
            34 | 44 => TerminalCharColor { r: 0, g: 0, b: 255, a: 255 },
            35 | 45 => TerminalCharColor { r: 128, g: 0, b: 128, a: 255 },
            36 | 46 => TerminalCharColor { r: 0, g: 255, b: 255, a: 255 },
            _ => TerminalCharColor { r: 255, g: 255, b: 255, a: 255 },
        }
    }

    /// Compute the style an SGR parameter list selects, starting over from
    /// the default style and applying every code of every group in order.
    pub fn resolve_style(&self, params: &Vec<Vec<u16>>) -> (style: CharCodeStyle)
        ensures
            style == sgr_style_spec(groups_view(*params)),
    {
        let ghost groups = groups_view(*params);
        let mut style = CharCodeStyle::new();
        proof {
            assert(groups.skip(0) =~= groups);
        }
        let mut i: usize = 0;
        while i < params.len()
            invariant
                i <= params.len(),
                groups == groups_view(*params),
                groups.len() == params@.len(),
                apply_sgr_groups_spec(style, groups.skip(i as int)) == sgr_style_spec(groups),
            decreases params.len() - i,
        {
            let group = &params[i];
            let ghost style_before_group = style;
            proof {
                assert(groups[i as int] == group@);
                assert(group@.skip(0) =~= group@);
            }
            let mut j: usize = 0;
            while j < group.len()
                invariant
                    j <= group.len(),
                    apply_sgr_codes_spec(style, group@.skip(j as int))
                        == apply_sgr_codes_spec(style_before_group, group@),
                decreases group.len() - j,
            {
                let ghost style_before_code = style;
                let val: u16 = group[j];
                if 30 <= val && val <= 37 {
                    style.fg_color = CharResolver::get_terminal_color(val);
                } else if 40 <= val && val <= 47 {
                    style.bg_color = Some(CharResolver::get_terminal_color(val));
                } else if val == 4 {
                    style.underline = true;
                } else if val == 24 {
                    style.underline = false;
                } else if val == 1 {
                    style.bold = true;
                } else if val == 22 {
                    style.bold = false;
                } else if val == 0 {
                    style = CharCodeStyle::new();
                }
                proof {
                    assert(style == apply_sgr_code_spec(style_before_code, val));
                    assert(group@.skip(j as int)[0] == group@[j as int]);
                    assert(group@.skip(j as int).drop_first() =~= group@.skip(j as int + 1));
                }
                j += 1;
            }
            proof {
                assert(group@.skip(group@.len() as int) =~= Seq::<u16>::empty());
                assert(apply_sgr_codes_spec(style, Seq::<u16>::empty()) == style);
                assert(groups.skip(i as int)[0] == group@);
                assert(groups.skip(i as int).drop_first() =~= groups.skip(i as int + 1));
                assert(apply_sgr_groups_spec(style_before_group, groups.skip(i as int))
                    == apply_sgr_groups_spec(style, groups.skip(i as int + 1)));
            }
            i += 1;
        }
        proof {
            assert(groups.skip(groups.len() as int) =~= Seq::<Seq<u16>>::empty());
        }
        style
    }

    /// Apply one tokenizer event, dispatching to the matching entry point.
    pub fn apply_event(&mut self, event: &TermEvent)
        ensures
            final(self).lines() == step_lines_spec(old(self).lines(), old(self).style(), *event),
            final(self).style() == step_style_spec(old(self).style(), *event),
            old(self).wf() ==> final(self).wf(),
    {
        match event {
            TermEvent::Print(c) => self.print(*c),
            TermEvent::Control(byte) => self.execute(*byte),
            TermEvent::Csi(params, action) => self.csi_dispatch(params, *action),
        }
    }

    /// Feed a whole sequence of events, in order.
    pub fn apply_events(&mut self, events: &Vec<TermEvent>)
        ensures
            final(self).lines() == fold_lines_spec(old(self).lines(), old(self).style(), events@),
            final(self).style() == fold_style_spec(old(self).style(), events@),
            old(self).wf() ==> final(self).wf(),
    {
        let ghost lines0 = self.lines();
        let ghost style0 = self.style();
        let ghost wf0 = self.wf();
        proof {
            assert(events@.skip(0) =~= events@);
        }
        let mut i: usize = 0;
        while i < events.len()
            invariant
                i <= events.len(),
                fold_lines_spec(self.lines(), self.style(), events@.skip(i as int))
                    == fold_lines_spec(lines0, style0, events@),
                fold_style_spec(self.style(), events@.skip(i as int))
                    == fold_style_spec(style0, events@),
                wf0 ==> self.wf(),
            decreases events.len() - i,
        {
            let ghost lines_before = self.lines();
            let ghost style_before = self.style();
            self.apply_event(&events[i]);
            proof {
                assert(events@.skip(i as int)[0] == events@[i as int]);
                assert(events@.skip(i as int).drop_first() =~= events@.skip(i as int + 1));
                assert(fold_lines_spec(lines_before, style_before, events@.skip(i as int))
                    == fold_lines_spec(self.lines(), self.style(), events@.skip(i as int + 1)));
            }
            i += 1;
        }
        proof {
            assert(events@.skip(events@.len() as int) =~= Seq::<TermEvent>::empty());
        }
    }
}

/// How one event changes the scrollback: a print appends a cell, stamped
/// with the current style, to the last line (or is dropped when the buffer
/// is empty); a line feed opens a new empty line; everything else leaves the
/// buffer alone.
pub open spec fn step_lines_spec(
    lines: Seq<Seq<CharCode>>,
    style: CharCodeStyle,
    event: TermEvent,
) -> Seq<Seq<CharCode>> {
    match event {
        TermEvent::Print(c) => if lines.len() == 0 {
            lines
        } else {
            lines.update(
                lines.len() - 1,
                lines.last().push(CharCode { c: norm_char_spec(c), style }),
            )
        },
        TermEvent::Control(byte) => if byte == 0x0A {
            lines.push(Seq::<CharCode>::empty())
        } else {
            lines
        },
        TermEvent::Csi(_, _) => lines,
    }
}

/// How one event changes the current style: only an SGR dispatch (final
/// byte 'm') replaces it; every other event keeps it.
pub open spec fn step_style_spec(style: CharCodeStyle, event: TermEvent) -> CharCodeStyle {
    match event {
        TermEvent::Csi(params, action) => if action == 'm' {
            sgr_style_spec(groups_view(params))
        } else {
            style
        },
        _ => style,
    }
}

/// The scrollback after a sequence of events, threaded through the steps.
pub open spec fn fold_lines_spec(
    lines: Seq<Seq<CharCode>>,
    style: CharCodeStyle,
    events: Seq<TermEvent>,
) -> Seq<Seq<CharCode>>
    decreases events.len(),
{
    if events.len() == 0 {
        lines
    } else {
        fold_lines_spec(
            step_lines_spec(lines, style, events[0]),
            step_style_spec(style, events[0]),
            events.drop_first(),
        )
    }
}

/// The current style after a sequence of events.
pub open spec fn fold_style_spec(style: CharCodeStyle, events: Seq<TermEvent>) -> CharCodeStyle
    decreases events.len(),
{
    if events.len() == 0 {
        style
    } else {
        fold_style_spec(step_style_spec(style, events[0]), events.drop_first())
    }
}

/// An event of plain text: a printable character or a line feed.
pub open spec fn is_plain_event_spec(event: TermEvent) -> bool {
    match event {
        TermEvent::Print(_) => true,
        TermEvent::Control(byte) => byte == 0x0A,
        TermEvent::Csi(_, _) => false,
    }
}

/// Whether an event is a line feed.
pub open spec fn is_line_feed_spec(event: TermEvent) -> bool {
    match event {
        TermEvent::Control(byte) => byte == 0x0A,
        _ => false,
    }
}

/// How many line feeds a sequence of events contains.
pub open spec fn count_line_feeds_spec(events: Seq<TermEvent>) -> int
    decreases events.len(),
{
    if events.len() == 0 {
        0
    } else {
        count_line_feeds_spec(events.drop_last()) + if is_line_feed_spec(events.last()) {
            1int
        } else {
            0int
        }
    }
}

/// The text a sequence of events lays out, split at the line feeds: the
/// printed characters (NUL as space) of each stretch between line feeds,
/// starting and ending with a (possibly empty) segment.
pub open spec fn printed_segments_spec(events: Seq<TermEvent>) -> Seq<Seq<char>>
    decreases events.len(),
{
    if events.len() == 0 {
        seq![Seq::<char>::empty()]
    } else {
        let rest = printed_segments_spec(events.drop_last());
        match events.last() {
            TermEvent::Print(c) => rest.update(
                rest.len() - 1,
                rest.last().push(norm_char_spec(c)),
            ),
            TermEvent::Control(byte) => if byte == 0x0A {
                rest.push(Seq::<char>::empty())
            } else {
                rest
            },
            TermEvent::Csi(_, _) => rest,
        }
    }
}

/// The text of one buffer line, stripped of styling.
pub open spec fn text_of_line_spec(line: Seq<CharCode>) -> Seq<char> {
    line.map_values(|code: CharCode| code.c)
}

/// The text of each buffer line, stripped of styling.
pub open spec fn line_texts_spec(lines: Seq<Seq<CharCode>>) -> Seq<Seq<char>> {
    lines.map_values(|line: Seq<CharCode>| text_of_line_spec(line))
}

/// Whether every cell of the buffer carries the given style.
pub open spec fn all_cells_styled_spec(lines: Seq<Seq<CharCode>>, style: CharCodeStyle) -> bool {
    forall|i: int, j: int|
        0 <= i < lines.len() && 0 <= j < lines[i].len() ==> (#[trigger] lines[i][j]).style == style
}

/// A sequence of events never contains a negative number of line feeds.
pub proof fn lemma_count_line_feeds_nonneg(events: Seq<TermEvent>)
    ensures
        count_line_feeds_spec(events) >= 0,
    decreases events.len(),
{
    if events.len() > 0 {
        lemma_count_line_feeds_nonneg(events.drop_last());
    }
}

/// Folding one more event at the end equals one step on the folded state.
pub proof fn lemma_fold_snoc(
    lines: Seq<Seq<CharCode>>,
    style: CharCodeStyle,
    events: Seq<TermEvent>,
    event: TermEvent,
)
    ensures
        fold_lines_spec(lines, style, events.push(event)) == step_lines_spec(
            fold_lines_spec(lines, style, events),
            fold_style_spec(style, events),
            event,
        ),
        fold_style_spec(style, events.push(event)) == step_style_spec(
            fold_style_spec(style, events),
            event,
        ),
    decreases events.len(),
{
    let snoc = events.push(event);
    if events.len() == 0 {
        assert(snoc[0] == event);
        assert(snoc.drop_first() =~= Seq::<TermEvent>::empty());
        assert(fold_lines_spec(lines, style, snoc) == fold_lines_spec(
            step_lines_spec(lines, style, event),
            step_style_spec(style, event),
            snoc.drop_first(),
        ));
        assert(fold_style_spec(style, snoc) == fold_style_spec(
            step_style_spec(style, event),
            snoc.drop_first(),
        ));
        assert(fold_lines_spec(lines, style, events) == lines);
        assert(fold_style_spec(style, events) == style);
    } else {
        let stepped_lines = step_lines_spec(lines, style, events[0]);
        let stepped_style = step_style_spec(style, events[0]);
        assert(snoc[0] == events[0]);
        assert(snoc.drop_first() =~= events.drop_first().push(event));
        assert(fold_lines_spec(lines, style, snoc) == fold_lines_spec(
            stepped_lines,
            stepped_style,
            events.drop_first().push(event),
        ));
        assert(fold_style_spec(style, snoc) == fold_style_spec(
            stepped_style,
            events.drop_first().push(event),
        ));
        lemma_fold_snoc(stepped_lines, stepped_style, events.drop_first(), event);
        assert(fold_lines_spec(lines, style, events) == fold_lines_spec(
            stepped_lines,
            stepped_style,
            events.drop_first(),
        ));
        assert(fold_style_spec(style, events) == fold_style_spec(
            stepped_style,
            events.drop_first(),
        ));
    }
}

/// Appending one cell to a line appends its character to the line's text.
proof fn lemma_text_of_push(line: Seq<CharCode>, code: CharCode)
    ensures
        text_of_line_spec(line.push(code)) == text_of_line_spec(line).push(code.c),
{
    assert(text_of_line_spec(line.push(code)) =~= text_of_line_spec(line).push(code.c));
}

/// Plain-text law: a fresh interpreter fed only printable characters and
/// line feeds keeps the default style, produces exactly one line more than
/// the number of line feeds, and the lines' texts are exactly the stretches
/// of the input between the line feeds, every cell in the default style.
pub proof fn lemma_plain_text_feed(events: Seq<TermEvent>)
    requires
        forall|i: int| 0 <= i < events.len() ==> is_plain_event_spec(#[trigger] events[i]),
    ensures
        fold_style_spec(CharCodeStyle::default_spec(), events) == CharCodeStyle::default_spec(),
        fold_lines_spec(initial_lines_spec(), CharCodeStyle::default_spec(), events).len() == 1
            + count_line_feeds_spec(events),
        line_texts_spec(fold_lines_spec(initial_lines_spec(), CharCodeStyle::default_spec(), events))
            == printed_segments_spec(events),
        all_cells_styled_spec(
            fold_lines_spec(initial_lines_spec(), CharCodeStyle::default_spec(), events),
            CharCodeStyle::default_spec(),
        ),
    decreases events.len(),
{
    let style0 = CharCodeStyle::default_spec();
    if events.len() == 0 {
        assert(line_texts_spec(initial_lines_spec()) =~= seq![Seq::<char>::empty()]) by {
            assert(text_of_line_spec(Seq::<CharCode>::empty()) =~= Seq::<char>::empty());
        }
    } else {
        let prefix = events.drop_last();
        let last = events.last();
        assert(forall|i: int| 0 <= i < prefix.len() ==> is_plain_event_spec(#[trigger] prefix[i]))
            by {
            assert(forall|i: int|
                0 <= i < prefix.len() ==> #[trigger] prefix[i] == events[i] && is_plain_event_spec(
                    events[i],
                ));
        }
        lemma_plain_text_feed(prefix);
        lemma_count_line_feeds_nonneg(prefix);
        lemma_fold_snoc(initial_lines_spec(), style0, prefix, last);
        assert(prefix.push(last) =~= events);
        let lines_pre = fold_lines_spec(initial_lines_spec(), style0, prefix);
        let segs_pre = printed_segments_spec(prefix);
        let n = lines_pre.len();
        assert(n >= 1);
        let lines = fold_lines_spec(initial_lines_spec(), style0, events);
        let segs = printed_segments_spec(events);
        assert(lines == step_lines_spec(lines_pre, style0, last));
        match last {
            TermEvent::Print(c) => {
                let cell = CharCode { c: norm_char_spec(c), style: style0 };
                assert(lines == lines_pre.update(n - 1, lines_pre.last().push(cell)));
                assert(segs == segs_pre.update(n - 1, segs_pre.last().push(norm_char_spec(c))));
                assert(line_texts_spec(lines) =~= segs) by {
                    lemma_text_of_push(lines_pre.last(), cell);
                    assert(forall|i: int|
                        0 <= i < n - 1 ==> #[trigger] line_texts_spec(lines)[i] == segs[i]) by {
                        assert(forall|i: int|
                            0 <= i < n - 1 ==> #[trigger] lines[i] == lines_pre[i]);
                    }
                    assert(line_texts_spec(lines)[n - 1] == segs[n - 1]);
                }
                assert(all_cells_styled_spec(lines, style0)) by {
                    assert(forall|i: int, j: int|
                        0 <= i < lines.len() && 0 <= j < lines[i].len()
                            ==> (#[trigger] lines[i][j]).style == style0) by {
                        assert(forall|i: int, j: int|
                            0 <= i < n - 1 && 0 <= j < lines[i].len()
                                ==> #[trigger] lines[i][j] == lines_pre[i][j]);
                        assert(forall|j: int|
                            0 <= j < lines[n - 1].len() - 1
                                ==> #[trigger] lines[n - 1][j] == lines_pre[n - 1][j]);
                        assert(lines[n - 1][lines[n - 1].len() - 1] == cell);
                    }
                }
            },
            TermEvent::Control(byte) => {
                assert(byte == 0x0A);
                assert(lines == lines_pre.push(Seq::<CharCode>::empty()));
                assert(segs == segs_pre.push(Seq::<char>::empty()));
                assert(line_texts_spec(lines) =~= segs) by {
                    assert(text_of_line_spec(Seq::<CharCode>::empty()) =~= Seq::<char>::empty());
                    assert(forall|i: int|
                        0 <= i < n ==> #[trigger] lines[i] == lines_pre[i]);
                }
                assert(all_cells_styled_spec(lines, style0)) by {
                    assert(forall|i: int, j: int|
                        0 <= i < n && 0 <= j < lines[i].len()
                            ==> #[trigger] lines[i][j] == lines_pre[i][j]);
                }
            },
            TermEvent::Csi(_, _) => {
                assert(false);
            },
        }
    }
}

/// Read idempotence: the snapshot `get_lines` hands out is a function of
/// the interpreter state alone, so two reads with no feed in between see
/// identical content, line for line and cell for cell.
pub proof fn lemma_read_idempotent(
    resolver: CharResolver,
    first: Seq<CharLine>,
    second: Seq<CharLine>,
)
    requires
        first.len() == resolver.lines().len(),
        forall|i: int| 0 <= i < first.len() ==> #[trigger] first[i]@ == resolver.lines()[i],
        second.len() == resolver.lines().len(),
        forall|i: int| 0 <= i < second.len() ==> #[trigger] second[i]@ == resolver.lines()[i],
    ensures
        first.len() == second.len(),
        forall|i: int| 0 <= i < first.len() ==> #[trigger] first[i]@ == second[i]@,
{
}

/// SGR 0 resets: applied to any accumulated style it yields the default
/// style, and a dispatch whose sole parameter is 0 selects the default
/// style, whatever came before.
pub proof fn lemma_sgr_zero_resets(style: CharCodeStyle)
    ensures
        apply_sgr_code_spec(style, 0) == CharCodeStyle::default_spec(),
        sgr_style_spec(seq![seq![0u16]]) == CharCodeStyle::default_spec(),
{
    let zero_group = seq![0u16];
    let groups = seq![zero_group];
    assert(groups[0] == zero_group);
    assert(zero_group[0] == 0u16);
    assert(groups.drop_first() =~= Seq::<Seq<u16>>::empty());
    assert(zero_group.drop_first() =~= Seq::<u16>::empty());
    assert(apply_sgr_codes_spec(CharCodeStyle::default_spec(), zero_group)
        == CharCodeStyle::default_spec()) by {
        reveal_with_fuel(apply_sgr_codes_spec, 3);
    }
    assert(sgr_style_spec(groups) == CharCodeStyle::default_spec()) by {
        reveal_with_fuel(apply_sgr_groups_spec, 3);
    }
}

} // verus!
