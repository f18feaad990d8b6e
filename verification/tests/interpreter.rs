use must::char_line::{CharCode, CharCodeStyle, CharLine, TerminalCharColor};
use must::char_resolver::{CharResolver, TermEvent};
use vte::{Params, Perform};

struct Adapter<'a> {
    resolver: &'a mut CharResolver,
}

impl<'a> Perform for Adapter<'a> {
    fn print(&mut self, c: char) {
        self.resolver.print(c);
    }

    fn execute(&mut self, byte: u8) {
        self.resolver.execute(byte);
    }

    fn csi_dispatch(&mut self, params: &Params, _intermediates: &[u8], _ignore: bool, action: char) {
        let groups: Vec<Vec<u16>> = params.iter().map(|group| group.to_vec()).collect();
        self.resolver.csi_dispatch(&groups, action);
    }
}

fn feed_bytes(resolver: &mut CharResolver, bytes: &[u8]) {
    let mut parser = vte::Parser::new();
    let mut adapter = Adapter { resolver };
    for byte in bytes {
        parser.advance(&mut adapter, *byte);
    }
}

fn default_style() -> CharCodeStyle {
    CharCodeStyle::new()
}

fn color(r: u8, g: u8, b: u8) -> TerminalCharColor {
    TerminalCharColor { r, g, b, a: 255 }
}

fn line_text(line: &CharLine) -> String {
    line.char_codes().iter().map(|code| code.c).collect()
}

#[test]
fn fresh_resolver_has_one_empty_line() {
    let resolver = CharResolver::new();
    let lines = resolver.get_lines();
    assert_eq!(lines.len(), 1);
    assert!(lines[0].char_codes().is_empty());
}

#[test]
fn plain_bytes_split_lines_at_line_feeds() {
    let mut resolver = CharResolver::new();
    feed_bytes(&mut resolver, b"ab\ncd\n");
    let lines = resolver.get_lines();
    assert_eq!(lines.len(), 3);
    assert_eq!(line_text(&lines[0]), "ab");
    assert_eq!(line_text(&lines[1]), "cd");
    assert_eq!(line_text(&lines[2]), "");
    for line in lines {
        for code in line.char_codes() {
            assert_eq!(code.style, default_style());
        }
    }
}

#[test]
fn nul_prints_as_space() {
    let mut resolver = CharResolver::new();
    resolver.print('\u{0000}');
    let lines = resolver.get_lines();
    assert_eq!(line_text(&lines[0]), " ");
}

#[test]
fn carriage_return_is_ignored() {
    let mut resolver = CharResolver::new();
    resolver.print('a');
    resolver.execute(0x0D);
    resolver.print('b');
    let lines = resolver.get_lines();
    assert_eq!(lines.len(), 1);
    assert_eq!(line_text(&lines[0]), "ab");
}

#[test]
fn line_feed_opens_new_line() {
    let mut resolver = CharResolver::new();
    resolver.print('a');
    resolver.execute(0x0A);
    let lines = resolver.get_lines();
    assert_eq!(lines.len(), 2);
    assert_eq!(line_text(&lines[0]), "a");
    assert_eq!(line_text(&lines[1]), "");
}

#[test]
fn concrete_scenario_two_styled_lines() {
    // hi ESC[31m red ESC[0m LF, as raw bytes.
    let bytes: &[u8] = &[
        0x68, 0x69, 0x1B, 0x5B, 0x33, 0x31, 0x6D, 0x72, 0x65, 0x64, 0x1B, 0x5B, 0x30, 0x6D, 0x0A,
    ];
    let mut resolver = CharResolver::new();
    feed_bytes(&mut resolver, bytes);
    let lines = resolver.get_lines();
    assert_eq!(lines.len(), 2);
    let cells = lines[0].char_codes();
    assert_eq!(cells.len(), 5);
    let red = CharCodeStyle { fg_color: color(255, 0, 0), ..default_style() };
    assert_eq!((cells[0].c, cells[0].style), ('h', default_style()));
    assert_eq!((cells[1].c, cells[1].style), ('i', default_style()));
    assert_eq!((cells[2].c, cells[2].style), ('r', red));
    assert_eq!((cells[3].c, cells[3].style), ('e', red));
    assert_eq!((cells[4].c, cells[4].style), ('d', red));
    assert!(lines[1].char_codes().is_empty());
}

#[test]
fn style_sequencing_bold_red_then_reset() {
    let mut resolver = CharResolver::new();
    feed_bytes(&mut resolver, b"hi\x1b[31;1mred\x1b[0mY");
    let lines = resolver.get_lines();
    assert_eq!(lines.len(), 1);
    let cells = lines[0].char_codes();
    assert_eq!(cells.len(), 6);
    let bold_red = CharCodeStyle { bold: true, fg_color: color(255, 0, 0), ..default_style() };
    assert_eq!((cells[0].c, cells[0].style), ('h', default_style()));
    assert_eq!((cells[1].c, cells[1].style), ('i', default_style()));
    assert_eq!((cells[2].c, cells[2].style), ('r', bold_red));
    assert_eq!((cells[3].c, cells[3].style), ('e', bold_red));
    assert_eq!((cells[4].c, cells[4].style), ('d', bold_red));
    assert_eq!((cells[5].c, cells[5].style), ('Y', default_style()));
}

#[test]
fn sgr_zero_resets_accumulated_state() {
    let mut resolver = CharResolver::new();
    resolver.csi_dispatch(&vec![vec![1], vec![4], vec![31], vec![41]], 'm');
    resolver.print('x');
    resolver.csi_dispatch(&vec![vec![0]], 'm');
    resolver.print('y');
    let cells_owned: Vec<CharCode> = resolver.get_lines()[0].char_codes().to_vec();
    let styled = cells_owned[0].style;
    assert!(styled.bold);
    assert!(styled.underline);
    assert_eq!(styled.fg_color, color(255, 0, 0));
    assert_eq!(styled.bg_color, Some(color(255, 0, 0)));
    assert_eq!(cells_owned[1].style, default_style());
}

#[test]
fn sgr_codes_toggle_attributes() {
    let mut resolver = CharResolver::new();
    resolver.csi_dispatch(&vec![vec![1], vec![4]], 'm');
    resolver.print('a');
    resolver.csi_dispatch(&vec![vec![1], vec![4], vec![22]], 'm');
    resolver.print('b');
    resolver.csi_dispatch(&vec![vec![1], vec![4], vec![24]], 'm');
    resolver.print('c');
    let cells: Vec<CharCode> = resolver.get_lines()[0].char_codes().to_vec();
    assert!(cells[0].style.bold && cells[0].style.underline);
    assert!(!cells[1].style.bold && cells[1].style.underline);
    assert!(cells[2].style.bold && !cells[2].style.underline);
}

#[test]
fn sgr_starts_over_from_default_each_dispatch() {
    // An SGR sequence is resolved from the default style, not from the
    // previously accumulated one.
    let mut resolver = CharResolver::new();
    resolver.csi_dispatch(&vec![vec![1]], 'm');
    resolver.csi_dispatch(&vec![vec![31]], 'm');
    resolver.print('x');
    let cells: Vec<CharCode> = resolver.get_lines()[0].char_codes().to_vec();
    assert!(!cells[0].style.bold);
    assert_eq!(cells[0].style.fg_color, color(255, 0, 0));
}

#[test]
fn unknown_sgr_codes_and_empty_groups_are_ignored() {
    let mut resolver = CharResolver::new();
    resolver.csi_dispatch(&vec![vec![], vec![99], vec![31], vec![]], 'm');
    resolver.print('x');
    let cells: Vec<CharCode> = resolver.get_lines()[0].char_codes().to_vec();
    let red = CharCodeStyle { fg_color: color(255, 0, 0), ..default_style() };
    assert_eq!(cells[0].style, red);
}

#[test]
fn non_sgr_csi_dispatch_is_ignored() {
    let mut resolver = CharResolver::new();
    resolver.csi_dispatch(&vec![vec![2]], 'J');
    resolver.print('x');
    let cells: Vec<CharCode> = resolver.get_lines()[0].char_codes().to_vec();
    assert_eq!(cells[0].style, default_style());
    assert_eq!(resolver.get_lines().len(), 1);
}

#[test]
fn unsupported_escape_sequences_are_absorbed() {
    let mut resolver = CharResolver::new();
    // Cursor motion and erase sequences pass through without effect.
    feed_bytes(&mut resolver, b"a\x1b[2J\x1b[10;20Hb");
    let lines = resolver.get_lines();
    assert_eq!(lines.len(), 1);
    assert_eq!(line_text(&lines[0]), "ab");
}

#[test]
fn repeated_reads_see_identical_content() {
    let mut resolver = CharResolver::new();
    feed_bytes(&mut resolver, b"one\ntwo");
    let first: Vec<CharLine> = resolver.get_lines().to_vec();
    let second: Vec<CharLine> = resolver.get_lines().to_vec();
    assert_eq!(first, second);
}

#[test]
fn apply_events_matches_direct_calls() {
    let mut by_events = CharResolver::new();
    let events = vec![
        TermEvent::Print('h'),
        TermEvent::Csi(vec![vec![31], vec![1]], 'm'),
        TermEvent::Print('r'),
        TermEvent::Control(0x0A),
        TermEvent::Csi(vec![vec![0]], 'm'),
        TermEvent::Print('y'),
    ];
    by_events.apply_events(&events);

    let mut direct = CharResolver::new();
    direct.print('h');
    direct.csi_dispatch(&vec![vec![31], vec![1]], 'm');
    direct.print('r');
    direct.execute(0x0A);
    direct.csi_dispatch(&vec![vec![0]], 'm');
    direct.print('y');

    assert_eq!(by_events.get_lines().to_vec(), direct.get_lines().to_vec());
    assert_eq!(by_events.get_lines().len(), 2);
}

#[test]
fn style_persists_across_line_feed() {
    let mut resolver = CharResolver::new();
    resolver.csi_dispatch(&vec![vec![31]], 'm');
    resolver.execute(0x0A);
    resolver.print('x');
    let cells: Vec<CharCode> = resolver.get_lines()[1].char_codes().to_vec();
    assert_eq!(cells[0].style.fg_color, color(255, 0, 0));
}

#[test]
fn terminal_color_palette_is_exact() {
    let cases: Vec<(u16, TerminalCharColor)> = vec![
        (30, color(0, 0, 0)),
        (31, color(255, 0, 0)),
        (32, color(0, 255, 0)),
        (33, color(255, 255, 0)),
        (34, color(0, 0, 255)),
        (35, color(128, 0, 128)),
        (36, color(0, 255, 255)),
        (37, color(255, 255, 255)),
    ];
    for (code, expected) in cases {
        assert_eq!(CharResolver::get_terminal_color(code), expected);
        assert_eq!(CharResolver::get_terminal_color(code + 10), expected);
    }
    assert_eq!(CharResolver::get_terminal_color(99), color(255, 255, 255));
}

#[test]
fn default_style_fields() {
    let style = CharCodeStyle::new();
    assert!(!style.bold);
    assert!(!style.underline);
    assert_eq!(style.fg_color, color(255, 255, 255));
    assert_eq!(style.bg_color, None);
}

#[test]
fn get_rgba_returns_channels_in_order() {
    let c = TerminalCharColor { r: 1, g: 2, b: 3, a: 4 };
    assert_eq!(c.get_rgba(), [1, 2, 3, 4]);
}

#[test]
fn char_line_appends_in_order() {
    let mut line = CharLine::new();
    assert!(line.char_codes().is_empty());
    line.push_code(CharCode::new('a', CharCodeStyle::new()));
    line.push_code(CharCode::new('b', CharCodeStyle::new()));
    let codes = line.char_codes();
    assert_eq!(codes.len(), 2);
    assert_eq!(codes[0].c, 'a');
    assert_eq!(codes[1].c, 'b');
}
