use presterm::deck::{Deck, Slide};
use presterm::layout::{bounded_area, center_block, line_offset, split_lines, text_size, Area};
use presterm::nav::{Action, ExitReason, Input, Navigator};
use presterm::render::{
    markdown_area, place_code, render_code, render_code_with, render_image, render_image_bytes,
    render_image_with, render_text, RenderError, Span,
};
use presterm::screen::{Cell, Paint, ScreenBuffer, DEFAULT_FG};

fn glyph(c: char) -> Option<Cell> {
    Some(Cell::Glyph(c, DEFAULT_FG))
}

#[test]
fn text_size_counts_widest_line_plus_one() {
    assert_eq!(text_size("ab\nabc"), (4, 2));
}

#[test]
fn text_size_of_empty_text() {
    assert_eq!(text_size(""), (1, 0));
}

#[test]
fn text_size_ignores_final_newline_and_crlf() {
    assert_eq!(text_size("abc\r\nde\n"), (4, 2));
}

#[test]
fn split_lines_matches_str_lines() {
    for s in ["", "\n", "a", "a\n", "a\n\nb", "x\r\ny\r", "\r\n", "one\ntwo\nthree\n"] {
        let expected: Vec<Vec<char>> = s.lines().map(|l| l.chars().collect()).collect();
        assert_eq!(split_lines(s), expected, "input {:?}", s);
    }
}

#[test]
fn lines_are_centred_on_their_own_length() {
    let offsets: Vec<usize> = ["a", "bb", "ccc"].iter().map(|l| line_offset(l.len(), 10)).collect();
    assert_eq!(offsets, vec![4, 4, 3]);
    assert!(offsets[0] > offsets[2]);
}

#[test]
fn line_wider_than_row_starts_at_zero() {
    assert_eq!(line_offset(30, 10), 0);
}

#[test]
fn center_block_saturates() {
    assert_eq!(center_block((4, 2), (10, 6)), (3, 2));
    assert_eq!(center_block((40, 20), (10, 6)), (0, 0));
}

#[test]
fn bounded_area_caps_wide_content() {
    let a = bounded_area(100, 2, (20, 10));
    assert_eq!(a, Area { x: 2, y: 2, width: 16, height: 5 });
}

#[test]
fn bounded_area_keeps_narrow_content() {
    let a = bounded_area(6, 2, (20, 10));
    assert_eq!(a, Area { x: 7, y: 2, width: 6, height: 5 });
}

#[test]
fn bounded_area_with_margin_wider_than_viewport() {
    let a = bounded_area(50, 30, (20, 7));
    assert_eq!(a, Area { x: 10, y: 2, width: 0, height: 3 });
    let b = bounded_area(usize::MAX, usize::MAX, (usize::MAX, usize::MAX));
    assert_eq!(b.width, 0);
    assert!(b.height <= usize::MAX / 2 + 1);
}

#[test]
fn markdown_area_uses_text_width() {
    let a = markdown_area("# Title\nbody text", 2, (40, 20));
    assert_eq!(a, Area { x: 15, y: 5, width: 10, height: 10 });
}

#[test]
fn render_text_centres_each_line() {
    let mut buf = ScreenBuffer::new(10, 5);
    render_text(&mut buf, "a\nbb\nccc");
    assert_eq!(buf.cell_at(4, 1), glyph('a'));
    assert_eq!(buf.cell_at(3, 1), Some(Cell::Blank));
    assert_eq!(buf.cell_at(4, 2), glyph('b'));
    assert_eq!(buf.cell_at(5, 2), glyph('b'));
    assert_eq!(buf.cell_at(3, 3), glyph('c'));
    assert_eq!(buf.cell_at(5, 3), glyph('c'));
    assert_eq!(buf.cell_at(6, 3), Some(Cell::Blank));
    assert_eq!(buf.cell_at(4, 0), Some(Cell::Blank));
    assert!(!buf.cursor_visible());
}

#[test]
fn render_text_clears_previous_content() {
    let mut buf = ScreenBuffer::new(6, 3);
    buf.write("zzzzzz");
    render_text(&mut buf, "x");
    assert_eq!(buf.cell_at(0, 0), Some(Cell::Blank));
    assert_eq!(buf.cell_at(2, 1), glyph('x'));
}

#[test]
fn write_is_cut_at_the_right_edge() {
    let mut buf = ScreenBuffer::new(4, 2);
    buf.set_cursor(2, 1);
    buf.write("hello");
    assert_eq!(buf.cell_at(2, 1), glyph('h'));
    assert_eq!(buf.cell_at(3, 1), glyph('e'));
    assert_eq!(buf.cell_at(4, 1), None);
    assert_eq!(buf.cursor(), (7, 1));
}

#[test]
fn write_below_the_grid_changes_no_cell() {
    let mut buf = ScreenBuffer::new(4, 2);
    buf.set_cursor(0, 5);
    buf.write("hi");
    assert!(buf.flush().is_empty());
}

#[test]
fn flush_reports_changed_cells_once() {
    let mut buf = ScreenBuffer::new(4, 2);
    assert!(buf.flush().is_empty());
    buf.set_cursor(1, 0);
    buf.set_fg(0x00ff00);
    buf.write("hi");
    let first = buf.flush();
    assert_eq!(
        first,
        vec![
            Paint { x: 1, y: 0, cell: Cell::Glyph('h', 0x00ff00) },
            Paint { x: 2, y: 0, cell: Cell::Glyph('i', 0x00ff00) },
        ]
    );
    let second = buf.flush();
    assert!(second.is_empty());
}

#[test]
fn flush_after_clear_blanks_old_cells() {
    let mut buf = ScreenBuffer::new(3, 1);
    buf.write("ab");
    buf.flush();
    buf.clear();
    assert_eq!(
        buf.flush(),
        vec![Paint { x: 0, y: 0, cell: Cell::Blank }, Paint { x: 1, y: 0, cell: Cell::Blank }]
    );
}

#[test]
fn rewriting_the_same_text_repaints_nothing() {
    let mut buf = ScreenBuffer::new(5, 1);
    buf.write("abc");
    buf.flush();
    buf.clear();
    buf.set_cursor(0, 0);
    buf.write("abc");
    assert!(buf.flush().is_empty());
}

#[test]
fn image_fills_the_top_left_region() {
    let mut buf = ScreenBuffer::new(8, 8);
    render_image(&mut buf, 7);
    assert_eq!(buf.cell_at(0, 0), Some(Cell::Texture(7)));
    assert_eq!(buf.cell_at(4, 4), Some(Cell::Texture(7)));
    assert_eq!(buf.cell_at(5, 4), Some(Cell::Blank));
    assert_eq!(buf.cell_at(4, 5), Some(Cell::Blank));
    assert_eq!(buf.flush().len(), 25);
}

#[test]
fn image_is_cut_by_a_small_screen() {
    let mut buf = ScreenBuffer::new(3, 2);
    render_image(&mut buf, 1);
    assert_eq!(buf.flush().len(), 6);
}

#[test]
fn advance_past_last_slide_ends_presentation() {
    let mut nav = Navigator { index: 2 };
    assert_eq!(nav.on_input(Input::Advance, 3), Action::Exit(ExitReason::EndOfDeck));
    assert_eq!(nav.index, 3);
}

#[test]
fn retreat_at_first_slide_stays() {
    let mut nav = Navigator::new();
    assert_eq!(nav.on_input(Input::Retreat, 3), Action::Show(0));
    assert_eq!(nav.index, 0);
    let mut far = Navigator { index: 5 };
    far.retreat();
    assert_eq!(far.index, 4);
}

#[test]
fn advance_saturates() {
    let mut nav = Navigator { index: usize::MAX };
    nav.advance();
    assert_eq!(nav.index, usize::MAX);
}

#[test]
fn three_slide_deck_walkthrough() {
    let deck = Deck::new(vec![
        Slide::Text("hi".to_string()),
        Slide::Text("bye".to_string()),
        Slide::Text("done".to_string()),
    ]);
    let mut nav = Navigator::new();
    assert_eq!(deck.action_at(nav.index), Action::Show(0));
    assert_eq!(nav.on_input(Input::Advance, deck.len()), Action::Show(1));
    assert_eq!(nav.on_input(Input::Advance, deck.len()), Action::Show(2));
    assert_eq!(nav.on_input(Input::Advance, deck.len()), Action::Exit(ExitReason::EndOfDeck));
    assert_eq!(nav.index, 3);
    assert!(deck.slide(nav.index).is_none());
    assert!(matches!(deck.slide(2), Some(Slide::Text(t)) if t == "done"));
}

#[test]
fn empty_deck_ends_at_once() {
    let deck = Deck::new(Vec::new());
    assert_eq!(deck.action_at(0), Action::Exit(ExitReason::EndOfDeck));
}

#[test]
fn quit_failure_and_other_keys() {
    let mut nav = Navigator { index: 1 };
    assert_eq!(nav.on_input(Input::Ignored, 3), Action::Show(1));
    assert_eq!(nav.on_input(Input::Quit, 3), Action::Exit(ExitReason::Quit));
    assert_eq!(nav.on_input(Input::Failed, 3), Action::Exit(ExitReason::InputError));
    assert_eq!(nav.index, 1);
}

fn plain(lines: &[&str]) -> Vec<Vec<Span>> {
    lines.iter().map(|l| vec![Span { fg: DEFAULT_FG, text: l.to_string() }]).collect()
}

#[test]
fn unknown_language_tag_is_an_error() {
    let mut buf = ScreenBuffer::new(20, 6);
    let r = render_code(&mut buf, "let x = 1;", "no-such-language-tag", &plain(&["let x = 1;"]));
    assert_eq!(r, Err(RenderError::UnknownLanguage));
    assert!(buf.flush().is_empty());
}

#[test]
fn known_language_tag_draws_code() {
    let mut buf = ScreenBuffer::new(20, 6);
    let r = render_code(&mut buf, "fn f() {}", "rs", &plain(&["fn f() {}"]));
    assert_eq!(r, Ok(()));
    // extent (10, 1) in 20x6: origin (5, 2)
    assert_eq!(buf.cell_at(5, 2), glyph('f'));
    assert_eq!(buf.cursor(), (0, 0));
}

#[test]
fn render_code_with_follows_the_lookup() {
    let mut buf = ScreenBuffer::new(10, 4);
    assert_eq!(render_code_with(&mut buf, false, "x", &plain(&["x"])), Err(RenderError::UnknownLanguage));
    assert!(buf.flush().is_empty());
    assert_eq!(render_code_with(&mut buf, true, "x", &plain(&["x"])), Ok(()));
    assert_eq!(buf.cell_at(4, 1), glyph('x'));
}

#[test]
fn code_spans_keep_their_colours() {
    let mut buf = ScreenBuffer::new(12, 5);
    let lines = vec![
        vec![
            Span { fg: 0xff0000, text: "ab".to_string() },
            Span { fg: 0x0000ff, text: "c".to_string() },
        ],
        vec![Span { fg: 0x00ff00, text: "d".to_string() }],
    ];
    place_code(&mut buf, "abc\nd", &lines);
    // extent (4, 2) in 12x5: origin (4, 1)
    assert_eq!(buf.cell_at(4, 1), Some(Cell::Glyph('a', 0xff0000)));
    assert_eq!(buf.cell_at(5, 1), Some(Cell::Glyph('b', 0xff0000)));
    assert_eq!(buf.cell_at(6, 1), Some(Cell::Glyph('c', 0x0000ff)));
    assert_eq!(buf.cell_at(4, 2), Some(Cell::Glyph('d', 0x00ff00)));
}

#[test]
fn text_size_counts_bytes() {
    assert_eq!(text_size("\u{e9}"), (3, 1));
    assert_eq!(text_size("ab\n\u{20ac}\u{1f600}"), (8, 2));
}

#[test]
fn text_size_agrees_with_str_len() {
    for s in ["", "x", "caf\u{e9}\nna\u{ef}ve", "\u{4e2d}\u{6587}\r\nab", "\u{1f600}\n\n"] {
        let w = 1 + s.lines().map(|l| l.len()).max().unwrap_or(0);
        assert_eq!(text_size(s), (w, s.lines().count()), "input {:?}", s);
    }
}

#[test]
fn render_text_centres_on_byte_length() {
    let mut buf = ScreenBuffer::new(10, 1);
    render_text(&mut buf, "\u{e9}");
    // two bytes in a row of ten: column 4
    assert_eq!(buf.cell_at(4, 0), glyph('\u{e9}'));
    assert_eq!(buf.cell_at(5, 0), Some(Cell::Blank));
}

const ONE_PIXEL_GIF: [u8; 43] = [
    0x47, 0x49, 0x46, 0x38, 0x39, 0x61, 0x01, 0x00, 0x01, 0x00, 0x80, 0x00, 0x00, 0xff, 0xff,
    0xff, 0x00, 0x00, 0x00, 0x21, 0xf9, 0x04, 0x01, 0x00, 0x00, 0x00, 0x00, 0x2c, 0x00, 0x00,
    0x00, 0x00, 0x01, 0x00, 0x01, 0x00, 0x00, 0x02, 0x02, 0x44, 0x01, 0x00, 0x3b,
];

#[test]
fn image_bytes_that_decode_are_drawn() {
    let mut buf = ScreenBuffer::new(8, 8);
    assert_eq!(render_image_bytes(&mut buf, &ONE_PIXEL_GIF, 3), Ok(()));
    assert_eq!(buf.cell_at(2, 2), Some(Cell::Texture(3)));
}

#[test]
fn image_bytes_that_do_not_decode_are_an_error() {
    let mut buf = ScreenBuffer::new(8, 8);
    assert_eq!(render_image_bytes(&mut buf, b"not an image", 3), Err(RenderError::Undecodable));
    assert!(buf.flush().is_empty());
}

#[test]
fn render_image_with_follows_the_decode() {
    let mut buf = ScreenBuffer::new(8, 8);
    assert_eq!(render_image_with(&mut buf, false, 9), Err(RenderError::Undecodable));
    assert_eq!(buf.cell_at(0, 0), Some(Cell::Blank));
    assert_eq!(render_image_with(&mut buf, true, 9), Ok(()));
    assert_eq!(buf.cell_at(0, 0), Some(Cell::Texture(9)));
}
