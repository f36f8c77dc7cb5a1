use vstd::prelude::*;

use crate::layout::{
    bounded_area, bounded_spec, cap_usize, centred, extent_height, extent_width, lemma_centred_cap,
    line_offset, lines_of, split_lines, text_size, utf8_len, utf8_len_of, Area,
};
use crate::screen::{ScreenBuffer, ScreenModel, DEFAULT_FG};

verus! {

/// Columns of the region an image slide fills.
pub const IMAGE_WIDTH: usize = 5;

/// Rows of the region an image slide fills.
pub const IMAGE_HEIGHT: usize = 5;

/// The region an image slide fills, at the top left.
pub open spec fn image_area() -> Area {
    Area { x: 0, y: 0, width: IMAGE_WIDTH, height: IMAGE_HEIGHT }
}

/// A failure while drawing a slide.
#[derive(Clone, Copy, Debug, PartialEq, Eq, Structural)]
pub enum RenderError {
    /// No syntax definition for the code slide's language tag.
    UnknownLanguage,
    /// The image slide's bytes do not decode as an image.
    Undecodable,
}

/// A run of highlighted text in one colour.
#[derive(Clone, Debug)]
pub struct Span {
    /// 24-bit RGB foreground, or `DEFAULT_FG`.
    pub fg: u32,
    pub text: String,
}

/// `m` after the first `n` of `lines`, each centred on its own length, the
/// first at row `top`.
pub open spec fn lines_painted(m: ScreenModel, lines: Seq<Seq<char>>, top: int, n: int) -> ScreenModel
    decreases n,
{
    if n <= 0 {
        m
    } else {
        let p = lines_painted(m, lines, top, n - 1);
        p.moved(
            centred(utf8_len(lines[n - 1]) as int, m.width as int) as nat,
            cap_usize(top + n - 1) as nat,
        ).written(lines[n - 1])
    }
}

/// Column at which line `i` of a text slide starts on a screen `width`
/// columns wide: centred on that line's own length in bytes.
pub open spec fn text_line_column(text: Seq<char>, i: int, width: int) -> int {
    centred(utf8_len(lines_of(text)[i]) as int, width)
}

/// Lines of a text slide are centred each on its own length: a line no
/// longer than another starts at least as far right.
pub proof fn shorter_lines_start_further_right(text: Seq<char>, i: int, j: int, width: int)
    requires
        0 <= i < lines_of(text).len(),
        0 <= j < lines_of(text).len(),
        utf8_len(lines_of(text)[i]) <= utf8_len(lines_of(text)[j]),
    ensures
        text_line_column(text, i, width) >= text_line_column(text, j, width),
{
}

/// Where a line of a text slide starts depends on that line alone, not on
/// the other lines of the slide.
pub proof fn line_column_ignores_other_lines(
    text: Seq<char>,
    other: Seq<char>,
    i: int,
    j: int,
    width: int,
)
    requires
        0 <= i < lines_of(text).len(),
        0 <= j < lines_of(other).len(),
        lines_of(text)[i] == lines_of(other)[j],
    ensures
        text_line_column(text, i, width) == text_line_column(other, j, width),
{
}

/// The screen for a text slide: cleared, cursor hidden, each line centred on
/// its own length, the block of lines centred vertically.
pub open spec fn text_frame(m: ScreenModel, text: Seq<char>) -> ScreenModel {
    let start = m.cleared().with_cursor_visible(false).inked(DEFAULT_FG);
    let lines = lines_of(text);
    lines_painted(start, lines, centred(lines.len() as int, m.height as int), lines.len() as int)
}

/// Draws a text slide.
pub fn render_text(buf: &mut ScreenBuffer, text: &str)
    requires
        old(buf)@.wf(),
    ensures
        final(buf)@ == text_frame(old(buf)@, text@),
        final(buf)@.wf(),
{
    buf.clear();
    buf.set_cursor_visible(false);
    buf.set_fg(DEFAULT_FG);
    let lines = split_lines(text);
    let (w, h) = buf.dimensions();
    let top = line_offset(lines.len(), h);
    let ghost start = buf@;
    let mut i: usize = 0;
    while i < lines.len()
        invariant
            i <= lines.len(),
            start.wf(),
            buf@.wf(),
            w == start.width,
            lines.deep_view() == lines_of(text@),
            buf@ == lines_painted(start, lines.deep_view(), top as int, i as int),
        decreases lines.len() - i,
    {
        assert(lines[i as int].deep_view() =~= lines[i as int]@);
        let len = utf8_len_of(&lines[i]);
        proof {
            lemma_centred_cap(utf8_len(lines[i as int]@) as int, w as int);
        }
        let x = line_offset(len, w);
        buf.set_cursor(x, top.saturating_add(i));
        buf.write_chars(&lines[i]);
        i = i + 1;
    }
}

/// Draws an image slide: the texture fills the image region at the top left.
pub fn render_image(buf: &mut ScreenBuffer, texture: u64)
    requires
        old(buf)@.wf(),
    ensures
        final(buf)@ == old(buf)@.moved(0, 0).imaged(image_area(), texture),
        final(buf)@.wf(),
{
    buf.set_cursor(0, 0);
    buf.draw_image(Area { x: 0, y: 0, width: IMAGE_WIDTH, height: IMAGE_HEIGHT }, texture);
}

/// Whether `bytes` decode as an image.
pub uninterp spec fn decodes_as_image(bytes: Seq<u8>) -> bool;

/// Relies on image's `load_from_memory`: whether the bytes decode as an image
/// in a format it recognises, which depends on the bytes alone.
#[verifier::external_body]
fn image_decodes(bytes: &[u8]) -> (r: bool)
    ensures
        r == decodes_as_image(bytes@),
{
    image::load_from_memory(bytes).is_ok()
}

/// Draws an image slide once decoding has answered `decodes`: bytes that do
/// not decode are an error and leave the screen alone.
pub fn render_image_with(buf: &mut ScreenBuffer, decodes: bool, texture: u64) -> (r: Result<
    (),
    RenderError,
>)
    requires
        old(buf)@.wf(),
    ensures
        final(buf)@.wf(),
        decodes ==> r == Ok::<(), RenderError>(()) && final(buf)@ == old(buf)@.moved(0, 0).imaged(
            image_area(),
            texture,
        ),
        !decodes ==> r == Err::<(), RenderError>(RenderError::Undecodable) && final(buf)@ == old(
            buf,
        )@,
{
    if decodes {
        render_image(buf, texture);
        Ok(())
    } else {
        Err(RenderError::Undecodable)
    }
}

/// Draws an image slide from the image file's bytes, shown through `texture`.
pub fn render_image_bytes(buf: &mut ScreenBuffer, bytes: &[u8], texture: u64) -> (r: Result<
    (),
    RenderError,
>)
    requires
        old(buf)@.wf(),
    ensures
        final(buf)@.wf(),
        decodes_as_image(bytes@) ==> r == Ok::<(), RenderError>(()) && final(buf)@ == old(
            buf,
        )@.moved(0, 0).imaged(image_area(), texture),
        !decodes_as_image(bytes@) ==> r == Err::<(), RenderError>(RenderError::Undecodable)
            && final(buf)@ == old(buf)@,
{
    let decodes = image_decodes(bytes);
    render_image_with(buf, decodes, texture)
}

/// Where a markdown slide is laid out: as wide as its text, capped by the
/// viewport less `margin` on each side, half the viewport high, centred.
pub fn markdown_area(markdown: &str, margin: usize, viewport: (usize, usize)) -> (r: Area)
    ensures
        r == bounded_spec(
            extent_width(markdown@),
            margin as int,
            viewport.0 as int,
            viewport.1 as int,
        ),
{
    let (text_w, _) = text_size(markdown);
    bounded_area(text_w, margin, viewport)
}

/// `m` after writing each of `spans` in its colour.
pub open spec fn spans_written(m: ScreenModel, spans: Seq<Span>) -> ScreenModel
    decreases spans.len(),
{
    if spans.len() == 0 {
        m
    } else {
        spans_written(m, spans.drop_last()).inked(spans.last().fg).written(spans.last().text@)
    }
}

/// `m` after the first `n` highlighted lines, line `k` starting at (`x`, `y + k`).
pub open spec fn code_lines_written(
    m: ScreenModel,
    lines: Seq<Vec<Span>>,
    x: int,
    y: int,
    n: int,
) -> ScreenModel
    decreases n,
{
    if n <= 0 {
        m
    } else {
        spans_written(
            code_lines_written(m, lines, x, y, n - 1).moved(x as nat, cap_usize(y + n - 1) as nat),
            lines[n - 1]@,
        )
    }
}

/// The screen for a code slide: the highlighted lines as one block centred on
/// the source's extent, the cursor back at the top left.
pub open spec fn code_frame(m: ScreenModel, content: Seq<char>, lines: Seq<Vec<Span>>) -> ScreenModel {
    let x = centred(extent_width(content), m.width as int);
    let y = centred(extent_height(content), m.height as int);
    code_lines_written(m, lines, x, y, lines.len() as int).moved(0, 0)
}

fn write_spans(buf: &mut ScreenBuffer, spans: &Vec<Span>)
    requires
        old(buf)@.wf(),
    ensures
        final(buf)@ == spans_written(old(buf)@, spans@),
        final(buf)@.wf(),
{
    let ghost start = buf@;
    let mut i: usize = 0;
    while i < spans.len()
        invariant
            i <= spans.len(),
            buf@.wf(),
            buf@ == spans_written(start, spans@.take(i as int)),
        decreases spans.len() - i,
    {
        proof {
            assert(spans@.take(i + 1).drop_last() =~= spans@.take(i as int));
        }
        buf.set_fg(spans[i].fg);
        buf.write(spans[i].text.as_str());
        i = i + 1;
    }
    assert(spans@.take(i as int) =~= spans@);
}

/// Draws a code slide from its source `content` and its highlighted lines.
pub fn place_code(buf: &mut ScreenBuffer, content: &str, highlighted: &Vec<Vec<Span>>)
    requires
        old(buf)@.wf(),
    ensures
        final(buf)@ == code_frame(old(buf)@, content@, highlighted@),
        final(buf)@.wf(),
{
    let (w, h) = buf.dimensions();
    let (text_w, text_h) = text_size(content);
    let x = line_offset(text_w, w);
    let y = line_offset(text_h, h);
    let ghost start = buf@;
    let mut i: usize = 0;
    while i < highlighted.len()
        invariant
            i <= highlighted.len(),
            buf@.wf(),
            x == centred(extent_width(content@), start.width as int),
            y == centred(extent_height(content@), start.height as int),
            buf@ == code_lines_written(start, highlighted@, x as int, y as int, i as int),
        decreases highlighted.len() - i,
    {
        buf.set_cursor(x, y.saturating_add(i));
        write_spans(buf, &highlighted[i]);
        i = i + 1;
    }
    buf.set_cursor(0, 0);
}

/// Draws a code slide once the syntax lookup for its tag has answered
/// `known`: an unknown language is an error and leaves the screen alone.
pub fn render_code_with(
    buf: &mut ScreenBuffer,
    known: bool,
    content: &str,
    highlighted: &Vec<Vec<Span>>,
) -> (r: Result<(), RenderError>)
    requires
        old(buf)@.wf(),
    ensures
        final(buf)@.wf(),
        known ==> r == Ok::<(), RenderError>(()) && final(buf)@ == code_frame(
            old(buf)@,
            content@,
            highlighted@,
        ),
        !known ==> r == Err::<(), RenderError>(RenderError::UnknownLanguage) && final(buf)@ == old(
            buf,
        )@,
{
    if known {
        place_code(buf, content, highlighted);
        Ok(())
    } else {
        Err(RenderError::UnknownLanguage)
    }
}

/// Whether the bundled syntax definitions have one for the file extension `tag`.
pub uninterp spec fn has_default_syntax(tag: Seq<char>) -> bool;

/// Relies on syntect's `SyntaxSet::load_defaults_newlines` and
/// `SyntaxSet::find_syntax_by_extension`: whether the bundled syntax set holds
/// a definition for the extension `tag`, which depends on `tag` alone.
#[verifier::external_body]
fn default_syntax_known(tag: &str) -> (r: bool)
    ensures
        r == has_default_syntax(tag@),
{
    syntect::parsing::SyntaxSet::load_defaults_newlines().find_syntax_by_extension(tag).is_some()
}

/// Draws a code slide whose language is `tag`; a tag without a syntax
/// definition is an error, with no fallback to plain text.
pub fn render_code(buf: &mut ScreenBuffer, content: &str, tag: &str, highlighted: &Vec<Vec<Span>>) -> (r:
    Result<(), RenderError>)
    requires
        old(buf)@.wf(),
    ensures
        final(buf)@.wf(),
        has_default_syntax(tag@) ==> r == Ok::<(), RenderError>(()) && final(buf)@ == code_frame(
            old(buf)@,
            content@,
            highlighted@,
        ),
        !has_default_syntax(tag@) ==> r == Err::<(), RenderError>(RenderError::UnknownLanguage)
            && final(buf)@ == old(buf)@,
{
    let known = default_syntax_known(tag);
    render_code_with(buf, known, content, highlighted)
}

} // verus!
