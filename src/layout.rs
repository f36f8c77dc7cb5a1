use vstd::prelude::*;

use crate::chars_of;
use vstd::utf8::{char_is_scalar, encode_scalar, encode_utf8};

verus! {

/// Number of bytes of `s` in UTF-8, which is what `str::len` counts.
pub open spec fn utf8_len(s: Seq<char>) -> nat {
    encode_utf8(s).len()
}

/// The pieces of `s` between newline characters; the last piece is the
/// (possibly empty) text after the final newline.
pub open spec fn newline_pieces(s: Seq<char>) -> Seq<Seq<char>>
    decreases s.len(),
{
    if s.len() == 0 {
        seq![Seq::empty()]
    } else {
        let p = newline_pieces(s.drop_last());
        if s.last() == '\n' {
            p.push(Seq::empty())
        } else {
            p.update(p.len() - 1, p.last().push(s.last()))
        }
    }
}

/// A newline-terminated line loses one carriage return before its newline.
pub open spec fn strip_cr(l: Seq<char>) -> Seq<char> {
    if l.len() > 0 && l.last() == '\r' {
        l.drop_last()
    } else {
        l
    }
}

/// The lines of `s`: split at `\n` (or `\r\n`); a final line ending is optional
/// and an empty text has no lines.
pub open spec fn lines_of(s: Seq<char>) -> Seq<Seq<char>> {
    let p = newline_pieces(s);
    let ended = p.drop_last().map_values(|l: Seq<char>| strip_cr(l));
    if p.last().len() > 0 {
        ended.push(p.last())
    } else {
        ended
    }
}

/// The length in bytes of the longest line, 0 when there is none.
pub open spec fn widest(lines: Seq<Seq<char>>) -> nat
    decreases lines.len(),
{
    if lines.len() == 0 {
        0
    } else {
        let w = widest(lines.drop_last());
        if utf8_len(lines.last()) > w {
            utf8_len(lines.last())
        } else {
            w
        }
    }
}

/// `a - b`, or 0 where `b` exceeds `a`.
pub open spec fn sat_sub(a: int, b: int) -> int {
    if a >= b {
        a - b
    } else {
        0
    }
}

/// `v`, capped at the largest `usize`.
pub open spec fn cap_usize(v: int) -> int {
    if v > usize::MAX {
        usize::MAX as int
    } else {
        v
    }
}

/// Width of a block of text: one column more than its longest line.
pub open spec fn extent_width(s: Seq<char>) -> int {
    cap_usize(widest(lines_of(s)) as int + 1)
}

/// Height of a block of text: its number of lines.
pub open spec fn extent_height(s: Seq<char>) -> int {
    lines_of(s).len() as int
}

/// Offset that centres a length `len` within `room`.
pub open spec fn centred(len: int, room: int) -> int {
    sat_sub(room, len) / 2
}

proof fn lemma_pieces_nonempty(s: Seq<char>)
    ensures
        newline_pieces(s).len() >= 1,
    decreases s.len(),
{
    if s.len() > 0 {
        lemma_pieces_nonempty(s.drop_last());
    }
}

/// Bytes of `cs` in UTF-8, capped at the largest `usize`.
pub fn utf8_len_of(cs: &Vec<char>) -> (r: usize)
    ensures
        r == cap_usize(utf8_len(cs@) as int),
{
    let mut i: usize = cs.len();
    let mut total: usize = 0;
    proof {
        assert(cs@.subrange(i as int, cs@.len() as int) =~= Seq::<char>::empty());
        assert(encode_utf8(Seq::<char>::empty()) =~= Seq::<u8>::empty());
    }
    while i > 0
        invariant
            i <= cs.len(),
            total == cap_usize(utf8_len(cs@.subrange(i as int, cs@.len() as int)) as int),
        decreases i,
    {
        i = i - 1;
        let c = cs[i];
        let v = c as u32;
        let k: usize = if v <= 0x7f {
            1
        } else if v <= 0x7ff {
            2
        } else if v <= 0xffff {
            3
        } else {
            4
        };
        proof {
            let rest = cs@.subrange(i as int, cs@.len() as int);
            assert(rest.drop_first() =~= cs@.subrange(i + 1, cs@.len() as int));
            assert(rest[0] == c);
            char_is_scalar(c);
            assert(encode_scalar(v).len() == k);
            assert(utf8_len(rest) == k + utf8_len(rest.drop_first()));
        }
        total = total.saturating_add(k);
    }
    proof {
        assert(cs@.subrange(0, cs@.len() as int) =~= cs@);
    }
    total
}

/// Capping a length at the largest `usize` does not move where it is centred.
pub proof fn lemma_centred_cap(len: int, room: int)
    requires
        0 <= room <= usize::MAX,
        len >= 0,
    ensures
        centred(cap_usize(len), room) == centred(len, room),
{
}

/// Splits `s` into its lines, as `str::lines` does.
pub fn split_lines(s: &str) -> (r: Vec<Vec<char>>)
    ensures
        r.deep_view() == lines_of(s@),
{
    let cs = chars_of(s);
    let mut ended: Vec<Vec<char>> = Vec::new();
    let mut cur: Vec<char> = Vec::new();
    let mut i: usize = 0;
    proof {
        assert(cs@.take(0) =~= Seq::<char>::empty());
    }
    while i < cs.len()
        invariant
            i <= cs.len(),
            cs@ == s@,
            newline_pieces(cs@.take(i as int)).len() >= 1,
            ended.deep_view() == newline_pieces(cs@.take(i as int)).drop_last().map_values(
                |l: Seq<char>| strip_cr(l),
            ),
            cur@ == newline_pieces(cs@.take(i as int)).last(),
        decreases cs.len() - i,
    {
        let c = cs[i];
        let ghost pre = cs@.take(i as int);
        let ghost p = newline_pieces(pre);
        proof {
            assert(cs@.take(i + 1).drop_last() =~= pre);
            lemma_pieces_nonempty(cs@.take(i + 1));
        }
        if c == '\n' {
            let mut line = cur;
            let n = line.len();
            if n > 0 && line[n - 1] == '\r' {
                line.pop();
            }
            assert(line@ == strip_cr(p.last()));
            let ghost before = ended.deep_view();
            assert(line.deep_view() =~= line@);
            ended.push(line);
            proof {
                assert(newline_pieces(cs@.take(i + 1)) == p.push(Seq::<char>::empty()));
                assert(p.push(Seq::<char>::empty()).drop_last() =~= p);
                assert(ended.deep_view() =~= before.push(line@));
                assert(p.map_values(|l: Seq<char>| strip_cr(l)) =~= p.drop_last().map_values(
                    |l: Seq<char>| strip_cr(l),
                ).push(strip_cr(p.last())));
            }
            cur = Vec::new();
        } else {
            cur.push(c);
            proof {
                let q = p.update(p.len() - 1, p.last().push(c));
                assert(newline_pieces(cs@.take(i + 1)) == q);
                assert(q.drop_last() =~= p.drop_last());
            }
        }
        i = i + 1;
    }
    proof {
        assert(cs@.take(i as int) =~= s@);
    }
    if cur.len() > 0 {
        let ghost before = ended.deep_view();
        assert(cur.deep_view() =~= cur@);
        ended.push(cur);
        assert(ended.deep_view() =~= before.push(newline_pieces(s@).last()));
    }
    ended
}

/// Width and height of a block of text: one more than the byte length of the
/// longest line (so right-aligned text keeps a free column), and the number of
/// lines.
pub fn text_size(s: &str) -> (r: (usize, usize))
    ensures
        r.0 == extent_width(s@),
        r.1 == extent_height(s@),
{
    let lines = split_lines(s);
    let mut w: usize = 0;
    let mut i: usize = 0;
    proof {
        assert(lines.deep_view().take(0) =~= Seq::<Seq<char>>::empty());
    }
    while i < lines.len()
        invariant
            i <= lines.len(),
            lines.deep_view() == lines_of(s@),
            w == cap_usize(widest(lines.deep_view().take(i as int)) as int),
        decreases lines.len() - i,
    {
        proof {
            assert(lines.deep_view().take(i + 1).drop_last() =~= lines.deep_view().take(i as int));
            assert(lines[i as int].deep_view() =~= lines[i as int]@);
        }
        let lw = utf8_len_of(&lines[i]);
        if lw > w {
            w = lw;
        }
        i = i + 1;
    }
    proof {
        assert(lines.deep_view().take(i as int) =~= lines.deep_view());
    }
    (w.saturating_add(1), lines.len())
}

/// Column at which a line of `len` characters starts when centred in a row
/// of `width` columns; a line wider than the row starts at 0.
pub fn line_offset(len: usize, width: usize) -> (r: usize)
    ensures
        r == centred(len as int, width as int),
{
    width.saturating_sub(len) / 2
}

/// Top-left corner that centres a block of `extent` (width, height) in a
/// viewport of `viewport` (width, height).
pub fn center_block(extent: (usize, usize), viewport: (usize, usize)) -> (r: (usize, usize))
    ensures
        r.0 == centred(extent.0 as int, viewport.0 as int),
        r.1 == centred(extent.1 as int, viewport.1 as int),
{
    (line_offset(extent.0, viewport.0), line_offset(extent.1, viewport.1))
}

/// A rectangle of the viewport, in cells.
#[derive(Clone, Copy, Debug, PartialEq, Eq, Structural)]
pub struct Area {
    pub x: usize,
    pub y: usize,
    pub width: usize,
    pub height: usize,
}

/// Width left for content once a margin is taken off each side.
pub open spec fn room_within(margin: int, width: int) -> int {
    sat_sub(width, 2 * margin)
}

/// The area that `bounded_area` gives.
pub open spec fn bounded_spec(desired: int, margin: int, width: int, height: int) -> Area {
    let room = room_within(margin, width);
    let w = if desired < room { desired } else { room };
    let h = height / 2;
    Area {
        x: ((width - w) / 2) as usize,
        y: ((height - h) / 2) as usize,
        width: w as usize,
        height: h as usize,
    }
}

/// An area of the desired width, capped to the viewport less a margin on each
/// side, half the viewport high, centred in the viewport.
pub fn bounded_area(desired_width: usize, margin: usize, viewport: (usize, usize)) -> (r: Area)
    ensures
        r == bounded_spec(desired_width as int, margin as int, viewport.0 as int, viewport.1 as int),
        r.width <= room_within(margin as int, viewport.0 as int),
        r.height <= viewport.1,
        r.x + r.width <= viewport.0,
        r.y + r.height <= viewport.1,
{
    let (width, height) = viewport;
    let room = if margin <= width / 2 {
        width - 2 * margin
    } else {
        0
    };
    let w = if desired_width < room { desired_width } else { room };
    let h = height / 2;
    Area { x: (width - w) / 2, y: (height - h) / 2, width: w, height: h }
}

} // verus!
