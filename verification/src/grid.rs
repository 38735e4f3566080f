//! The fireworks canvas: placing cells in the grid, and cutting a row into
//! single glyphs and runs of blanks.

use std::collections::VecDeque;
use vstd::prelude::*;

verus! {

/// A piece of a rendered row: one occupied cell, or a run of `len` empty
/// cells starting at `start`.
#[derive(Clone, Copy, Debug, PartialEq, Eq)]
pub enum Segment {
    Cell(usize),
    Blank { start: usize, len: usize },
}

/// The segments of a row, greedily: each occupied cell alone, each maximal
/// run of empty cells as one blank.
pub open spec fn segments(occupied: Seq<bool>) -> Seq<Segment>
    decreases occupied.len(),
{
    if occupied.len() == 0 {
        Seq::empty()
    } else {
        let p = segments(occupied.drop_last());
        let i = (occupied.len() - 1) as usize;
        if occupied.last() {
            p.push(Segment::Cell(i))
        } else if p.len() > 0 && p.last() is Blank {
            p.update(
                p.len() - 1,
                Segment::Blank { start: p.last()->start, len: (p.last()->len + 1) as usize },
            )
        } else {
            p.push(Segment::Blank { start: i, len: 1 })
        }
    }
}

/// Cuts a row into segments; `occupied[i]` tells whether cell `i` holds a glyph.
pub fn row_segments(occupied: &Vec<bool>) -> (segs: Vec<Segment>)
    ensures
        segs@ == segments(occupied@),
{
    let mut segs: Vec<Segment> = Vec::new();
    let mut i: usize = 0;
    while i < occupied.len()
        invariant
            i <= occupied@.len(),
            segs@ == segments(occupied@.take(i as int)),
            forall|k: int| 0 <= k < segs@.len() ==> match #[trigger] segs@[k] {
                Segment::Cell(c) => c < i,
                Segment::Blank { start, len } => start + len <= i,
            },
        decreases occupied@.len() - i,
    {
        assert(occupied@.take(i + 1).drop_last() =~= occupied@.take(i as int));
        if occupied[i] {
            segs.push(Segment::Cell(i));
        } else {
            let n = segs.len();
            let mut extended = false;
            if n > 0 {
                match segs[n - 1] {
                    Segment::Blank { start, len } => {
                        assert(segs@[n - 1] == (Segment::Blank { start, len }));
                        segs.set(n - 1, Segment::Blank { start, len: len + 1 });
                        extended = true;
                    },
                    Segment::Cell(_) => {},
                }
            }
            if !extended {
                segs.push(Segment::Blank { start: i, len: 1 });
            }
        }
        i = i + 1;
    }
    assert(occupied@.take(i as int) =~= occupied@);
    segs
}

/// The cells a segment stands for, as occupied flags.
pub open spec fn expand(segs: Seq<Segment>) -> Seq<bool>
    decreases segs.len(),
{
    if segs.len() == 0 {
        Seq::empty()
    } else {
        expand(segs.drop_last()) + match segs.last() {
            Segment::Cell(_) => seq![true],
            Segment::Blank { start, len } => Seq::new(len as nat, |j: int| false),
        }
    }
}

/// Each segment starts where the segments before it end; blanks are not empty.
pub open spec fn positions_ok(segs: Seq<Segment>) -> bool
    decreases segs.len(),
{
    if segs.len() == 0 {
        true
    } else {
        &&& positions_ok(segs.drop_last())
        &&& match segs.last() {
            Segment::Cell(c) => c == expand(segs.drop_last()).len(),
            Segment::Blank { start, len } => start == expand(segs.drop_last()).len() && len > 0,
        }
    }
}

/// No blank follows another blank.
pub open spec fn no_double_blank(segs: Seq<Segment>) -> bool
    decreases segs.len(),
{
    if segs.len() < 2 {
        true
    } else {
        no_double_blank(segs.drop_last()) && !(segs.last() is Blank && segs[segs.len() - 2] is Blank)
    }
}

/// The segments of a row describe it exactly: expanded they give back the
/// row, each segment starts where the previous one ends (a cell segment names
/// its own position), and runs of blanks are never cut in two.
pub proof fn lemma_segments_cover(occupied: Seq<bool>)
    requires
        occupied.len() <= usize::MAX,
    ensures
        expand(segments(occupied)) == occupied,
        positions_ok(segments(occupied)),
        no_double_blank(segments(occupied)),
    decreases occupied.len(),
{
    if occupied.len() > 0 {
        let prev = occupied.drop_last();
        lemma_segments_cover(prev);
        let p = segments(prev);
        let s = segments(occupied);
        if occupied.last() {
            assert(s.drop_last() =~= p);
            assert(occupied =~= prev.push(true));
        } else if p.len() > 0 && p.last() is Blank {
            let len = p.last()->len;
            let start = p.last()->start;
            assert(expand(p) =~= expand(p.drop_last()) + Seq::new(len as nat, |j: int| false));
            assert(len + 1 <= occupied.len());
            assert(s.last() == Segment::Blank { start, len: (len + 1) as usize });
            assert(s.drop_last() =~= p.drop_last());
            assert(start == expand(p.drop_last()).len());
            assert(expand(s) =~= expand(p.drop_last()) + Seq::new((len + 1) as nat, |j: int| false));
            assert(expand(p) =~= expand(p.drop_last()) + Seq::new(len as nat, |j: int| false));
            assert(occupied =~= prev.push(false));
            if p.len() >= 2 {
                assert(s[s.len() - 2] == p[p.len() - 2]);
            }
        } else {
            assert(s.drop_last() =~= p);
            assert(Seq::new(1, |j: int| false) =~= seq![false]);
            assert(occupied =~= prev.push(false));
        }
    }
}

/// Index of the grid cell `(x, y)` of a `w` by `h` grid stored row by row,
/// if the position lies on the grid.
pub fn cell_index(x: isize, y: isize, w: usize, h: usize) -> (idx: Option<usize>)
    requires
        w * h <= usize::MAX,
    ensures
        match idx {
            Some(i) => 0 <= x < w && 0 <= y < h && i == y * w + x,
            None => !(0 <= x < w && 0 <= y < h),
        },
{
    if x >= 0 && y >= 0 && (x as usize) < w && (y as usize) < h {
        let ux = x as usize;
        let uy = y as usize;
        assert(uy * w + ux < w * h) by (nonlinear_arith)
            requires
                ux < w,
                uy < h,
        ;
        Some(uy * w + ux)
    } else {
        None
    }
}

/// Number of recent samples the waveform keeps: about a second of
/// interleaved stereo.
pub const AMP_BUF_CAP: usize = 88200;

/// Appends `item`, first dropping the oldest entry when `cap` entries are held.
pub fn push_capped<T>(buf: &mut VecDeque<T>, cap: usize, item: T)
    ensures
        final(buf)@ == (if old(buf)@.len() >= cap && old(buf)@.len() > 0 {
            old(buf)@.drop_first()
        } else {
            old(buf)@
        }).push(item),
{
    if buf.len() >= cap {
        buf.pop_front();
    }
    buf.push_back(item);
}

/// A capped buffer never grows past its capacity, and always ends with the
/// newest item.
pub proof fn lemma_push_capped_bounded<T>(old_buf: Seq<T>, cap: nat, item: T)
    requires
        0 < cap,
        old_buf.len() <= cap,
    ensures
        ({
            let new_buf = (if old_buf.len() >= cap {
                old_buf.drop_first()
            } else {
                old_buf
            }).push(item);
            new_buf.len() <= cap && new_buf.last() == item
        }),
{
}

} // verus!
