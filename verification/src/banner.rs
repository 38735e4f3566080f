//! The "ANSI Shadow" banner font: six rows of box-drawing glyphs per
//! letter, for the letters of "HAPPY BIRTHDAY" and the default names.

use vstd::prelude::*;

verus! {

/// ASCII upper case of `c`; other characters unchanged.
pub open spec fn ascii_upper(c: char) -> char {
    if 'a' <= c <= 'z' {
        ((c as u32) - 32) as char
    } else {
        c
    }
}

/// `c` in ASCII upper case, as `char::to_ascii_uppercase` gives it.
pub fn to_ascii_upper(c: char) -> (u: char)
    ensures
        u == ascii_upper(c),
{
    if 'a' <= c && c <= 'z' {
        let b: u8 = c as u8 - 32;
        b as char
    } else {
        c
    }
}

/// The six rows of the glyph of `c` (case-insensitive); blanks for letters
/// the font does not have.
pub open spec fn glyph(c: char) -> Seq<Seq<char>> {
    let u = ascii_upper(c);
    if u == 'A' {
        seq![" █████╗ "@, "██╔══██╗"@, "███████║"@, "██╔══██║"@, "██║  ██║"@, "╚═╝  ╚═╝"@]
    } else if u == 'B' {
        seq!["██████╗ "@, "██╔══██╗"@, "██████╔╝"@, "██╔══██╗"@, "██████╔╝"@, "╚═════╝ "@]
    } else if u == 'D' {
        seq!["██████╗ "@, "██╔══██╗"@, "██║  ██║"@, "██║  ██║"@, "██████╔╝"@, "╚═════╝ "@]
    } else if u == 'H' {
        seq!["██╗  ██╗"@, "██║  ██║"@, "███████║"@, "██╔══██║"@, "██║  ██║"@, "╚═╝  ╚═╝"@]
    } else if u == 'I' {
        seq!["██╗"@, "██║"@, "██║"@, "██║"@, "██║"@, "╚═╝"@]
    } else if u == 'M' {
        seq!["███╗   ███╗"@, "████╗ ████║"@, "██╔████╔██║"@, "██║╚██╔╝██║"@, "██║ ╚═╝ ██║"@, "╚═╝     ╚═╝"@]
    } else if u == 'P' {
        seq!["██████╗ "@, "██╔══██╗"@, "██████╔╝"@, "██╔═══╝ "@, "██║     "@, "╚═╝     "@]
    } else if u == 'R' {
        seq!["██████╗ "@, "██╔══██╗"@, "██████╔╝"@, "██╔══██╗"@, "██║  ██║"@, "╚═╝  ╚═╝"@]
    } else if u == 'T' {
        seq!["████████╗"@, "╚══██╔══╝"@, "   ██║   "@, "   ██║   "@, "   ██║   "@, "   ╚═╝   "@]
    } else if u == 'Y' {
        seq!["██╗   ██╗"@, "╚██╗ ██╔╝"@, " ╚████╔╝ "@, "  ╚██╔╝  "@, "   ██║   "@, "   ╚═╝   "@]
    } else {
        seq!["   "@, "   "@, "   "@, "   "@, "   "@, "   "@]
    }
}

/// Width in columns of the glyph of `c`.
pub open spec fn glyph_width(c: char) -> nat {
    let u = ascii_upper(c);
    if u == 'A' {
        8
    } else if u == 'B' {
        8
    } else if u == 'D' {
        8
    } else if u == 'H' {
        8
    } else if u == 'I' {
        3
    } else if u == 'M' {
        11
    } else if u == 'P' {
        8
    } else if u == 'R' {
        8
    } else if u == 'T' {
        9
    } else if u == 'Y' {
        9
    } else {
        3
    }
}

/// The six glyph rows for `c`.
pub fn letter_rows(c: char) -> (rows: [&'static str; 6])
    ensures
        forall|i: int| 0 <= i < 6 ==> (#[trigger] rows@[i])@ == glyph(c)[i],
{
    let u = to_ascii_upper(c);
    if u == 'A' {
        [" █████╗ ", "██╔══██╗", "███████║", "██╔══██║", "██║  ██║", "╚═╝  ╚═╝"]
    } else if u == 'B' {
        ["██████╗ ", "██╔══██╗", "██████╔╝", "██╔══██╗", "██████╔╝", "╚═════╝ "]
    } else if u == 'D' {
        ["██████╗ ", "██╔══██╗", "██║  ██║", "██║  ██║", "██████╔╝", "╚═════╝ "]
    } else if u == 'H' {
        ["██╗  ██╗", "██║  ██║", "███████║", "██╔══██║", "██║  ██║", "╚═╝  ╚═╝"]
    } else if u == 'I' {
        ["██╗", "██║", "██║", "██║", "██║", "╚═╝"]
    } else if u == 'M' {
        ["███╗   ███╗", "████╗ ████║", "██╔████╔██║", "██║╚██╔╝██║", "██║ ╚═╝ ██║", "╚═╝     ╚═╝"]
    } else if u == 'P' {
        ["██████╗ ", "██╔══██╗", "██████╔╝", "██╔═══╝ ", "██║     ", "╚═╝     "]
    } else if u == 'R' {
        ["██████╗ ", "██╔══██╗", "██████╔╝", "██╔══██╗", "██║  ██║", "╚═╝  ╚═╝"]
    } else if u == 'T' {
        ["████████╗", "╚══██╔══╝", "   ██║   ", "   ██║   ", "   ██║   ", "   ╚═╝   "]
    } else if u == 'Y' {
        ["██╗   ██╗", "╚██╗ ██╔╝", " ╚████╔╝ ", "  ╚██╔╝  ", "   ██║   ", "   ╚═╝   "]
    } else {
        ["   ", "   ", "   ", "   ", "   ", "   "]
    }
}

/// All six rows of a glyph have the glyph's width, so glyphs set side by
/// side stay aligned.
pub proof fn lemma_glyph_rows_aligned(c: char)
    ensures
        glyph(c).len() == 6,
        forall|i: int| 0 <= i < 6 ==> (#[trigger] glyph(c)[i]).len() == glyph_width(c),
{
    reveal_strlit(" █████╗ ");
    reveal_strlit("██╔══██╗");
    reveal_strlit("███████║");
    reveal_strlit("██╔══██║");
    reveal_strlit("██║  ██║");
    reveal_strlit("╚═╝  ╚═╝");
    reveal_strlit("██████╗ ");
    reveal_strlit("██████╔╝");
    reveal_strlit("╚═════╝ ");
    reveal_strlit("██╗  ██╗");
    reveal_strlit("██╗");
    reveal_strlit("██║");
    reveal_strlit("╚═╝");
    reveal_strlit("███╗   ███╗");
    reveal_strlit("████╗ ████║");
    reveal_strlit("██╔████╔██║");
    reveal_strlit("██║╚██╔╝██║");
    reveal_strlit("██║ ╚═╝ ██║");
    reveal_strlit("╚═╝     ╚═╝");
    reveal_strlit("██╔═══╝ ");
    reveal_strlit("██║     ");
    reveal_strlit("╚═╝     ");
    reveal_strlit("████████╗");
    reveal_strlit("╚══██╔══╝");
    reveal_strlit("   ██║   ");
    reveal_strlit("   ╚═╝   ");
    reveal_strlit("██╗   ██╗");
    reveal_strlit("╚██╗ ██╔╝");
    reveal_strlit(" ╚████╔╝ ");
    reveal_strlit("  ╚██╔╝  ");
    reveal_strlit("   ");
}

/// The letters the font has a glyph for (in either case).
pub open spec fn in_font(c: char) -> bool {
    let u = ascii_upper(c);
    u == 'A' || u == 'B' || u == 'D' || u == 'H' || u == 'I' || u == 'M' || u == 'P' || u == 'R'
        || u == 'T' || u == 'Y'
}

/// Different letters of the font are drawn differently, and none of them
/// is drawn like a character the font lacks: a banner can be read back.
pub proof fn lemma_glyphs_distinct(c1: char, c2: char)
    requires
        in_font(c1),
        ascii_upper(c1) != ascii_upper(c2),
    ensures
        glyph(c1) != glyph(c2),
{
    reveal_strlit(" █████╗ ");
    reveal_strlit("██╔══██╗");
    reveal_strlit("███████║");
    reveal_strlit("██╔══██║");
    reveal_strlit("██║  ██║");
    reveal_strlit("╚═╝  ╚═╝");
    reveal_strlit("██████╗ ");
    reveal_strlit("██████╔╝");
    reveal_strlit("╚═════╝ ");
    reveal_strlit("██╗  ██╗");
    reveal_strlit("██╗");
    reveal_strlit("██║");
    reveal_strlit("╚═╝");
    reveal_strlit("███╗   ███╗");
    reveal_strlit("████╗ ████║");
    reveal_strlit("██╔████╔██║");
    reveal_strlit("██║╚██╔╝██║");
    reveal_strlit("██║ ╚═╝ ██║");
    reveal_strlit("╚═╝     ╚═╝");
    reveal_strlit("██╔═══╝ ");
    reveal_strlit("██║     ");
    reveal_strlit("╚═╝     ");
    reveal_strlit("████████╗");
    reveal_strlit("╚══██╔══╝");
    reveal_strlit("   ██║   ");
    reveal_strlit("   ╚═╝   ");
    reveal_strlit("██╗   ██╗");
    reveal_strlit("╚██╗ ██╔╝");
    reveal_strlit(" ╚████╔╝ ");
    reveal_strlit("  ╚██╔╝  ");
    reveal_strlit("   ");
    let g1 = glyph(c1);
    let g2 = glyph(c2);
    if g1 == g2 {
        assert(g1[0].len() == g2[0].len());
        assert(g1[0][0] == g2[0][0]);
        assert(g1[1][1] == g2[1][1]);
        assert(g1[2][6] == g2[2][6]);
        assert(g1[4][6] == g2[4][6]);
        assert(false);
    }
}

/// Row `k` of the banner spelling `s`: the glyph rows of its characters side by side.
pub open spec fn banner_row(s: Seq<char>, k: int) -> Seq<char>
    decreases s.len(),
{
    if s.len() == 0 {
        Seq::empty()
    } else {
        banner_row(s.drop_last(), k) + glyph(s.last())[k]
    }
}

/// Total width of the banner spelling `s`.
pub open spec fn banner_width(s: Seq<char>) -> nat
    decreases s.len(),
{
    if s.len() == 0 {
        0
    } else {
        banner_width(s.drop_last()) + glyph_width(s.last())
    }
}

/// The six banner rows spelling `text`.
pub fn ascii_banner(text: &str) -> (rows: [String; 6])
    ensures
        forall|k: int| 0 <= k < 6 ==> (#[trigger] rows@[k])@ == banner_row(text@, k),
{
    let n = text.unicode_len();
    let mut r0 = String::new();
    let mut r1 = String::new();
    let mut r2 = String::new();
    let mut r3 = String::new();
    let mut r4 = String::new();
    let mut r5 = String::new();
    let mut i: usize = 0;
    while i < n
        invariant
            n == text@.len(),
            i <= n,
            r0@ == banner_row(text@.take(i as int), 0),
            r1@ == banner_row(text@.take(i as int), 1),
            r2@ == banner_row(text@.take(i as int), 2),
            r3@ == banner_row(text@.take(i as int), 3),
            r4@ == banner_row(text@.take(i as int), 4),
            r5@ == banner_row(text@.take(i as int), 5),
        decreases n - i,
    {
        let c = text.get_char(i);
        let g = letter_rows(c);
        assert(text@.take(i + 1).drop_last() =~= text@.take(i as int));
        assert(text@.take(i + 1).last() == c);
        r0.append(g[0]);
        r1.append(g[1]);
        r2.append(g[2]);
        r3.append(g[3]);
        r4.append(g[4]);
        r5.append(g[5]);
        i = i + 1;
    }
    assert(text@.take(n as int) =~= text@);
    let rows = [r0, r1, r2, r3, r4, r5];
    assert(rows@[0]@ == banner_row(text@, 0));
    assert(rows@[1]@ == banner_row(text@, 1));
    assert(rows@[2]@ == banner_row(text@, 2));
    assert(rows@[3]@ == banner_row(text@, 3));
    assert(rows@[4]@ == banner_row(text@, 4));
    assert(rows@[5]@ == banner_row(text@, 5));
    rows
}

/// The six rows of every banner have the same width: the sum of the glyph
/// widths of its characters.
pub proof fn lemma_banner_aligned(s: Seq<char>)
    ensures
        forall|k: int| 0 <= k < 6 ==> (#[trigger] banner_row(s, k)).len() == banner_width(s),
    decreases s.len(),
{
    if s.len() > 0 {
        lemma_banner_aligned(s.drop_last());
        lemma_glyph_rows_aligned(s.last());
        assert forall|k: int| 0 <= k < 6 implies (#[trigger] banner_row(s, k)).len() == banner_width(
            s,
        ) by {
            assert(banner_row(s, k) == banner_row(s.drop_last(), k) + glyph(s.last())[k]);
            assert(banner_row(s.drop_last(), k).len() == banner_width(s.drop_last()));
        }
    }
}

} // verus!
