//! Greedy word wrap of the birthday message.

use crate::text::{byte_len, char_width, is_white_space, is_whitespace, lemma_byte_len_add, push_char, sat};
use vstd::prelude::*;

verus! {

/// Splits `s` at whitespace: the words completed so far and the word still
/// being read at the end of `s` (empty after whitespace).
pub open spec fn split_words(s: Seq<char>) -> (Seq<Seq<char>>, Seq<char>)
    decreases s.len(),
{
    if s.len() == 0 {
        (Seq::empty(), Seq::empty())
    } else {
        let (ws, part) = split_words(s.drop_last());
        let c = s.last();
        if is_white_space(c) {
            if part.len() > 0 {
                (ws.push(part), Seq::empty())
            } else {
                (ws, Seq::empty())
            }
        } else {
            (ws, part.push(c))
        }
    }
}

/// The words of `s`: its maximal runs of non-whitespace characters, in order
/// (what `str::split_whitespace` yields).
pub open spec fn words(s: Seq<char>) -> Seq<Seq<char>> {
    let (ws, part) = split_words(s);
    if part.len() > 0 {
        ws.push(part)
    } else {
        ws
    }
}

/// Whether `word` no longer fits after `cur` and a space, counting bytes.
pub open spec fn breaks_before(cur: Seq<char>, word: Seq<char>, width: nat) -> bool {
    cur.len() > 0 && byte_len(cur) + 1 + byte_len(word) > width
}

/// Adds one word to the finished lines and the line being filled.
pub open spec fn wrap_step(st: (Seq<Seq<char>>, Seq<char>), word: Seq<char>, width: nat) -> (
    Seq<Seq<char>>,
    Seq<char>,
) {
    let (lines, cur) = st;
    let (lines1, cur1) = if breaks_before(cur, word, width) {
        (lines.push(cur), Seq::<char>::empty())
    } else {
        (lines, cur)
    };
    let cur2 = if cur1.len() > 0 {
        cur1.push(' ')
    } else {
        cur1
    };
    (lines1, cur2 + word)
}

/// Lines finished and line being filled after placing the words `ws`.
pub open spec fn wrap_fold(ws: Seq<Seq<char>>, width: nat) -> (Seq<Seq<char>>, Seq<char>)
    decreases ws.len(),
{
    if ws.len() == 0 {
        (Seq::empty(), Seq::empty())
    } else {
        wrap_step(wrap_fold(ws.drop_last(), width), ws.last(), width)
    }
}

/// The lines of `text` wrapped greedily at `width` bytes: words joined by
/// single spaces, a new line started when the next word would push the line
/// past `width`, a word longer than `width` alone on its line.
pub open spec fn wrapped(text: Seq<char>, width: nat) -> Seq<Seq<char>> {
    let (lines, cur) = wrap_fold(words(text), width);
    if cur.len() > 0 {
        lines.push(cur)
    } else {
        lines
    }
}

pub open spec fn string_views(v: Seq<String>) -> Seq<Seq<char>> {
    v.map_values(|s: String| s@)
}

proof fn lemma_sat_add(a: nat, b: nat)
    ensures
        (if sat(a) + sat(b) <= usize::MAX { (sat(a) + sat(b)) as usize } else { usize::MAX }) == sat(a + b),
{
}

fn add_word(
    lines: &mut Vec<String>,
    cur: &mut String,
    cur_bytes: &mut usize,
    word: String,
    word_bytes: usize,
    width: usize,
)
    requires
        *old(cur_bytes) == sat(byte_len(old(cur)@)),
        word_bytes == sat(byte_len(word@)),
    ensures
        (string_views(final(lines)@), final(cur)@) == wrap_step(
            (string_views(old(lines)@), old(cur)@),
            word@,
            width as nat,
        ),
        *final(cur_bytes) == sat(byte_len(final(cur)@)),
{
    let ghost lines0 = string_views(lines@);
    let ghost cur0 = cur@;
    if !cur.as_str().is_empty() && (word_bytes >= width || *cur_bytes >= width - word_bytes) {
        let mut line = String::new();
        std::mem::swap(&mut line, cur);
        lines.push(line);
        *cur_bytes = 0;
        assert(string_views(lines@) =~= lines0.push(cur0));
    }
    assert(cur0.len() > 0 ==> (breaks_before(cur0, word@, width as nat) <==> (word_bytes >= width
        || sat(byte_len(cur0)) >= width - word_bytes)));
    if !cur.as_str().is_empty() {
        proof {
            lemma_sat_add(byte_len(cur@), 1);
            assert(byte_len(cur@.push(' ')) == byte_len(cur@) + 1) by {
                assert(cur@.push(' ').drop_last() =~= cur@);
            }
        }
        push_char(cur, ' ');
        *cur_bytes = cur_bytes.saturating_add(1);
    }
    proof {
        lemma_sat_add(byte_len(cur@), byte_len(word@));
        lemma_byte_len_add(cur@, word@);
    }
    cur.append(word.as_str());
    *cur_bytes = cur_bytes.saturating_add(word_bytes);
}

/// Wraps `text` into lines of at most `width` bytes where the words allow it.
pub fn wrap_text(text: &str, width: usize) -> (lines: Vec<String>)
    ensures
        string_views(lines@) == wrapped(text@, width as nat),
{
    let n = text.unicode_len();
    let mut lines: Vec<String> = Vec::new();
    let mut cur = String::new();
    let mut cur_bytes: usize = 0;
    let mut word = String::new();
    let mut word_bytes: usize = 0;
    let mut i: usize = 0;
    while i < n
        invariant
            n == text@.len(),
            i <= n,
            split_words(text@.take(i as int)).1 == word@,
            (string_views(lines@), cur@) == wrap_fold(split_words(text@.take(i as int)).0, width as nat),
            cur_bytes == sat(byte_len(cur@)),
            word_bytes == sat(byte_len(word@)),
        decreases n - i,
    {
        let ghost ws = split_words(text@.take(i as int)).0;
        let c = text.get_char(i);
        assert(text@.take(i + 1).drop_last() =~= text@.take(i as int));
        assert(text@.take(i + 1).last() == c);
        if is_whitespace(c) {
            if !word.as_str().is_empty() {
                assert(ws.push(word@).drop_last() =~= ws);
                let mut done = String::new();
                std::mem::swap(&mut done, &mut word);
                add_word(&mut lines, &mut cur, &mut cur_bytes, done, word_bytes, width);
                word_bytes = 0;
            }
        } else {
            proof {
                lemma_sat_add(byte_len(word@), crate::text::utf8_width(c));
                assert(word@.push(c).drop_last() =~= word@);
            }
            push_char(&mut word, c);
            word_bytes = word_bytes.saturating_add(char_width(c));
        }
        i = i + 1;
    }
    assert(text@.take(n as int) =~= text@);
    let ghost ws = split_words(text@).0;
    if !word.as_str().is_empty() {
        assert(ws.push(word@).drop_last() =~= ws);
        add_word(&mut lines, &mut cur, &mut cur_bytes, word, word_bytes, width);
    }
    if !cur.as_str().is_empty() {
        let ghost before = string_views(lines@);
        lines.push(cur);
        assert(string_views(lines@) =~= before.push(cur@));
    }
    lines
}


/// The lines joined back with single spaces.
pub open spec fn join_with_spaces(ls: Seq<Seq<char>>) -> Seq<char>
    decreases ls.len(),
{
    if ls.len() == 0 {
        Seq::empty()
    } else if ls.len() == 1 {
        ls[0]
    } else {
        join_with_spaces(ls.drop_last()).push(' ') + ls.last()
    }
}

pub open spec fn all_nonempty(ls: Seq<Seq<char>>) -> bool {
    forall|i: int| 0 <= i < ls.len() ==> (#[trigger] ls[i]).len() > 0
}

proof fn lemma_split_words_nonempty(s: Seq<char>)
    ensures
        all_nonempty(split_words(s).0),
        all_nonempty(words(s)),
    decreases s.len(),
{
    if s.len() > 0 {
        lemma_split_words_nonempty(s.drop_last());
    }
}

/// What holds of the lines while words are being placed.
spec fn fold_inv(ws: Seq<Seq<char>>, st: (Seq<Seq<char>>, Seq<char>), width: nat) -> bool {
    let (lines, cur) = st;
    &&& all_nonempty(lines)
    &&& ws.len() == 0 ==> lines.len() == 0 && cur.len() == 0
    &&& ws.len() > 0 ==> cur.len() > 0 && join_with_spaces(lines.push(cur)) == join_with_spaces(ws)
    &&& forall|i: int|
        0 <= i < lines.len() ==> byte_len(#[trigger] lines[i]) <= width || ws.contains(lines[i])
    &&& byte_len(cur) <= width || ws.contains(cur)
}

proof fn lemma_fold_inv(ws: Seq<Seq<char>>, width: nat)
    requires
        all_nonempty(ws),
    ensures
        fold_inv(ws, wrap_fold(ws, width), width),
    decreases ws.len(),
{
    if ws.len() > 0 {
        let prev = ws.drop_last();
        let word = ws.last();
        assert(all_nonempty(prev)) by {
            assert forall|i: int| 0 <= i < prev.len() implies (#[trigger] prev[i]).len() > 0 by {
                assert(prev[i] == ws[i]);
            }
        }
        lemma_fold_inv(prev, width);
        let (lines, cur) = wrap_fold(prev, width);
        assert(word.len() > 0) by {
            assert(ws[ws.len() - 1].len() > 0);
        }
        assert(prev.push(word) =~= ws);
        assert forall|x: Seq<char>| prev.contains(x) implies ws.contains(x) by {
            let j = choose|j: int| 0 <= j < prev.len() && prev[j] == x;
            assert(ws[j] == x);
        }
        assert(ws.contains(word)) by {
            assert(ws[ws.len() - 1] == word);
        }
        let (lines2, cur2) = wrap_step((lines, cur), word, width);
        if breaks_before(cur, word, width) {
            assert(lines2 == lines.push(cur));
            assert(cur2 =~= word);
            assert(lines.push(cur).push(word).drop_last() =~= lines.push(cur));
            assert forall|i: int| 0 <= i < lines2.len() implies byte_len(#[trigger] lines2[i])
                <= width || ws.contains(lines2[i]) by {
                if i < lines.len() {
                    assert(lines2[i] == lines[i]);
                }
            }
        } else if cur.len() > 0 {
            assert(cur2 == cur.push(' ') + word);
            lemma_byte_len_add(cur.push(' '), word);
            assert(cur.push(' ').drop_last() =~= cur);
            if lines.len() > 0 {
                assert(lines.push(cur).drop_last() =~= lines);
                assert(lines.push(cur2).drop_last() =~= lines);
                assert(join_with_spaces(lines.push(cur2)) =~= join_with_spaces(lines).push(' ') + cur2);
                assert(join_with_spaces(lines.push(cur)) =~= join_with_spaces(lines).push(' ') + cur);
            } else {
                assert(lines.push(cur) =~= seq![cur]);
                assert(lines.push(cur2) =~= seq![cur2]);
            }
            assert(join_with_spaces(lines.push(cur2)) =~= join_with_spaces(lines.push(cur)).push(' ')
                + word);
        } else {
            assert(cur2 =~= word);
            assert(prev.len() == 0);
            assert(ws =~= seq![word]);
            assert(lines2.push(cur2) =~= seq![word]);
        }
    }
}

/// Wrapping only turns some of the spaces between words into line breaks:
/// the lines joined by single spaces are the words of the text joined by
/// single spaces, so no word is lost, split or reordered; no line is empty;
/// and every line fits in `width` bytes unless it is a single word of the
/// text that is longer by itself.
pub proof fn lemma_wrapped_lines(text: Seq<char>, width: nat)
    ensures
        join_with_spaces(wrapped(text, width)) == join_with_spaces(words(text)),
        all_nonempty(wrapped(text, width)),
        forall|i: int|
            0 <= i < wrapped(text, width).len() ==> byte_len(#[trigger] wrapped(text, width)[i])
                <= width || words(text).contains(wrapped(text, width)[i]),
{
    let ws = words(text);
    lemma_split_words_nonempty(text);
    lemma_fold_inv(ws, width);
    let (lines, cur) = wrap_fold(ws, width);
    let out = wrapped(text, width);
    if cur.len() > 0 {
        assert(out == lines.push(cur));
        assert forall|i: int| 0 <= i < out.len() implies byte_len(#[trigger] out[i]) <= width
            || ws.contains(out[i]) by {
            if i < lines.len() {
                assert(out[i] == lines[i]);
            }
        }
    } else {
        assert(out == lines);
    }
}

/// The first word of a line: everything before its first space.
pub open spec fn first_word(line: Seq<char>) -> Seq<char>
    decreases line.len(),
{
    if line.len() == 0 || line[0] == ' ' {
        Seq::empty()
    } else {
        seq![line[0]] + first_word(line.drop_first())
    }
}

pub open spec fn has_no_space(w: Seq<char>) -> bool {
    forall|i: int| 0 <= i < w.len() ==> w[i] != ' '
}

proof fn lemma_first_word_of_word(w: Seq<char>)
    requires
        has_no_space(w),
    ensures
        first_word(w) == w,
    decreases w.len(),
{
    if w.len() > 0 {
        lemma_first_word_of_word(w.drop_first());
        assert(seq![w[0]] + w.drop_first() =~= w);
    }
}

proof fn lemma_first_word_extend(c: Seq<char>, w: Seq<char>)
    ensures
        first_word(c + seq![' '] + w) == first_word(c),
    decreases c.len(),
{
    let s = c + seq![' '] + w;
    if c.len() > 0 && c[0] != ' ' {
        lemma_first_word_extend(c.drop_first(), w);
        assert(s.drop_first() =~= c.drop_first() + seq![' '] + w);
    }
}

proof fn lemma_split_words_no_space(s: Seq<char>)
    ensures
        forall|k: int| 0 <= k < split_words(s).0.len() ==> has_no_space(#[trigger] split_words(s).0[k]),
        has_no_space(split_words(s).1),
        forall|k: int| 0 <= k < words(s).len() ==> has_no_space(#[trigger] words(s)[k]),
    decreases s.len(),
{
    if s.len() > 0 {
        lemma_split_words_no_space(s.drop_last());
        let (ws, part) = split_words(s.drop_last());
        let c = s.last();
        if !is_white_space(c) {
            assert(c != ' ');
            assert forall|i: int| 0 <= i < part.push(c).len() implies part.push(c)[i] != ' ' by {
                if i < part.len() {
                    assert(part.push(c)[i] == part[i]);
                }
            }
        }
    }
    let (ws, part) = split_words(s);
    if part.len() > 0 {
        assert forall|k: int| 0 <= k < ws.push(part).len() implies has_no_space(
            #[trigger] ws.push(part)[k],
        ) by {
            if k < ws.len() {
                assert(ws.push(part)[k] == ws[k]);
            }
        }
    }
}

/// No line could have taken the next line's first word: lines are filled
/// greedily.
spec fn greedy(st: (Seq<Seq<char>>, Seq<char>), width: nat) -> bool {
    let (lines, cur) = st;
    &&& forall|i: int|
        0 <= i < lines.len() - 1 ==> byte_len(#[trigger] lines[i]) + 1 + byte_len(
            first_word(lines[i + 1]),
        ) > width
    &&& lines.len() > 0 ==> byte_len(lines.last()) + 1 + byte_len(first_word(cur)) > width
}

proof fn lemma_fold_greedy(ws: Seq<Seq<char>>, width: nat)
    requires
        all_nonempty(ws),
        forall|k: int| 0 <= k < ws.len() ==> has_no_space(#[trigger] ws[k]),
    ensures
        greedy(wrap_fold(ws, width), width),
    decreases ws.len(),
{
    if ws.len() > 0 {
        let prev = ws.drop_last();
        let word = ws.last();
        assert(all_nonempty(prev)) by {
            assert forall|i: int| 0 <= i < prev.len() implies (#[trigger] prev[i]).len() > 0 by {
                assert(prev[i] == ws[i]);
            }
        }
        assert forall|k: int| 0 <= k < prev.len() implies has_no_space(#[trigger] prev[k]) by {
            assert(prev[k] == ws[k]);
        }
        assert(has_no_space(ws[ws.len() - 1]));
        lemma_fold_greedy(prev, width);
        lemma_fold_inv(prev, width);
        let (lines, cur) = wrap_fold(prev, width);
        let (lines2, cur2) = wrap_step((lines, cur), word, width);
        if breaks_before(cur, word, width) {
            assert(cur2 =~= word);
            lemma_first_word_of_word(word);
            assert forall|i: int| 0 <= i < lines2.len() - 1 implies byte_len(#[trigger] lines2[i])
                + 1 + byte_len(first_word(lines2[i + 1])) > width by {
                assert(lines2[i] == lines[i]);
                if i + 1 < lines.len() {
                    assert(lines2[i + 1] == lines[i + 1]);
                }
            }
        } else if cur.len() > 0 {
            assert(cur2 =~= cur + seq![' '] + word);
            lemma_first_word_extend(cur, word);
        } else {
            assert(prev.len() == 0);
        }
    }
}

/// Wrapping is greedy: a line ends only where the first word of the next
/// line, after a space, would have pushed it past `width` bytes.
pub proof fn lemma_wrapped_greedy(text: Seq<char>, width: nat)
    ensures
        forall|i: int|
            0 <= i < wrapped(text, width).len() - 1 ==> byte_len(#[trigger] wrapped(text, width)[i])
                + 1 + byte_len(first_word(wrapped(text, width)[i + 1])) > width,
{
    let ws = words(text);
    lemma_split_words_nonempty(text);
    lemma_split_words_no_space(text);
    lemma_fold_greedy(ws, width);
    let (lines, cur) = wrap_fold(ws, width);
    let out = wrapped(text, width);
    if cur.len() > 0 {
        assert forall|i: int| 0 <= i < out.len() - 1 implies byte_len(#[trigger] out[i]) + 1
            + byte_len(first_word(out[i + 1])) > width by {
            assert(out[i] == lines[i]);
            if i + 1 < lines.len() {
                assert(out[i + 1] == lines[i + 1]);
            } else {
                assert(out[i + 1] == cur);
            }
        }
    }
}

} // verus!
