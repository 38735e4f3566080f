//! Human-readable dates, track lengths and scrolling titles.

use crate::text::{
    byte_len, byte_prefix_chars, decimal, has_byte_prefix, push_char, push_decimal, scan_bytes,
};
use vstd::prelude::*;

verus! {

/// The pieces of `s` between occurrences of `sep` (as `str::split` yields
/// them, empty pieces included).
pub open spec fn split_on(s: Seq<char>, sep: char) -> Seq<Seq<char>>
    decreases s.len(),
{
    if s.len() == 0 {
        seq![Seq::empty()]
    } else {
        let p = split_on(s.drop_last(), sep);
        if s.last() == sep {
            p.push(Seq::empty())
        } else {
            p.update(p.len() - 1, p.last().push(s.last()))
        }
    }
}

proof fn lemma_split_on_nonempty(s: Seq<char>, sep: char)
    ensures
        split_on(s, sep).len() >= 1,
    decreases s.len(),
{
    if s.len() > 0 {
        lemma_split_on_nonempty(s.drop_last(), sep);
    }
}

/// Three-letter English abbreviation of a two-digit month number.
pub open spec fn month_abbrev(m: Seq<char>) -> Option<Seq<char>> {
    if m =~= seq!['0', '1'] {
        Some(seq!['J', 'a', 'n'])
    } else if m =~= seq!['0', '2'] {
        Some(seq!['F', 'e', 'b'])
    } else if m =~= seq!['0', '3'] {
        Some(seq!['M', 'a', 'r'])
    } else if m =~= seq!['0', '4'] {
        Some(seq!['A', 'p', 'r'])
    } else if m =~= seq!['0', '5'] {
        Some(seq!['M', 'a', 'y'])
    } else if m =~= seq!['0', '6'] {
        Some(seq!['J', 'u', 'n'])
    } else if m =~= seq!['0', '7'] {
        Some(seq!['J', 'u', 'l'])
    } else if m =~= seq!['0', '8'] {
        Some(seq!['A', 'u', 'g'])
    } else if m =~= seq!['0', '9'] {
        Some(seq!['S', 'e', 'p'])
    } else if m =~= seq!['1', '0'] {
        Some(seq!['O', 'c', 't'])
    } else if m =~= seq!['1', '1'] {
        Some(seq!['N', 'o', 'v'])
    } else if m =~= seq!['1', '2'] {
        Some(seq!['D', 'e', 'c'])
    } else {
        None
    }
}

/// `s` without its leading zeros.
pub open spec fn trim_zeros(s: Seq<char>) -> Seq<char>
    decreases s.len(),
{
    if s.len() > 0 && s[0] == '0' {
        trim_zeros(s.drop_first())
    } else {
        s
    }
}

/// How a "YYYY-MM-DD..." timestamp is shown: "Mon D, YYYY". A text shorter
/// than ten bytes is shown as it is; one whose first ten bytes do not split
/// into exactly three dash-separated pieces is shown cut to those ten bytes;
/// an unknown month number is shown as it is; the day loses its leading zeros
/// ("0" if nothing is left).
pub open spec fn date_added_text(raw: Seq<char>) -> Seq<char> {
    if byte_len(raw) < 10 {
        raw
    } else {
        let date = raw.take(byte_prefix_chars(raw, 10));
        let parts = split_on(date, '-');
        if parts.len() != 3 {
            date
        } else {
            let month = match month_abbrev(parts[1]) {
                Some(name) => name,
                None => parts[1],
            };
            let day0 = trim_zeros(parts[2]);
            let day = if day0.len() == 0 {
                seq!['0']
            } else {
                day0
            };
            month + seq![' '] + day + seq![',', ' '] + parts[0]
        }
    }
}

/// Splitting `a`, a separator and a piece `b` without separators gives the
/// pieces of `a` followed by `b`.
proof fn lemma_split_on_append(a: Seq<char>, b: Seq<char>, sep: char)
    requires
        forall|i: int| 0 <= i < b.len() ==> b[i] != sep,
    ensures
        split_on(a + seq![sep] + b, sep) == split_on(a, sep).push(b),
    decreases b.len(),
{
    let s = a + seq![sep] + b;
    if b.len() == 0 {
        assert(s.drop_last() =~= a);
        assert(b =~= Seq::<char>::empty());
    } else {
        lemma_split_on_append(a, b.drop_last(), sep);
        assert(s.drop_last() =~= a + seq![sep] + b.drop_last());
        assert(s.last() == b.last());
        assert(b.drop_last().push(b.last()) =~= b);
        let p = split_on(a, sep).push(b.drop_last());
        assert(p.update(p.len() - 1, p.last().push(b.last())) =~= split_on(a, sep).push(b));
    }
}

/// A piece without separators splits into itself alone.
proof fn lemma_split_on_single(b: Seq<char>, sep: char)
    requires
        forall|i: int| 0 <= i < b.len() ==> b[i] != sep,
    ensures
        split_on(b, sep) == seq![b],
    decreases b.len(),
{
    if b.len() > 0 {
        lemma_split_on_single(b.drop_last(), sep);
        assert(b.drop_last().push(b.last()) =~= b);
        assert(seq![b.drop_last()].update(0, b) =~= seq![b]);
    } else {
        assert(b =~= Seq::<char>::empty());
    }
}

pub open spec fn is_digit(c: char) -> bool {
    '0' <= c <= '9'
}

/// `raw` starts with an ISO date "YYYY-MM-DD" written in ASCII digits.
pub open spec fn starts_with_iso_date(raw: Seq<char>) -> bool {
    &&& raw.len() >= 10
    &&& raw[4] == '-' && raw[7] == '-'
    &&& forall|i: int| 0 <= i < 10 && i != 4 && i != 7 ==> is_digit(#[trigger] raw[i])
}

/// The day of an ISO date as shown: both digits, or the second alone when
/// the first is a zero, or "0" for a day "00".
pub open spec fn shown_day(d1: char, d2: char) -> Seq<char> {
    if d1 != '0' {
        seq![d1, d2]
    } else if d2 != '0' {
        seq![d2]
    } else {
        seq!['0']
    }
}

proof fn lemma_ascii_prefix_bytes(raw: Seq<char>, k: int)
    requires
        starts_with_iso_date(raw),
        0 <= k <= 10,
    ensures
        byte_len(raw.take(k)) == k,
    decreases k,
{
    if k == 0 {
        assert(raw.take(0) =~= Seq::<char>::empty());
    } else {
        lemma_ascii_prefix_bytes(raw, k - 1);
        assert(raw.take(k).drop_last() =~= raw.take(k - 1));
        assert(raw.take(k).last() == raw[k - 1]);
    }
}

/// An ISO date "YYYY-MM-DD..." is shown as "Mon D, YYYY": the month's
/// abbreviation (the digits themselves for an unknown month), the day with
/// a leading zero dropped, and the year.
pub proof fn lemma_iso_date_shown(raw: Seq<char>)
    requires
        starts_with_iso_date(raw),
    ensures
        date_added_text(raw) == (match month_abbrev(raw.subrange(5, 7)) {
            Some(name) => name,
            None => raw.subrange(5, 7),
        }) + seq![' '] + shown_day(raw[8], raw[9]) + seq![',', ' '] + raw.take(4),
{
    lemma_ascii_prefix_bytes(raw, 10);
    assert(has_byte_prefix(raw, 10));
    let k = byte_prefix_chars(raw, 10);
    assert(0 <= k <= raw.len() && byte_len(raw.take(k)) == 10);
    if k < 10 {
        crate::text::lemma_prefix_bytes_increasing(raw, k, 10);
    }
    if k > 10 {
        crate::text::lemma_prefix_bytes_increasing(raw, 10, k);
    }
    assert(k == 10);
    if raw.len() > 10 {
        crate::text::lemma_prefix_bytes_increasing(raw, 10, raw.len() as int);
    }
    assert(raw.take(raw.len() as int) =~= raw);
    assert(byte_len(raw) >= 10);
    let date = raw.take(10);
    let y = raw.take(4);
    let m = raw.subrange(5, 7);
    let d = raw.subrange(8, 10);
    assert(date =~= y + seq!['-'] + m + seq!['-'] + d);
    assert(forall|i: int| 0 <= i < 4 ==> y[i] == raw[i]);
    assert(is_digit(raw[0]) && is_digit(raw[1]) && is_digit(raw[2]) && is_digit(raw[3]));
    assert(is_digit(raw[5]) && is_digit(raw[6]) && is_digit(raw[8]) && is_digit(raw[9]));
    lemma_split_on_single(y, '-');
    lemma_split_on_append(y, m, '-');
    lemma_split_on_append(y + seq!['-'] + m, d, '-');
    let parts = split_on(date, '-');
    assert(parts =~= seq![y, m, d]);
    reveal_with_fuel(trim_zeros, 3);
    assert(d.drop_first() =~= seq![raw[9]]);
    assert(d =~= seq![raw[8], raw[9]]);
    assert(seq![raw[9]].drop_first() =~= Seq::<char>::empty());
}

fn month_name(m: &str) -> (r: Option<&'static str>)
    ensures
        match r {
            Some(name) => month_abbrev(m@) == Some(name@),
            None => month_abbrev(m@) is None,
        },
{
    if m.unicode_len() != 2 {
        return None;
    }
    let a = m.get_char(0);
    let b = m.get_char(1);
    assert(m@ =~= seq![a, b]);
    if a == '0' {
        if b == '1' {
            proof { reveal_strlit("Jan"); }
            assert("Jan"@ =~= seq!['J', 'a', 'n']);
            Some("Jan")
        } else if b == '2' {
            proof { reveal_strlit("Feb"); }
            assert("Feb"@ =~= seq!['F', 'e', 'b']);
            Some("Feb")
        } else if b == '3' {
            proof { reveal_strlit("Mar"); }
            assert("Mar"@ =~= seq!['M', 'a', 'r']);
            Some("Mar")
        } else if b == '4' {
            proof { reveal_strlit("Apr"); }
            assert("Apr"@ =~= seq!['A', 'p', 'r']);
            Some("Apr")
        } else if b == '5' {
            proof { reveal_strlit("May"); }
            assert("May"@ =~= seq!['M', 'a', 'y']);
            Some("May")
        } else if b == '6' {
            proof { reveal_strlit("Jun"); }
            assert("Jun"@ =~= seq!['J', 'u', 'n']);
            Some("Jun")
        } else if b == '7' {
            proof { reveal_strlit("Jul"); }
            assert("Jul"@ =~= seq!['J', 'u', 'l']);
            Some("Jul")
        } else if b == '8' {
            proof { reveal_strlit("Aug"); }
            assert("Aug"@ =~= seq!['A', 'u', 'g']);
            Some("Aug")
        } else if b == '9' {
            proof { reveal_strlit("Sep"); }
            assert("Sep"@ =~= seq!['S', 'e', 'p']);
            Some("Sep")
        } else {
            None
        }
    } else if a == '1' {
        if b == '0' {
            proof { reveal_strlit("Oct"); }
            assert("Oct"@ =~= seq!['O', 'c', 't']);
            Some("Oct")
        } else if b == '1' {
            proof { reveal_strlit("Nov"); }
            assert("Nov"@ =~= seq!['N', 'o', 'v']);
            Some("Nov")
        } else if b == '2' {
            proof { reveal_strlit("Dec"); }
            assert("Dec"@ =~= seq!['D', 'e', 'c']);
            Some("Dec")
        } else {
            None
        }
    } else {
        None
    }
}

proof fn lemma_trim_zeros(s: Seq<char>, z: int)
    requires
        0 <= z <= s.len(),
        forall|i: int| 0 <= i < z ==> s[i] == '0',
        z < s.len() ==> s[z] != '0',
    ensures
        trim_zeros(s) == s.skip(z),
    decreases z,
{
    if z == 0 {
        assert(s.skip(0) =~= s);
    } else {
        lemma_trim_zeros(s.drop_first(), z - 1);
        assert(s.drop_first().skip(z - 1) =~= s.skip(z));
    }
}

/// Formats the date a track was added, from a "YYYY-MM-DD..." timestamp.
pub fn format_date_added(raw_date: &str) -> (s: String)
    requires
        byte_len(raw_date@) >= 10 ==> has_byte_prefix(raw_date@, 10),
    ensures
        s@ == date_added_text(raw_date@),
{
    let (k, bytes) = scan_bytes(raw_date, 10);
    if bytes < 10 {
        assert(raw_date@.take(k as int) =~= raw_date@);
        return raw_date.to_owned();
    }
    assert(byte_len(raw_date@) >= 10) by {
        if k < raw_date@.len() {
            crate::text::lemma_prefix_bytes_increasing(raw_date@, k as int, raw_date@.len() as int);
        }
        assert(raw_date@.take(raw_date@.len() as int) =~= raw_date@);
    }
    let date = raw_date.substring_char(0, k);
    let ghost d = date@;
    let n = date.unicode_len();
    let mut done: Vec<String> = Vec::new();
    let mut cur = String::new();
    let mut j: usize = 0;
    assert(d.take(0) =~= Seq::<char>::empty());
    while j < n
        invariant
            n == d.len(),
            d == date@,
            j <= n,
            done@.map_values(|x: String| x@).push(cur@) == split_on(d.take(j as int), '-'),
        decreases n - j,
    {
        let c = date.get_char(j);
        let ghost before = done@.map_values(|x: String| x@);
        let ghost cur0 = cur@;
        assert(d.take(j + 1).drop_last() =~= d.take(j as int));
        assert(d.take(j + 1).last() == c);
        if c == '-' {
            let mut piece = String::new();
            std::mem::swap(&mut piece, &mut cur);
            done.push(piece);
            assert(done@.map_values(|x: String| x@) =~= before.push(cur0));
            assert(done@.map_values(|x: String| x@).push(cur@) =~= before.push(cur0).push(
                Seq::empty(),
            ));
        } else {
            push_char(&mut cur, c);
            assert(done@.map_values(|x: String| x@).push(cur@) =~= before.push(cur0).update(
                before.len() as int,
                cur0.push(c),
            ));
        }
        j = j + 1;
    }
    assert(d.take(n as int) =~= d);
    let ghost parts = split_on(d, '-');
    if done.len() != 2 {
        return date.to_owned();
    }
    assert(parts[0] == done@[0]@);
    assert(parts[1] == done@[1]@);
    assert(parts[2] == cur@);
    let year = done[0].as_str();
    let month_num = done[1].as_str();
    let month = match month_name(month_num) {
        Some(name) => name,
        None => month_num,
    };
    let day_digits = cur.as_str();
    let dn = day_digits.unicode_len();
    let mut z: usize = 0;
    while z < dn && day_digits.get_char(z) == '0'
        invariant
            dn == day_digits@.len(),
            z <= dn,
            forall|i: int| 0 <= i < z ==> day_digits@[i] == '0',
        decreases dn - z,
    {
        z = z + 1;
    }
    proof {
        lemma_trim_zeros(day_digits@, z as int);
    }
    let day = day_digits.substring_char(z, dn);
    assert(day@ =~= day_digits@.skip(z as int));
    let mut out = String::new();
    out.append(month);
    push_char(&mut out, ' ');
    if day.unicode_len() == 0 {
        push_char(&mut out, '0');
    } else {
        out.append(day);
    }
    push_char(&mut out, ',');
    push_char(&mut out, ' ');
    out.append(year);
    assert(out@ =~= date_added_text(raw_date@));
    out
}

/// "m:ss", as the track list shows a length or a position.
pub open spec fn clock_text(secs: nat) -> Seq<char> {
    let s = secs % 60;
    decimal(secs / 60) + seq![':'] + (if s < 10 {
        seq!['0']
    } else {
        Seq::empty()
    }) + decimal(s)
}

/// Formats seconds as "m:ss".
pub fn format_seconds(secs: u32) -> (s: String)
    ensures
        s@ == clock_text(secs as nat),
{
    let mut out = String::new();
    push_decimal(&mut out, (secs / 60) as u64);
    push_char(&mut out, ':');
    let rem = secs % 60;
    if rem < 10 {
        push_char(&mut out, '0');
    }
    push_decimal(&mut out, rem as u64);
    assert(out@ =~= clock_text(secs as nat));
    out
}

/// A playlist's total length: "H hr M min" beyond an hour (over sixty
/// minutes), else "M min S sec".
pub open spec fn duration_text(total: nat) -> Seq<char> {
    let m = total / 60;
    let s = total % 60;
    if m > 60 {
        decimal(m / 60) + seq![' ', 'h', 'r', ' '] + decimal(m % 60) + seq![' ', 'm', 'i', 'n']
    } else {
        decimal(m) + seq![' ', 'm', 'i', 'n', ' '] + decimal(s) + seq![' ', 's', 'e', 'c']
    }
}

fn push_chars(out: &mut String, cs: &[char])
    ensures
        final(out)@ == old(out)@ + cs@,
{
    let mut i: usize = 0;
    while i < cs.len()
        invariant
            i <= cs@.len(),
            out@ == old(out)@ + cs@.take(i as int),
        decreases cs@.len() - i,
    {
        push_char(out, cs[i]);
        assert(cs@.take(i + 1) =~= cs@.take(i as int).push(cs@[i as int]));
        i = i + 1;
    }
    assert(cs@.take(i as int) =~= cs@);
}

/// Formats a playlist's total length in seconds.
pub fn format_duration(total_seconds: u32) -> (s: String)
    ensures
        s@ == duration_text(total_seconds as nat),
{
    let m = total_seconds / 60;
    let sec = total_seconds % 60;
    let mut out = String::new();
    if m > 60 {
        push_decimal(&mut out, (m / 60) as u64);
        push_chars(&mut out, &[' ', 'h', 'r', ' ']);
        push_decimal(&mut out, (m % 60) as u64);
        push_chars(&mut out, &[' ', 'm', 'i', 'n']);
    } else {
        push_decimal(&mut out, m as u64);
        push_chars(&mut out, &[' ', 'm', 'i', 'n', ' ']);
        push_decimal(&mut out, sec as u64);
        push_chars(&mut out, &[' ', 's', 'e', 'c']);
    }
    assert(out@ =~= duration_text(total_seconds as nat));
    out
}


/// What a scrolling title cycles through: the text, ten spaces, the text again.
pub open spec fn marquee_source(t: Seq<char>) -> Seq<char> {
    t + Seq::new(10, |i: int| ' ') + t
}

/// The `width` characters of a scrolling title shown at step `offset`; a
/// title that fits is shown whole.
pub open spec fn marquee(t: Seq<char>, width: nat, offset: nat) -> Seq<char> {
    if t.len() <= width {
        t
    } else {
        let r = marquee_source(t);
        let start = offset % (t.len() + 10);
        if start + width <= r.len() {
            r.subrange(start as int, (start + width) as int)
        } else {
            r.subrange(start as int, r.len() as int)
        }
    }
}

/// The visible window of a title scrolling through a column `width` characters wide.
pub fn marquee_text(text: &str, width: usize, offset: usize) -> (s: String)
    requires
        text@.len() + 10 <= usize::MAX,
    ensures
        s@ == marquee(text@, width as nat, offset as nat),
{
    let n = text.unicode_len();
    if n <= width {
        return text.to_owned();
    }
    let ghost r = marquee_source(text@);
    let ghost total: int = 2 * n + 10;
    let cycle = n + 10;
    let start = offset % cycle;
    // The window runs through the title and the gap first, then through
    // the title's second copy.
    let first = if width <= cycle - start {
        width
    } else {
        cycle - start
    };
    let second = if width - first <= n {
        width - first
    } else {
        n
    };
    let mut out = String::new();
    let mut j = start;
    while j < start + first
        invariant
            n == text@.len(),
            r == marquee_source(text@),
            r.len() == total,
            cycle == n + 10,
            start < cycle,
            first <= cycle - start,
            start <= j <= start + first,
            out@ == r.subrange(start as int, j as int),
        decreases start + first - j,
    {
        let c = if j < n {
            text.get_char(j)
        } else {
            ' '
        };
        assert(c == r[j as int]);
        push_char(&mut out, c);
        assert(r.subrange(start as int, j + 1) =~= r.subrange(start as int, j as int).push(c));
        j = j + 1;
    }
    let mut q: usize = 0;
    while q < second
        invariant
            n == text@.len(),
            r == marquee_source(text@),
            r.len() == total,
            cycle == n + 10,
            second <= n,
            second > 0 ==> first == cycle - start,
            q <= second,
            out@ == r.subrange(start as int, start + first + q),
        decreases second - q,
    {
        let c = text.get_char(q);
        assert(c == r[cycle + q]);
        push_char(&mut out, c);
        assert(r.subrange(start as int, start + first + q + 1) =~= r.subrange(
            start as int,
            start + first + q,
        ).push(c));
        q = q + 1;
    }
    proof {
        assert(offset as nat % (text@.len() + 10) == start);
        if start + width <= total {
            assert(start + first + second == start + width);
        } else {
            assert(start + first + second == total);
        }
    }
    out
}

/// A title wider than its column always fills the column exactly, and the
/// scrolling repeats every length-plus-ten steps.
pub proof fn lemma_marquee_window(t: Seq<char>, width: nat, offset: nat)
    ensures
        t.len() > width ==> marquee(t, width, offset).len() == width,
        t.len() <= width ==> marquee(t, width, offset) == t,
        marquee(t, width, offset) == marquee(t, width, offset + t.len() + 10),
{
    let c = t.len() + 10;
    assert(offset % c < c) by {
        vstd::arithmetic::div_mod::lemma_mod_bound(offset as int, c as int);
    }
    assert((offset + t.len() + 10) % c == offset % c) by {
        vstd::arithmetic::div_mod::lemma_mod_add_multiples_vanish(offset as int, c as int);
    }
}

} // verus!
