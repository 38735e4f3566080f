//! Drawing decisions of the player screen: themes, labels, column widths
//! and the pieces of the progress bar and album-art box.

use crate::catalog::{Playlist, Song};
use crate::format::{duration_text, format_duration};
use crate::player::{Panel, PlayerView, Sink};
use crate::text::{
    byte_len, byte_prefix_chars, decimal, has_byte_prefix, is_white_space, is_whitespace,
    push_char, push_decimal, scan_bytes,
};
use vstd::prelude::*;

verus! {

/// `pat` occurs in `s`.
pub open spec fn has_substring(s: Seq<char>, pat: Seq<char>) -> bool {
    exists|i: int| 0 <= i <= s.len() - pat.len() && #[trigger] s.subrange(i, i + pat.len()) == pat
}

fn chars_of(s: &str) -> (v: Vec<char>)
    ensures
        v@ == s@,
{
    let n = s.unicode_len();
    let mut v: Vec<char> = Vec::new();
    let mut i: usize = 0;
    while i < n
        invariant
            n == s@.len(),
            i <= n,
            v@ == s@.take(i as int),
        decreases n - i,
    {
        v.push(s.get_char(i));
        assert(s@.take(i + 1) =~= s@.take(i as int).push(s@[i as int]));
        i = i + 1;
    }
    assert(s@.take(n as int) =~= s@);
    v
}

/// Whether `pat` occurs in `s`, as `str::contains` answers.
pub fn contains_text(s: &str, pat: &str) -> (b: bool)
    ensures
        b == has_substring(s@, pat@),
{
    let hay = chars_of(s);
    let needle = chars_of(pat);
    let n = hay.len();
    let m = needle.len();
    if m > n {
        return false;
    }
    let mut i: usize = 0;
    while i <= n - m
        invariant
            hay@ == s@,
            needle@ == pat@,
            n == hay@.len(),
            m == needle@.len(),
            m <= n,
            i <= n - m + 1,
            forall|k: int| 0 <= k < i ==> #[trigger] s@.subrange(k, k + m) != pat@,
        decreases n - m + 1 - i,
    {
        let mut j: usize = 0;
        while j < m && hay[i + j] == needle[j]
            invariant
                hay@ == s@,
                needle@ == pat@,
                n == hay@.len(),
                m == needle@.len(),
                i + m <= n,
                j <= m,
                forall|t: int| 0 <= t < j ==> hay@[i + t] == needle@[t],
            decreases m - j,
        {
            j = j + 1;
        }
        if j == m {
            assert(s@.subrange(i as int, i + m) =~= pat@);
            return true;
        }
        assert(s@.subrange(i as int, i + m)[j as int] != pat@[j as int]);
        i = i + 1;
    }
    false
}

/// Colour scheme of an album.
#[derive(Clone, Copy, Debug, PartialEq, Eq)]
pub enum AlbumTheme {
    Arirang,
    Proof,
    LoveYourself,
    MostBeautiful,
    Default,
}

pub open spec fn spec_album_theme(name: Seq<char>) -> AlbumTheme {
    if has_substring(name, "ARIRANG"@) {
        AlbumTheme::Arirang
    } else if has_substring(name, "Proof"@) {
        AlbumTheme::Proof
    } else if has_substring(name, "Love Yourself"@) {
        AlbumTheme::LoveYourself
    } else if has_substring(name, "Most Beautiful"@) {
        AlbumTheme::MostBeautiful
    } else {
        AlbumTheme::Default
    }
}

/// The colour scheme for an album, chosen by the first keyword its name contains.
pub fn album_theme(name: &str) -> (t: AlbumTheme)
    ensures
        t == spec_album_theme(name@),
{
    if contains_text(name, "ARIRANG") {
        AlbumTheme::Arirang
    } else if contains_text(name, "Proof") {
        AlbumTheme::Proof
    } else if contains_text(name, "Love Yourself") {
        AlbumTheme::LoveYourself
    } else if contains_text(name, "Most Beautiful") {
        AlbumTheme::MostBeautiful
    } else {
        AlbumTheme::Default
    }
}

/// The ASCII characters of `s`, in order.
pub open spec fn ascii_only(s: Seq<char>) -> Seq<char>
    decreases s.len(),
{
    if s.len() == 0 {
        Seq::empty()
    } else if (s.last() as u32) <= 0x7F {
        ascii_only(s.drop_last()).push(s.last())
    } else {
        ascii_only(s.drop_last())
    }
}

/// `s` without leading whitespace.
pub open spec fn trim_start(s: Seq<char>) -> Seq<char>
    decreases s.len(),
{
    if s.len() > 0 && is_white_space(s[0]) {
        trim_start(s.drop_first())
    } else {
        s
    }
}

/// `s` without trailing whitespace.
pub open spec fn trim_end(s: Seq<char>) -> Seq<char>
    decreases s.len(),
{
    if s.len() > 0 && is_white_space(s.last()) {
        trim_end(s.drop_last())
    } else {
        s
    }
}

proof fn lemma_trim_start(s: Seq<char>, a: int)
    requires
        0 <= a <= s.len(),
        forall|i: int| 0 <= i < a ==> is_white_space(#[trigger] s[i]),
        a < s.len() ==> !is_white_space(s[a]),
    ensures
        trim_start(s) == s.skip(a),
    decreases a,
{
    if a == 0 {
        assert(s.skip(0) =~= s);
    } else {
        assert(is_white_space(s[0]));
        lemma_trim_start(s.drop_first(), a - 1);
        assert(s.drop_first().skip(a - 1) =~= s.skip(a));
    }
}

proof fn lemma_trim_end(s: Seq<char>, b: int)
    requires
        0 <= b <= s.len(),
        forall|i: int| b <= i < s.len() ==> is_white_space(#[trigger] s[i]),
        b > 0 ==> !is_white_space(s[b - 1]),
    ensures
        trim_end(s) == s.take(b),
    decreases s.len() - b,
{
    if b == s.len() {
        assert(s.take(b) =~= s);
    } else {
        assert(is_white_space(s.last()));
        lemma_trim_end(s.drop_last(), b);
        assert(s.drop_last().take(b) =~= s.take(b));
    }
}

/// How an album name is shown in big letters: its ASCII characters, trimmed
/// of whitespace at both ends.
pub open spec fn spec_display_name(name: Seq<char>) -> Seq<char> {
    trim_end(trim_start(ascii_only(name)))
}

/// The album name reduced to what the big-letter title can show.
pub fn display_name(name: &str) -> (s: String)
    ensures
        s@ == spec_display_name(name@),
{
    let n = name.unicode_len();
    let mut kept = String::new();
    let mut i: usize = 0;
    while i < n
        invariant
            n == name@.len(),
            i <= n,
            kept@ == ascii_only(name@.take(i as int)),
        decreases n - i,
    {
        let c = name.get_char(i);
        assert(name@.take(i + 1).drop_last() =~= name@.take(i as int));
        if (c as u32) <= 0x7F {
            push_char(&mut kept, c);
        }
        i = i + 1;
    }
    assert(name@.take(n as int) =~= name@);
    let k = kept.as_str();
    let m = k.unicode_len();
    let mut a: usize = 0;
    while a < m && is_whitespace(k.get_char(a))
        invariant
            m == k@.len(),
            a <= m,
            forall|t: int| 0 <= t < a ==> is_white_space(#[trigger] k@[t]),
        decreases m - a,
    {
        a = a + 1;
    }
    proof {
        lemma_trim_start(k@, a as int);
    }
    let rest = k.substring_char(a, m);
    let r = rest.unicode_len();
    let mut b: usize = r;
    while b > 0 && is_whitespace(rest.get_char(b - 1))
        invariant
            r == rest@.len(),
            b <= r,
            forall|t: int| b <= t < r ==> is_white_space(#[trigger] rest@[t]),
        decreases b,
    {
        b = b - 1;
    }
    proof {
        assert(rest@ =~= k@.skip(a as int));
        lemma_trim_end(rest@, b as int);
    }
    let shown = rest.substring_char(0, b);
    shown.to_owned()
}

/// The label of the volume gauge: "MUTE" at zero, else the percentage.
pub open spec fn volume_text(volume: u32) -> Seq<char> {
    if volume == 0 {
        seq!['M', 'U', 'T', 'E']
    } else {
        decimal(volume as nat).push('%')
    }
}

pub fn volume_label(volume: u32) -> (s: String)
    ensures
        s@ == volume_text(volume),
{
    let mut out = String::new();
    if volume == 0 {
        push_char(&mut out, 'M');
        push_char(&mut out, 'U');
        push_char(&mut out, 'T');
        push_char(&mut out, 'E');
    } else {
        push_decimal(&mut out, volume as u64);
        push_char(&mut out, '%');
    }
    out
}

/// A title in the queue panel: cut to one byte less than the panel width and
/// ended by an ellipsis when it is wider than the panel (in bytes).
pub open spec fn queue_title_text(title: Seq<char>, max_w: nat) -> Seq<char> {
    if byte_len(title) > max_w {
        let cut = if max_w >= 1 { (max_w - 1) as nat } else { 0 };
        title.take(byte_prefix_chars(title, cut)).push('…')
    } else {
        title
    }
}

/// The inputs on which the cut does not split a character (where the
/// screen would panic).
pub open spec fn queue_title_ok(title: Seq<char>, max_w: nat) -> bool {
    byte_len(title) > max_w ==> has_byte_prefix(title, if max_w >= 1 { (max_w - 1) as nat } else { 0 })
}

pub fn queue_title(title: &str, max_w: usize) -> (s: String)
    requires
        max_w < usize::MAX - 4,
        queue_title_ok(title@, max_w as nat),
    ensures
        s@ == queue_title_text(title@, max_w as nat),
{
    let (k, bytes) = scan_bytes(title, max_w + 1);
    if bytes < max_w + 1 {
        assert(title@.take(k as int) =~= title@);
        return title.to_owned();
    }
    assert(byte_len(title@) > max_w) by {
        if k < title@.len() {
            crate::text::lemma_prefix_bytes_increasing(title@, k as int, title@.len() as int);
        }
        assert(title@.take(title@.len() as int) =~= title@);
    }
    let cut = max_w.saturating_sub(1);
    let (k2, bytes2) = scan_bytes(title, cut);
    assert(has_byte_prefix(title@, cut as nat));
    assert(bytes2 >= cut) by {
        if bytes2 < cut {
            assert(title@.take(k2 as int) =~= title@);
        }
    }
    let head = title.substring_char(0, k2);
    let mut out = head.to_owned();
    push_char(&mut out, '…');
    out
}

/// Total length of the songs, in seconds.
pub open spec fn total_secs(songs: Seq<Song>) -> nat
    decreases songs.len(),
{
    if songs.len() == 0 {
        0
    } else {
        total_secs(songs.drop_last()) + songs.last().duration_seconds as nat
    }
}

/// Total length of a playlist.
pub fn playlist_total_seconds(p: &Playlist) -> (t: u32)
    requires
        total_secs(p.songs@) <= u32::MAX,
    ensures
        t == total_secs(p.songs@),
{
    let mut t: u32 = 0;
    let mut i: usize = 0;
    while i < p.songs.len()
        invariant
            i <= p.songs@.len(),
            t == total_secs(p.songs@.take(i as int)),
            total_secs(p.songs@) <= u32::MAX,
        decreases p.songs@.len() - i,
    {
        assert(p.songs@.take(i + 1).drop_last() =~= p.songs@.take(i as int));
        proof {
            lemma_total_secs_prefix(p.songs@, i + 1);
        }
        t = t + p.songs[i].duration_seconds;
        i = i + 1;
    }
    assert(p.songs@.take(i as int) =~= p.songs@);
    t
}

proof fn lemma_total_secs_prefix(songs: Seq<Song>, k: int)
    requires
        0 <= k <= songs.len(),
    ensures
        total_secs(songs.take(k)) <= total_secs(songs),
    decreases songs.len() - k,
{
    if k < songs.len() {
        lemma_total_secs_prefix(songs, k + 1);
        assert(songs.take(k + 1).drop_last() =~= songs.take(k));
    } else {
        assert(songs.take(k) =~= songs);
    }
}

/// The line under a playlist's title: "• N songs, <total length>".
pub open spec fn summary_text(p: Playlist) -> Seq<char> {
    seq!['•', ' '] + decimal(p.songs@.len()) + seq![' ', 's', 'o', 'n', 'g', 's', ',', ' ']
        + duration_text(total_secs(p.songs@))
}

pub fn playlist_summary(p: &Playlist) -> (s: String)
    requires
        total_secs(p.songs@) <= u32::MAX,
    ensures
        s@ == summary_text(*p),
{
    let total = playlist_total_seconds(p);
    let mut out = String::new();
    push_char(&mut out, '•');
    push_char(&mut out, ' ');
    push_decimal(&mut out, p.songs.len() as u64);
    push_char(&mut out, ' ');
    push_char(&mut out, 's');
    push_char(&mut out, 'o');
    push_char(&mut out, 'n');
    push_char(&mut out, 'g');
    push_char(&mut out, 's');
    push_char(&mut out, ',');
    push_char(&mut out, ' ');
    let d = format_duration(total);
    out.append(d.as_str());
    assert(out@ =~= summary_text(*p));
    out
}

pub open spec fn column_width(inner_w: u16, min: nat) -> nat {
    let w = (inner_w * 35) / 100;
    let w1 = if w >= 1 { (w - 1) as nat } else { 0 };
    if w1 >= min { w1 } else { min }
}

/// Widths of the title and album columns of the song table: 35% of the
/// inner width less one, at least 10 and 5 cells.
pub fn column_widths(inner_w: u16) -> (w: (usize, usize))
    ensures
        w.0 == column_width(inner_w, 10),
        w.1 == column_width(inner_w, 5),
{
    let base = ((inner_w as usize) * 35 / 100).saturating_sub(1);
    let title = if base >= 10 { base } else { 10 };
    let album = if base >= 5 { base } else { 5 };
    (title, album)
}

/// Size of the album-art box: `rows` terminal rows (at least 4, leaving 6
/// rows of text), `cols` columns (two per row so the half-block pixels look
/// square, within the panel), `pad` columns of left margin to centre it.
#[derive(Clone, Copy, Debug)]
pub struct ArtBox {
    pub rows: usize,
    pub cols: usize,
    pub pad: usize,
}

pub open spec fn spec_art_box(inner_w: u16, inner_h: u16) -> ArtBox {
    let h = if inner_h >= 6 { inner_h - 6 } else { 0 };
    let rows = if h >= 4 { h } else { 4 };
    let cols = if 2 * rows <= inner_w { 2 * rows } else { inner_w as int };
    ArtBox { rows: rows as usize, cols: cols as usize, pad: ((inner_w - cols) / 2) as usize }
}

pub fn art_box(inner_w: u16, inner_h: u16) -> (b: ArtBox)
    ensures
        b == spec_art_box(inner_w, inner_h),
{
    let rows = inner_h.saturating_sub(6);
    let rows: usize = if rows >= 4 { rows as usize } else { 4 };
    let cols = if rows * 2 <= inner_w as usize { rows * 2 } else { inner_w as usize };
    let pad = (inner_w as usize).saturating_sub(cols) / 2;
    ArtBox { rows, cols, pad }
}

fn push_repeat(out: &mut String, c: char, n: usize)
    ensures
        final(out)@ == old(out)@ + Seq::new(n as nat, |i: int| c),
{
    let mut i: usize = 0;
    while i < n
        invariant
            i <= n,
            out@ == old(out)@ + Seq::new(i as nat, |j: int| c),
        decreases n - i,
    {
        push_char(out, c);
        assert(Seq::new((i + 1) as nat, |j: int| c) =~= Seq::new(i as nat, |j: int| c).push(c));
        i = i + 1;
    }
}

pub open spec fn repeat(c: char, n: nat) -> Seq<char> {
    Seq::new(n, |i: int| c)
}

/// Row `row` of the framed placeholder drawn where no album art exists: a
/// box `bw` wide and `bh` tall after `pad` spaces, the label "[ album art ]"
/// centred on its middle row when it fits.
pub open spec fn placeholder_text(row: nat, bw: nat, bh: nat, pad: nat) -> Seq<char> {
    let inner = if bw >= 2 { (bw - 2) as nat } else { 0 };
    let label = "[ album art ]"@;
    repeat(' ', pad) + if row == 0 {
        seq!['┌'] + repeat('─', inner) + seq!['┐']
    } else if row == bh - 1 {
        seq!['└'] + repeat('─', inner) + seq!['┘']
    } else if row == bh / 2 && inner >= 13 {
        let p = ((inner - 13) / 2) as nat;
        seq!['│'] + repeat(' ', p) + label + repeat(' ', (inner - (p + 13)) as nat) + seq!['│']
    } else {
        seq!['│'] + repeat(' ', inner) + seq!['│']
    }
}

pub fn placeholder_row(row: usize, bw: usize, bh: usize, pad: usize) -> (s: String)
    requires
        row < bh,
    ensures
        s@ == placeholder_text(row as nat, bw as nat, bh as nat, pad as nat),
{
    let inner = bw.saturating_sub(2);
    let mut out = String::new();
    push_repeat(&mut out, ' ', pad);
    if row == 0 {
        push_char(&mut out, '┌');
        push_repeat(&mut out, '─', inner);
        push_char(&mut out, '┐');
    } else if row == bh - 1 {
        push_char(&mut out, '└');
        push_repeat(&mut out, '─', inner);
        push_char(&mut out, '┘');
    } else if row == bh / 2 && inner >= 13 {
        let p = (inner - 13) / 2;
        push_char(&mut out, '│');
        push_repeat(&mut out, ' ', p);
        out.append("[ album art ]");
        push_repeat(&mut out, ' ', inner - (p + 13));
        push_char(&mut out, '│');
    } else {
        push_char(&mut out, '│');
        push_repeat(&mut out, ' ', inner);
        push_char(&mut out, '│');
    }
    assert(out@ =~= placeholder_text(row as nat, bw as nat, bh as nat, pad as nat));
    out
}

/// What one cell of the progress bar shows.
#[derive(Clone, Copy, Debug, PartialEq, Eq)]
pub enum BarCell {
    /// The scrubber, shown while the mouse is over the bar.
    Thumb,
    /// Character `index` of the time label, over the played or unplayed part.
    Label { index: usize, played: bool },
    /// A block of the played part.
    Played,
    /// A block of the unplayed part.
    Unplayed,
}

pub open spec fn label_start(bar_w: nat, label_len: nat) -> nat {
    if bar_w >= label_len { ((bar_w - label_len) / 2) as nat } else { bar_w }
}

pub open spec fn spec_bar_cell(i: nat, filled: nat, bar_w: nat, label_len: nat, hovering: bool) -> BarCell {
    let thumb_at = if filled <= (if bar_w >= 1 { bar_w - 1 } else { 0 }) {
        filled as int
    } else if bar_w >= 1 {
        bar_w - 1
    } else {
        0
    };
    let start = label_start(bar_w, label_len);
    if hovering && i == thumb_at {
        BarCell::Thumb
    } else if start <= i < start + label_len {
        BarCell::Label { index: (i - start) as usize, played: i < filled }
    } else if i < filled {
        BarCell::Played
    } else {
        BarCell::Unplayed
    }
}

/// Cell `i` of a progress bar `bar_w` cells wide whose first `filled` cells
/// are played, with a centred time label of `label_len` characters (hidden
/// when the bar is narrower than the label).
pub fn bar_cell(i: usize, filled: usize, bar_w: usize, label_len: usize, hovering: bool) -> (c: BarCell)
    requires
        bar_w + label_len <= usize::MAX,
    ensures
        c == spec_bar_cell(i as nat, filled as nat, bar_w as nat, label_len as nat, hovering),
{
    let last = bar_w.saturating_sub(1);
    let thumb_at = if filled <= last { filled } else { last };
    let start = if bar_w >= label_len { (bar_w - label_len) / 2 } else { bar_w };
    if hovering && i == thumb_at {
        BarCell::Thumb
    } else if i >= start && i < start + label_len {
        BarCell::Label { index: i - start, played: i < filled }
    } else if i < filled {
        BarCell::Played
    } else {
        BarCell::Unplayed
    }
}

/// How an entry of the sidebar or of the song table is highlighted.
#[derive(Clone, Copy, Debug, PartialEq, Eq)]
pub enum Look {
    /// Under the cursor of the focused panel.
    Selected,
    /// The open playlist, or the song playing in it.
    Current,
    Plain,
}

pub open spec fn spec_sidebar_look(v: PlayerView, idx: usize) -> Look {
    if idx == v.selected_playlist && v.panel == Panel::Sidebar {
        Look::Selected
    } else if idx == v.active_playlist {
        Look::Current
    } else {
        Look::Plain
    }
}

/// Highlight of playlist `idx` in the sidebar.
pub fn sidebar_look(v: &PlayerView, idx: usize) -> (l: Look)
    ensures
        l == spec_sidebar_look(*v, idx),
{
    let focused = match v.panel {
        Panel::Sidebar => true,
        Panel::MainList => false,
    };
    if idx == v.selected_playlist && focused {
        Look::Selected
    } else if idx == v.active_playlist {
        Look::Current
    } else {
        Look::Plain
    }
}

pub open spec fn spec_song_look(v: PlayerView, idx: usize) -> Look {
    if idx == v.selected_song && v.panel == Panel::MainList {
        Look::Selected
    } else if v.playing_playlist == v.active_playlist && v.playing_song == idx {
        Look::Current
    } else {
        Look::Plain
    }
}

/// Highlight of song `idx` of the open playlist.
pub fn song_look(v: &PlayerView, idx: usize) -> (l: Look)
    ensures
        l == spec_song_look(*v, idx),
{
    let focused = match v.panel {
        Panel::MainList => true,
        Panel::Sidebar => false,
    };
    if idx == v.selected_song && focused {
        Look::Selected
    } else if v.playing_playlist == v.active_playlist && v.playing_song == idx {
        Look::Current
    } else {
        Look::Plain
    }
}

/// Whether anything has been loaded for playing, which keeps the
/// now-playing panel on screen.
pub fn has_loaded_song(sink: Sink, is_playing: bool) -> (b: bool)
    ensures
        b == (sink == Sink::Loaded || is_playing),
{
    match sink {
        Sink::Loaded => true,
        _ => is_playing,
    }
}

} // verus!
