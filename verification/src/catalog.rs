//! The music library: songs and playlists, built from album records.

use crate::format::{clock_text, date_added_text, format_date_added, format_seconds};
use crate::text::{byte_len, decimal, has_byte_prefix, push_char, push_decimal};
use vstd::prelude::*;

verus! {

/// One track as the player shows it.
#[derive(Clone, Debug)]
pub struct Song {
    pub id: String,
    pub title: String,
    pub artist: String,
    pub album: String,
    pub date_added: String,
    pub duration: String,
    pub duration_seconds: u32,
}

/// An album shown as a playlist.
#[derive(Clone, Debug)]
pub struct Playlist {
    pub id: String,
    pub name: String,
    pub songs: Vec<Song>,
}

/// Number of tracks of playlist `i`.
pub open spec fn song_count(pls: Seq<Playlist>, i: int) -> nat {
    pls[i].songs@.len()
}

/// Sizes that any catalog held in memory respects: a `Vec` of songs or of
/// playlists is far shorter than half the address space.
pub open spec fn catalog_fits(pls: Seq<Playlist>) -> bool {
    &&& pls.len() <= usize::MAX / 2
    &&& forall|i: int| 0 <= i < pls.len() ==> song_count(pls, i) <= usize::MAX / 2
}


/// One track of an album record, as the album list describes it.
#[derive(Clone, Debug)]
pub struct TrackRecord {
    pub track_number: u32,
    pub track_name: String,
    pub date_added: String,
}

/// One album of the album list.
#[derive(Clone, Debug)]
pub struct AlbumRecord {
    pub album_title: String,
    pub release_year: u32,
    pub total_tracks: u32,
    pub tracks: Vec<TrackRecord>,
}

/// Samples in one MPEG frame, by the header's version code (3: MPEG-1,
/// 2: MPEG-2, 0: MPEG-2.5) and layer code (3: layer I, 2: layer II, 1: layer III).
pub open spec fn samples_per_frame(version: int, layer: int) -> int {
    if layer == 3 {
        384
    } else if layer == 2 {
        1152
    } else if version == 3 {
        1152
    } else {
        576
    }
}

/// Bytes of side information between an MPEG header and a Xing/Info tag,
/// by version code and channel mode code (3: mono).
pub open spec fn side_info_len(version: int, mode: int) -> int {
    if version == 3 {
        if mode == 3 { 17 } else { 32 }
    } else {
        if mode == 3 { 9 } else { 17 }
    }
}

/// The big-endian 32-bit number at `k`.
pub open spec fn be_u32_at(b: Seq<u8>, k: int) -> int {
    b[k] * 16777216 + b[k + 1] * 65536 + b[k + 2] * 256 + b[k + 3]
}

/// The little-endian 32-bit number at `k`.
pub open spec fn le_u32_at(b: Seq<u8>, k: int) -> int {
    b[k] + b[k + 1] * 256 + b[k + 2] * 65536 + b[k + 3] * 16777216
}

/// Frames times samples per frame beyond which that total, counted in
/// nanoseconds, no longer fits in `u64`.
pub open spec fn max_sample_total() -> int {
    18446744073
}

/// At offset `i` stands an MPEG header (sync bits set, a version, layer and
/// sampling rate that are not reserved) followed, past its side
/// information, by a Xing or Info tag that carries a frame count, and that
/// count times the samples per frame exceeds `max_sample_total()`.
pub open spec fn xing_overflow_at(b: Seq<u8>, i: int) -> bool {
    0 <= i && i + 4 <= b.len() && b[i] == 0xFF && b[i + 1] >= 0xE0 && {
        let version = ((b[i + 1] / 8) % 4) as int;
        let layer = ((b[i + 1] / 2) % 4) as int;
        let rate = ((b[i + 2] / 4) % 4) as int;
        let mode = (b[i + 3] / 64) as int;
        let j = i + 4 + side_info_len(version, mode);
        &&& version != 1 && layer != 0 && rate != 3
        &&& j + 12 <= b.len()
        &&& (b[j] == 88 && b[j + 1] == 105 && b[j + 2] == 110 && b[j + 3] == 103) || (b[j]
            == 73 && b[j + 1] == 110 && b[j + 2] == 102 && b[j + 3] == 111)
        &&& b[j + 7] % 2 == 1
        &&& be_u32_at(b, j + 8) * samples_per_frame(version, layer) > max_sample_total()
    }
}

/// At offset `i` stands an APEv2 tag ("APETAGEX") whose size plus 16 does
/// not fit in `usize` (possible where `usize` has 32 bits).
pub open spec fn ape_overflow_at(b: Seq<u8>, i: int) -> bool {
    &&& 0 <= i && i + 16 <= b.len()
    &&& b[i] == 65 && b[i + 1] == 80 && b[i + 2] == 69 && b[i + 3] == 84
    &&& b[i + 4] == 65 && b[i + 5] == 71 && b[i + 6] == 69 && b[i + 7] == 88
    &&& le_u32_at(b, i + 12) + 16 > usize::MAX
}

/// No offset of `b` holds a header on which `mp3_duration::from_read`
/// overflows its arithmetic: a Xing/Info frame count too large for the
/// nanosecond total, or an APEv2 size too large for `usize`.
pub open spec fn mp3_counts_fit(b: Seq<u8>) -> bool {
    forall|i: int| !#[trigger] xing_overflow_at(b, i) && !ape_overflow_at(b, i)
}

/// The length in whole seconds that `mp3_duration::from_read` measures for
/// an MP3 stream, or `None` where it reports an error.
pub uninterp spec fn mp3_duration_secs(bytes: Seq<u8>) -> Option<u64>;

/// Calls `mp3_duration::from_read` on a cursor over `bytes` and keeps the
/// whole seconds of the measured length (`Duration::as_secs`), or `None`
/// for any error. The measurement walks the MPEG frames of the stream and is
/// named, not stated. The crate's arithmetic overflows, and panics in a build
/// with overflow checks, on a Xing/Info frame count or an APEv2 size that
/// `mp3_counts_fit` rules out; which offsets its scan reaches depends on the
/// frames before them, so the requirement rules such headers out at every
/// offset.
#[verifier::external_body]
fn mp3_seconds(bytes: &[u8]) -> (r: Option<u64>)
    requires
        mp3_counts_fit(bytes@),
    ensures
        r == mp3_duration_secs(bytes@),
{
    let mut cursor = std::io::Cursor::new(bytes);
    match mp3_duration::from_read(&mut cursor) {
        Ok(d) => Some(d.as_secs()),
        Err(_) => None,
    }
}

fn xing_overflow_check(b: &[u8], i: usize) -> (r: bool)
    requires
        i < b@.len(),
    ensures
        r == xing_overflow_at(b@, i as int),
{
    let n = b.len();
    if n - i < 4 {
        return false;
    }
    let b0 = b[i];
    let b1 = b[i + 1];
    let b2 = b[i + 2];
    let b3 = b[i + 3];
    if !(b0 == 0xFF && b1 >= 0xE0) {
        return false;
    }
    let version = (b1 / 8) % 4;
    let layer = (b1 / 2) % 4;
    let rate = (b2 / 4) % 4;
    let mode = b3 / 64;
    if version == 1 || layer == 0 || rate == 3 {
        return false;
    }
    let side: usize = if version == 3 {
        if mode == 3 { 17 } else { 32 }
    } else {
        if mode == 3 { 9 } else { 17 }
    };
    if n - i < 16 + side {
        return false;
    }
    let j = i + 4 + side;
    let tag = (b[j] == 88 && b[j + 1] == 105 && b[j + 2] == 110 && b[j + 3] == 103) || (b[j]
        == 73 && b[j + 1] == 110 && b[j + 2] == 102 && b[j + 3] == 111);
    if !tag || b[j + 7] % 2 != 1 {
        return false;
    }
    let count: u64 = b[j + 8] as u64 * 16777216 + b[j + 9] as u64 * 65536 + b[j + 10] as u64
        * 256 + b[j + 11] as u64;
    let samples: u64 = if layer == 3 {
        384
    } else if layer == 2 {
        1152
    } else if version == 3 {
        1152
    } else {
        576
    };
    assert(count * samples <= 0xFFFF_FFFF * 1152) by (nonlinear_arith)
        requires
            count <= 0xFFFF_FFFF,
            samples <= 1152,
    ;
    count * samples > 18446744073
}

fn ape_overflow_check(b: &[u8], i: usize) -> (r: bool)
    requires
        i < b@.len(),
    ensures
        r == ape_overflow_at(b@, i as int),
{
    let n = b.len();
    if n - i < 16 {
        return false;
    }
    if !(b[i] == 65 && b[i + 1] == 80 && b[i + 2] == 69 && b[i + 3] == 84 && b[i + 4] == 65 && b[i
        + 5] == 71 && b[i + 6] == 69 && b[i + 7] == 88) {
        return false;
    }
    let size: u64 = b[i + 12] as u64 + b[i + 13] as u64 * 256 + b[i + 14] as u64 * 65536 + b[i
        + 15] as u64 * 16777216;
    size + 16 > usize::MAX as u64
}

/// Whether `mp3_duration::from_read` can measure `bytes` without
/// overflowing, as `mp3_counts_fit` states it.
pub fn check_mp3_counts(bytes: &[u8]) -> (ok: bool)
    ensures
        ok == mp3_counts_fit(bytes@),
{
    let mut i: usize = 0;
    while i < bytes.len()
        invariant
            i <= bytes@.len(),
            forall|k: int| 0 <= k < i ==> !#[trigger] xing_overflow_at(bytes@, k) && !ape_overflow_at(bytes@, k),
        decreases bytes@.len() - i,
    {
        if xing_overflow_check(bytes, i) || ape_overflow_check(bytes, i) {
            assert(xing_overflow_at(bytes@, i as int) || ape_overflow_at(bytes@, i as int));
            return false;
        }
        i = i + 1;
    }
    true
}

/// Unicode lower case of `s`, as `str::to_lowercase` maps it (a function of
/// the characters alone; Rust's mapping ignores the locale).
pub uninterp spec fn lowercase(s: Seq<char>) -> Seq<char>;

/// Calls `str::to_lowercase`.
#[verifier::external_body]
fn to_lowercase(s: &str) -> (r: String)
    ensures
        r@ == lowercase(s@),
{
    s.to_lowercase()
}

/// The length shown for a track: the measured length of its audio, three
/// minutes where the audio cannot be measured, and without audio a made-up
/// length between three and four and a half minutes derived from its name
/// (in bytes) and number.
pub open spec fn track_seconds(audio: Option<Seq<u8>>, name: Seq<char>, number: u32) -> u32 {
    match audio {
        Some(bytes) => match mp3_duration_secs(bytes) {
            Some(secs) => secs as u32,
            None => 180,
        },
        None => (180 + (byte_len(name) * 7 + number * 13) % 90) as u32,
    }
}

/// Audio that `track_duration_seconds` can measure: none, or bytes that
/// `mp3_counts_fit`.
pub open spec fn audio_fits(audio: Option<&[u8]>) -> bool {
    match audio {
        Some(b) => mp3_counts_fit(b@),
        None => true,
    }
}

pub open spec fn audio_view(audio: Option<&[u8]>) -> Option<Seq<u8>> {
    match audio {
        Some(b) => Some(b@),
        None => None,
    }
}

/// How long a track plays, in seconds.
pub fn track_duration_seconds(audio: Option<&[u8]>, track_name: &str, track_number: u32) -> (secs:
    u32)
    requires
        audio_fits(audio),
        byte_len(track_name@) * 7 + track_number * 13 <= usize::MAX,
    ensures
        secs == track_seconds(audio_view(audio), track_name@, track_number),
{
    match audio {
        Some(bytes) => match mp3_seconds(bytes) {
            Some(s) => s as u32,
            None => 180,
        },
        None => {
            proof {
                crate::text::lemma_byte_len_is_encoding_len(track_name@);
            }
            let name_bytes = track_name.len();
            180 + ((name_bytes * 7 + track_number as usize * 13) % 90) as u32
        },
    }
}

/// A playlist's id: its name in lower case with spaces turned into underscores.
pub open spec fn playlist_id(name: Seq<char>) -> Seq<char> {
    let l = lowercase(name);
    Seq::new(l.len(), |i: int| if l[i] == ' ' { '_' } else { l[i] })
}

fn make_playlist_id(name: &str) -> (id: String)
    ensures
        id@ == playlist_id(name@),
{
    let lower = to_lowercase(name);
    let l = lower.as_str();
    let n = l.unicode_len();
    let mut out = String::new();
    let mut i: usize = 0;
    while i < n
        invariant
            n == l@.len(),
            l@ == lowercase(name@),
            i <= n,
            out@ =~= Seq::new(i as nat, |j: int| if l@[j] == ' ' { '_' } else { l@[j] }),
        decreases n - i,
    {
        let c = l.get_char(i);
        if c == ' ' {
            push_char(&mut out, '_');
        } else {
            push_char(&mut out, c);
        }
        i = i + 1;
    }
    out
}

/// Number of tracks in the albums before album `i`.
pub open spec fn tracks_before(albums: Seq<AlbumRecord>, i: int) -> nat
    decreases i,
{
    if i <= 0 {
        0
    } else {
        tracks_before(albums, i - 1) + albums[i - 1].tracks@.len()
    }
}

/// `song` is track `track` of album `album_title` with audio `audio`, listed
/// under number `id`.
pub open spec fn song_from(
    song: Song,
    album_title: Seq<char>,
    track: TrackRecord,
    audio: Option<Seq<u8>>,
    id: nat,
) -> bool {
    let secs = track_seconds(audio, track.track_name@, track.track_number);
    &&& song.id@ == decimal(id)
    &&& song.title@ == track.track_name@
    &&& song.artist@ == "BTS"@
    &&& song.album@ == album_title
    &&& song.date_added@ == date_added_text(track.date_added@)
    &&& song.duration@ == clock_text(secs as nat)
    &&& song.duration_seconds == secs
}

/// `pl` is the playlist of album `albums[i]` whose audio is `audio[i]`.
pub open spec fn playlist_from(
    pl: Playlist,
    albums: Seq<AlbumRecord>,
    audio: Seq<Seq<Option<Seq<u8>>>>,
    i: int,
) -> bool {
    let album = albums[i];
    &&& pl.name@ == album.album_title@
    &&& pl.id@ == playlist_id(album.album_title@)
    &&& pl.songs@.len() == album.tracks@.len()
    &&& forall|j: int|
        0 <= j < pl.songs@.len() ==> song_from(
            #[trigger] pl.songs@[j],
            album.album_title@,
            album.tracks@[j],
            audio[i][j],
            (tracks_before(albums, i) + j + 1) as nat,
        )
}

pub open spec fn audio_views(audio: Seq<Vec<Option<&[u8]>>>) -> Seq<Seq<Option<Seq<u8>>>> {
    audio.map_values(|v: Vec<Option<&[u8]>>| v@.map_values(|a: Option<&[u8]>| audio_view(a)))
}

/// The inputs on which building the catalog computes without overflow or
/// panics: every album has its audio list, all audio passes
/// `mp3_counts_fit`, every date can be cut at ten bytes, names are of sane
/// size and the running song number stays an `i32`.
pub open spec fn albums_ok(albums: Seq<AlbumRecord>, audio: Seq<Vec<Option<&[u8]>>>) -> bool {
    &&& audio.len() == albums.len()
    &&& forall|i: int| 0 <= i < albums.len() ==> (#[trigger] audio[i])@.len() == albums[i].tracks@.len()
    &&& forall|i: int, j: int|
        0 <= i < albums.len() && 0 <= j < albums[i].tracks@.len() ==> {
            let t = #[trigger] albums[i].tracks@[j];
            &&& byte_len(t.date_added@) >= 10 ==> has_byte_prefix(t.date_added@, 10)
            &&& byte_len(t.track_name@) * 7 + t.track_number * 13 <= usize::MAX
        }
    &&& forall|i: int, j: int|
        0 <= i < albums.len() && 0 <= j < audio[i]@.len() ==> audio_fits(#[trigger] audio[i]@[j])
    &&& tracks_before(albums, albums.len() as int) < i32::MAX
}

proof fn lemma_tracks_before_monotone(albums: Seq<AlbumRecord>, i: int, k: int)
    requires
        0 <= i <= k <= albums.len(),
    ensures
        tracks_before(albums, i) <= tracks_before(albums, k),
    decreases k - i,
{
    if i < k {
        lemma_tracks_before_monotone(albums, i, k - 1);
    }
}

fn build_song(album_title: &String, track: &TrackRecord, audio: Option<&[u8]>, id: i32) -> (song:
    Song)
    requires
        id >= 0,
        audio_fits(audio),
        byte_len(track.date_added@) >= 10 ==> has_byte_prefix(track.date_added@, 10),
        byte_len(track.track_name@) * 7 + track.track_number * 13 <= usize::MAX,
    ensures
        song_from(song, album_title@, *track, audio_view(audio), id as nat),
{
    let secs = track_duration_seconds(audio, track.track_name.as_str(), track.track_number);
    let mut id_text = String::new();
    push_decimal(&mut id_text, id as u64);
    Song {
        id: id_text,
        title: track.track_name.clone(),
        artist: String::from_str("BTS"),
        album: album_title.clone(),
        date_added: format_date_added(track.date_added.as_str()),
        duration: format_seconds(secs),
        duration_seconds: secs,
    }
}

/// Builds the playlists from the album list: one per album, its tracks in
/// order and numbered from 1 across all albums; without albums, a single
/// empty "No Albums Loaded" playlist. `audio[i][j]` is the embedded audio of
/// track `j` of album `i`, if any.
pub fn build_playlists(albums: &Vec<AlbumRecord>, audio: &Vec<Vec<Option<&[u8]>>>) -> (pls: Vec<
    Playlist,
>)
    requires
        albums_ok(albums@, audio@),
    ensures
        albums@.len() > 0 ==> pls@.len() == albums@.len() && forall|i: int|
            0 <= i < pls@.len() ==> playlist_from(
                #[trigger] pls@[i],
                albums@,
                audio_views(audio@),
                i,
            ),
        albums@.len() == 0 ==> pls@.len() == 1 && pls@[0].id@ == "empty"@ && pls@[0].name@
            == "No Albums Loaded"@ && pls@[0].songs@.len() == 0,
{
    let mut pls: Vec<Playlist> = Vec::new();
    let mut next_id: i32 = 1;
    let mut i: usize = 0;
    while i < albums.len()
        invariant
            albums_ok(albums@, audio@),
            i <= albums@.len(),
            pls@.len() == i,
            next_id == tracks_before(albums@, i as int) + 1,
            forall|k: int|
                0 <= k < i ==> playlist_from(#[trigger] pls@[k], albums@, audio_views(audio@), k),
        decreases albums@.len() - i,
    {
        let album = &albums[i];
        let sounds = &audio[i];
        proof {
            lemma_tracks_before_monotone(albums@, i + 1, albums@.len() as int);
        }
        let mut songs: Vec<Song> = Vec::new();
        let mut j: usize = 0;
        while j < album.tracks.len()
            invariant
                albums_ok(albums@, audio@),
                i < albums@.len(),
                *album == albums@[i as int],
                *sounds == audio@[i as int],
                sounds@.len() == album.tracks@.len(),
                j <= album.tracks@.len(),
                songs@.len() == j,
                next_id == tracks_before(albums@, i as int) + j + 1,
                tracks_before(albums@, i + 1) < i32::MAX,
                forall|k: int|
                    0 <= k < j ==> song_from(
                        #[trigger] songs@[k],
                        album.album_title@,
                        album.tracks@[k],
                        audio_view(sounds@[k]),
                        (tracks_before(albums@, i as int) + k + 1) as nat,
                    ),
            decreases album.tracks@.len() - j,
        {
            let song = build_song(&album.album_title, &album.tracks[j], sounds[j], next_id);
            songs.push(song);
            next_id = next_id + 1;
            j = j + 1;
        }
        let pl = Playlist {
            id: make_playlist_id(album.album_title.as_str()),
            name: album.album_title.clone(),
            songs,
        };
        proof {
            assert(audio_views(audio@)[i as int] =~= sounds@.map_values(
                |a: Option<&[u8]>| audio_view(a),
            ));
        }
        pls.push(pl);
        i = i + 1;
    }
    if pls.len() == 0 {
        pls.push(
            Playlist {
                id: String::from_str("empty"),
                name: String::from_str("No Albums Loaded"),
                songs: Vec::new(),
            },
        );
    }
    pls
}

} // verus!
