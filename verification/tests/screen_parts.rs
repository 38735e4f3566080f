use gift::card::{card_input, content_width, launch_mode, tap_me_hit, text_width, CardAction, CardInput, Launch};
use gift::text::same_text;
use gift::catalog::{Playlist, Song};
use gift::grid::{cell_index, push_capped, row_segments, Segment, AMP_BUF_CAP};
use gift::player::{Key, Panel, Player, Sink};
use gift::rng::Rng;
use gift::screen::{
    album_theme, art_box, bar_cell, column_widths, contains_text, display_name, has_loaded_song,
    placeholder_row, playlist_summary, playlist_total_seconds, queue_title, sidebar_look, song_look,
    volume_label, AlbumTheme, BarCell, Look,
};
use gift::wrap::wrap_text;
use std::collections::VecDeque;

fn song(secs: u32) -> Song {
    Song {
        id: "1".into(),
        title: "t".into(),
        artist: "BTS".into(),
        album: "a".into(),
        date_added: String::new(),
        duration: String::new(),
        duration_seconds: secs,
    }
}

#[test]
fn row_segments_runs() {
    let segs = row_segments(&vec![false, false, true, false, true, true, false]);
    assert_eq!(
        segs,
        vec![
            Segment::Blank { start: 0, len: 2 },
            Segment::Cell(2),
            Segment::Blank { start: 3, len: 1 },
            Segment::Cell(4),
            Segment::Cell(5),
            Segment::Blank { start: 6, len: 1 },
        ]
    );
    assert!(row_segments(&vec![]).is_empty());
    assert_eq!(row_segments(&vec![false; 5]), vec![Segment::Blank { start: 0, len: 5 }]);
}

#[test]
fn cell_index_bounds() {
    assert_eq!(cell_index(3, 2, 10, 5), Some(23));
    assert_eq!(cell_index(-1, 2, 10, 5), None);
    assert_eq!(cell_index(10, 2, 10, 5), None);
    assert_eq!(cell_index(0, 5, 10, 5), None);
    assert_eq!(cell_index(0, 0, 0, 0), None);
}

#[test]
fn push_capped_drops_oldest() {
    let mut b: VecDeque<u32> = VecDeque::new();
    for i in 0..5 {
        push_capped(&mut b, 3, i);
    }
    assert_eq!(b, VecDeque::from(vec![2, 3, 4]));
    assert_eq!(AMP_BUF_CAP, 44_100 * 2);
    let mut z: VecDeque<u32> = VecDeque::new();
    push_capped(&mut z, 0, 1);
    push_capped(&mut z, 0, 2);
    assert_eq!(z, VecDeque::from(vec![2]));
}

#[test]
fn rng_xorshift() {
    let mut r = Rng::from_nanos(0);
    assert_eq!(r.next_bits(), 528452);
    assert_eq!(r.next_bits(), 562984862711842);
    let mut r2 = Rng::from_nanos((1u128 << 64) + 6);
    let mut r3 = Rng::from_nanos(7);
    assert_eq!(r2.next_bits(), r3.next_bits());
    assert!(Rng::new().is_some());
}

#[test]
fn card_keys_and_wheel() {
    assert_eq!(card_input(0, CardInput::Key(Key::Up)), (0, CardAction::Nothing));
    assert_eq!(card_input(0, CardInput::Key(Key::Down)), (1, CardAction::Nothing));
    assert_eq!(card_input(u16::MAX, CardInput::ScrollDown), (u16::MAX, CardAction::Nothing));
    assert_eq!(card_input(4, CardInput::ScrollUp), (3, CardAction::Nothing));
    assert_eq!(card_input(4, CardInput::Key(Key::Char('q'))), (4, CardAction::Quit));
    assert_eq!(card_input(4, CardInput::Key(Key::Esc)), (4, CardAction::Quit));
    assert_eq!(card_input(4, CardInput::Key(Key::Enter)), (4, CardAction::OpenPlayer));
    assert_eq!(card_input(4, CardInput::Key(Key::Char('x'))), (4, CardAction::Nothing));
    assert_eq!(card_input(4, CardInput::Key(Key::Tab)), (4, CardAction::Nothing));
}

#[test]
fn card_widths() {
    assert_eq!(text_width(0), 1);
    assert_eq!(text_width(30), 30);
    assert_eq!(text_width(200), 60);
    assert_eq!(content_width(200, 77, 100), 100);
    assert_eq!(content_width(200, 77, 10), 77);
    assert_eq!(content_width(50, 77, 10), 50);
}

#[test]
fn card_tap_me() {
    let msg = "one two three";
    let lines = wrap_text(msg, 60).len();
    assert_eq!(lines, 1);
    // width 200, heart 77, banner 100: content 100 at x 50, heart at 50 + 11, button at 92..100
    let row = (48 + lines) as u16;
    assert!(tap_me_hit(200, 77, 100, msg, 0, 92, row));
    assert!(tap_me_hit(200, 77, 100, msg, 0, 99, row));
    assert!(!tap_me_hit(200, 77, 100, msg, 0, 100, row));
    assert!(!tap_me_hit(200, 77, 100, msg, 0, 91, row));
    assert!(!tap_me_hit(200, 77, 100, msg, 0, 95, row + 1));
    assert!(tap_me_hit(200, 77, 100, msg, 5, 95, row - 5));
}

#[test]
fn text_search_and_themes() {
    assert!(contains_text("Love Yourself 結 Answer", "Yourself"));
    assert!(contains_text("abc", ""));
    assert!(!contains_text("ab", "abc"));
    assert!(!contains_text("aab", "abb"));
    assert_eq!(album_theme("BTS ARIRANG"), AlbumTheme::Arirang);
    assert_eq!(album_theme("Proof"), AlbumTheme::Proof);
    assert_eq!(album_theme("Love Yourself 轉 Tear"), AlbumTheme::LoveYourself);
    assert_eq!(album_theme("The Most Beautiful Moment in Life"), AlbumTheme::MostBeautiful);
    assert_eq!(album_theme("Wings"), AlbumTheme::Default);
    assert_eq!(album_theme("Proof of ARIRANG"), AlbumTheme::Arirang);
}

#[test]
fn display_name_strips() {
    assert_eq!(display_name("Love Yourself 轉 'Tear'"), "Love Yourself  'Tear'");
    assert_eq!(display_name("  化様年華 Pt.1 "), "Pt.1");
    assert_eq!(display_name("한국"), "");
    assert_eq!(display_name(" \t"), "");
}

#[test]
fn volume_labels() {
    assert_eq!(volume_label(0), "MUTE");
    assert_eq!(volume_label(55), "55%");
    assert_eq!(volume_label(100), "100%");
}

#[test]
fn queue_titles() {
    assert_eq!(queue_title("Butter", 10), "Butter");
    assert_eq!(queue_title("Butter", 6), "Butter");
    assert_eq!(queue_title("Permission to Dance", 8), "Permiss…");
    assert_eq!(queue_title("Butter", 0), "…");
    assert_eq!(queue_title("Butter", 1), "…");
    assert_eq!(queue_title("éé", 3), "é…");
}

#[test]
fn playlist_totals() {
    let p = Playlist { id: "x".into(), name: "X".into(), songs: vec![song(200), song(3500), song(10)] };
    assert_eq!(playlist_total_seconds(&p), 3710);
    assert_eq!(playlist_summary(&p), "• 3 songs, 1 hr 1 min");
    let e = Playlist { id: "e".into(), name: "E".into(), songs: vec![] };
    assert_eq!(playlist_summary(&e), "• 0 songs, 0 min 0 sec");
}

#[test]
fn column_and_art_sizes() {
    assert_eq!(column_widths(100), (34, 34));
    assert_eq!(column_widths(10), (10, 5));
    assert_eq!(column_widths(0), (10, 5));
    let b = art_box(40, 20);
    assert_eq!((b.rows, b.cols, b.pad), (14, 28, 6));
    let s = art_box(6, 3);
    assert_eq!((s.rows, s.cols, s.pad), (4, 6, 0));
}

#[test]
fn placeholder_rows() {
    assert_eq!(placeholder_row(0, 5, 4, 2), "  ┌───┐");
    assert_eq!(placeholder_row(3, 5, 4, 0), "└───┘");
    assert_eq!(placeholder_row(1, 5, 4, 0), "│   │");
    assert_eq!(placeholder_row(2, 17, 4, 1), " │ [ album art ] │");
    assert_eq!(placeholder_row(2, 18, 4, 0), "│ [ album art ]  │");
    assert_eq!(placeholder_row(0, 1, 1, 0), "┌┐");
}

#[test]
fn bar_cells() {
    // bar of 10, label of 4 centred at 3..7, 5 played
    assert_eq!(bar_cell(0, 5, 10, 4, false), BarCell::Played);
    assert_eq!(bar_cell(3, 5, 10, 4, false), BarCell::Label { index: 0, played: true });
    assert_eq!(bar_cell(6, 5, 10, 4, false), BarCell::Label { index: 3, played: false });
    assert_eq!(bar_cell(8, 5, 10, 4, false), BarCell::Unplayed);
    assert_eq!(bar_cell(5, 5, 10, 4, true), BarCell::Thumb);
    assert_eq!(bar_cell(9, 20, 10, 4, true), BarCell::Thumb);
    // label wider than the bar is hidden
    assert_eq!(bar_cell(1, 0, 3, 4, false), BarCell::Unplayed);
}

#[test]
fn looks() {
    let pls = vec![
        Playlist { id: "a".into(), name: "A".into(), songs: vec![song(1), song(2)] },
        Playlist { id: "b".into(), name: "B".into(), songs: vec![song(1)] },
    ];
    let mut p = Player::new(&pls);
    assert_eq!(sidebar_look(&p.view, 0), Look::Selected);
    assert_eq!(sidebar_look(&p.view, 1), Look::Plain);
    p.handle_key(&pls, Key::Down, Sink::Empty);
    assert_eq!(sidebar_look(&p.view, 0), Look::Current);
    p.handle_key(&pls, Key::Up, Sink::Empty);
    p.handle_key(&pls, Key::Tab, Sink::Empty);
    assert_eq!(p.view.panel, Panel::MainList);
    assert_eq!(song_look(&p.view, 0), Look::Selected);
    p.handle_key(&pls, Key::Down, Sink::Empty);
    assert_eq!(song_look(&p.view, 0), Look::Current);
    assert_eq!(song_look(&p.view, 1), Look::Selected);
    assert!(has_loaded_song(Sink::Loaded, false));
    assert!(has_loaded_song(Sink::Empty, true));
    assert!(!has_loaded_song(Sink::Missing, false));
}

#[test]
fn launch_modes() {
    assert_eq!(launch_mode(Some("--uninstall")), Launch::Uninstall);
    assert_eq!(launch_mode(Some("--uninstal")), Launch::Card);
    assert_eq!(launch_mode(Some("JIMIN")), Launch::Card);
    assert_eq!(launch_mode(None), Launch::Card);
    assert!(same_text("bébé", "bébé"));
    assert!(!same_text("bébé", "bebe"));
    assert!(!same_text("a", "ab"));
}
