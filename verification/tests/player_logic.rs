use gift::catalog::{build_playlists, check_mp3_counts, track_duration_seconds, AlbumRecord, Playlist, Song, TrackRecord};
use gift::layout::{contains_point, Area};
use gift::player::{
    click_target, command_of, Action, ClickTarget, Command, Key, MouseInput, MouseKind, Panel,
    Player, ScreenLayout, Sink,
};
use gift::queue::{ensure_queue, pop_next_song, QUEUE_LOOKAHEAD};
use std::collections::VecDeque;

fn song(title: &str, secs: u32) -> Song {
    Song {
        id: String::from("1"),
        title: title.to_string(),
        artist: String::from("BTS"),
        album: String::from("Album"),
        date_added: String::new(),
        duration: String::new(),
        duration_seconds: secs,
    }
}

fn catalog() -> Vec<Playlist> {
    vec![
        Playlist {
            id: "a".into(),
            name: "A".into(),
            songs: vec![song("a1", 3), song("a2", 100), song("a3", 100)],
        },
        Playlist { id: "b".into(), name: "B".into(), songs: vec![song("b1", 10), song("b2", 20)] },
        Playlist { id: "c".into(), name: "C".into(), songs: vec![] },
    ]
}

fn zero() -> Area {
    Area { x: 0, y: 0, width: 0, height: 0 }
}

fn layout() -> ScreenLayout {
    ScreenLayout {
        sidebar: Area { x: 0, y: 0, width: 20, height: 30 },
        sidebar_inner: Area { x: 2, y: 2, width: 16, height: 26 },
        player_inner: Area { x: 2, y: 32, width: 96, height: 6 },
        controls_row: 32,
        controls: Area { x: 33, y: 32, width: 32, height: 2 },
        progress_bar: Area { x: 2, y: 35, width: 96, height: 1 },
    }
}

#[test]
fn ensure_queue_fills_rounds() {
    let mut q = VecDeque::new();
    ensure_queue(&mut q, 2, 5);
    assert!(q.len() >= QUEUE_LOOKAHEAD);
    assert_eq!(q.len(), 52); // 13 rounds of 4
    for round in q.iter().copied().collect::<Vec<_>>().chunks(4) {
        let mut r = round.to_vec();
        r.sort();
        assert_eq!(r, vec![0, 1, 3, 4]);
    }
}

#[test]
fn ensure_queue_keeps_existing_and_small_playlists() {
    let mut q: VecDeque<usize> = (0..60).map(|i| i % 3).collect();
    let before = q.clone();
    ensure_queue(&mut q, 0, 3);
    assert_eq!(q, before);
    let mut q1: VecDeque<usize> = VecDeque::new();
    ensure_queue(&mut q1, 0, 1);
    assert!(q1.is_empty());
    let mut q2: VecDeque<usize> = vec![7].into();
    ensure_queue(&mut q2, 0, 0);
    assert_eq!(q2, VecDeque::from(vec![7]));
}

#[test]
fn ensure_queue_current_out_of_range() {
    let mut q = VecDeque::new();
    ensure_queue(&mut q, 9, 2);
    assert_eq!(q.len(), 50);
    assert!(q.iter().all(|&i| i < 2));
}

#[test]
fn pop_next_song_from_queue() {
    let mut q: VecDeque<usize> = vec![4, 1].into();
    let mut more: VecDeque<usize> = (0..60).map(|i| i % 5).collect();
    more.push_front(4);
    assert_eq!(pop_next_song(&mut more, 0, 5), 4);
    assert_eq!(more.len(), 60);
    let n = pop_next_song(&mut q, 0, 5);
    assert_eq!(n, 4);
    assert!(q.len() >= QUEUE_LOOKAHEAD - 1);
    assert_eq!(q[0], 1);
}

#[test]
fn pop_next_song_single_track() {
    let mut q: VecDeque<usize> = VecDeque::new();
    assert_eq!(pop_next_song(&mut q, 0, 1), 0);
    let mut q2: VecDeque<usize> = vec![0, 0].into();
    assert_eq!(pop_next_song(&mut q2, 0, 1), 0);
    assert_eq!(q2.len(), 1);
}

#[test]
fn pop_next_song_never_repeats_current_first() {
    for _ in 0..20 {
        let mut q = VecDeque::new();
        let n = pop_next_song(&mut q, 1, 3);
        assert!(n == 0 || n == 2);
    }
}

#[test]
fn command_of_keys() {
    assert_eq!(command_of(Key::Char('q')), Command::QuitApp);
    assert_eq!(command_of(Key::Esc), Command::Back);
    assert_eq!(command_of(Key::Char('k')), Command::Up);
    assert_eq!(command_of(Key::Char('j')), Command::Down);
    assert_eq!(command_of(Key::Tab), Command::TogglePanel);
    assert_eq!(command_of(Key::Right), Command::SeekForward);
    assert_eq!(command_of(Key::Char(' ')), Command::TogglePlay);
    assert_eq!(command_of(Key::Char('N')), Command::Next);
    assert_eq!(command_of(Key::Char('p')), Command::Previous);
    assert_eq!(command_of(Key::Char('=')), Command::VolumeUp);
    assert_eq!(command_of(Key::Char('-')), Command::VolumeDown);
    assert_eq!(command_of(Key::Char('x')), Command::Nothing);
    assert_eq!(command_of(Key::Left), Command::SeekBack);
}

#[test]
fn player_navigation_and_play() {
    let pls = catalog();
    let mut p = Player::new(&pls);
    assert_eq!(p.view.volume, 50);
    assert_eq!(p.handle_key(&pls, Key::Down, Sink::Empty), Action::Nothing);
    assert_eq!(p.view.selected_playlist, 1);
    p.handle_key(&pls, Key::Enter, Sink::Empty);
    assert_eq!(p.view.active_playlist, 1);
    p.handle_key(&pls, Key::Tab, Sink::Empty);
    assert_eq!(p.view.panel, Panel::MainList);
    p.handle_key(&pls, Key::Down, Sink::Empty);
    p.handle_key(&pls, Key::Down, Sink::Empty);
    assert_eq!(p.view.selected_song, 1);
    assert_eq!(p.view.table_row, 2);
    let a = p.handle_key(&pls, Key::Enter, Sink::Empty);
    assert_eq!(a, Action::Play { playlist: 1, song: 1 });
    assert!(p.view.is_playing);
    assert_eq!((p.view.playing_playlist, p.view.playing_song), (1, 1));
    p.handle_key(&pls, Key::Up, Sink::Loaded);
    assert_eq!(p.view.selected_song, 0);
    assert_eq!(p.view.table_row, 0);
}

#[test]
fn player_toggle_and_volume() {
    let pls = catalog();
    let mut p = Player::new(&pls);
    assert_eq!(p.handle_key(&pls, Key::Char(' '), Sink::Empty), Action::Play { playlist: 0, song: 0 });
    assert_eq!(p.handle_key(&pls, Key::Char(' '), Sink::Loaded), Action::Pause);
    assert_eq!(p.handle_key(&pls, Key::Char(' '), Sink::Loaded), Action::Resume);
    assert_eq!(p.handle_key(&pls, Key::Char(' '), Sink::Missing), Action::Nothing);
    assert!(!p.view.is_playing);
    for _ in 0..20 {
        p.handle_key(&pls, Key::Char('+'), Sink::Loaded);
    }
    assert_eq!(p.view.volume, 100);
    assert_eq!(p.handle_key(&pls, Key::Char('-'), Sink::Loaded), Action::SetVolume { volume: 95 });
    assert_eq!(p.handle_key(&pls, Key::Char('-'), Sink::Missing), Action::Nothing);
    assert_eq!(p.view.volume, 90);
    for _ in 0..30 {
        p.handle_key(&pls, Key::Char('-'), Sink::Loaded);
    }
    assert_eq!(p.view.volume, 0);
}

#[test]
fn volume_stays_in_steps_of_five() {
    let pls = catalog();
    let mut p = Player::new(&pls);
    assert_eq!(p.view.volume, 50);
    let keys = "++-+++=-----+-+++++++++++-=-";
    for (i, c) in keys.chars().enumerate() {
        let sink = if i % 3 == 0 { Sink::Missing } else { Sink::Loaded };
        let action = p.handle_key(&pls, Key::Char(c), sink);
        assert!(p.view.volume <= 100 && p.view.volume % 5 == 0);
        if sink == Sink::Loaded {
            assert_eq!(action, Action::SetVolume { volume: p.view.volume });
        }
        p.second_elapsed(&pls, Sink::Loaded);
        assert!(p.view.volume <= 100 && p.view.volume % 5 == 0);
    }
    assert_eq!(p.view.volume, 95);
}

#[test]
fn player_next_previous() {
    let pls = catalog();
    let mut p = Player::new(&pls);
    let a = p.handle_key(&pls, Key::Char('p'), Sink::Loaded);
    assert_eq!(a, Action::Play { playlist: 0, song: 2 });
    let a = p.handle_key(&pls, Key::Char('n'), Sink::Loaded);
    match a {
        Action::Play { playlist: 0, song } => assert!(song == 0 || song == 1),
        other => panic!("unexpected {:?}", other),
    }
    assert!(p.queue.len() >= QUEUE_LOOKAHEAD - 1);
    assert!(p.queue.iter().all(|&i| i < 3));
    assert_eq!(p.view.play_seconds, 0);
}

#[test]
fn player_allows_only_playable_selection() {
    let pls = catalog();
    let mut p = Player::new(&pls);
    p.handle_key(&pls, Key::Down, Sink::Empty);
    p.handle_key(&pls, Key::Down, Sink::Empty);
    p.handle_key(&pls, Key::Enter, Sink::Empty);
    assert_eq!(p.view.active_playlist, 2);
    assert!(!p.allows(&pls, Command::TogglePlay, Sink::Empty));
    assert!(p.allows(&pls, Command::TogglePlay, Sink::Loaded));
    p.handle_key(&pls, Key::Tab, Sink::Empty);
    assert!(!p.allows(&pls, Command::Enter, Sink::Empty));
    assert!(p.allows(&pls, Command::Next, Sink::Empty));
}

#[test]
fn player_seconds_without_sink() {
    let pls = catalog();
    let mut p = Player::new(&pls);
    p.handle_key(&pls, Key::Char(' '), Sink::Missing);
    assert!(p.view.is_playing);
    assert_eq!(p.second_elapsed(&pls, Sink::Missing), Action::Nothing);
    assert_eq!(p.view.play_seconds, 1);
    assert_eq!(p.second_elapsed(&pls, Sink::Missing), Action::Nothing);
    match p.second_elapsed(&pls, Sink::Missing) {
        Action::Play { playlist: 0, song } => assert!(song == 1 || song == 2),
        other => panic!("unexpected {:?}", other),
    }
    assert_eq!(p.view.play_seconds, 0);
}

#[test]
fn player_seconds_with_sink() {
    let pls = catalog();
    let mut p = Player::new(&pls);
    assert_eq!(p.second_elapsed(&pls, Sink::Loaded), Action::Nothing);
    assert_eq!(p.view.play_seconds, 0);
    p.handle_key(&pls, Key::Char(' '), Sink::Loaded);
    p.second_elapsed(&pls, Sink::Loaded);
    p.second_elapsed(&pls, Sink::Loaded);
    assert_eq!(p.view.play_seconds, 2);
    assert!(matches!(p.second_elapsed(&pls, Sink::Empty), Action::Play { playlist: 0, .. }));
    assert_eq!(p.view.play_seconds, 0);
}

#[test]
fn player_sidebar_scroll() {
    let pls = catalog();
    let mut p = Player::new(&pls);
    p.view.sidebar_scroll = 10;
    p.scroll_sidebar(5);
    assert_eq!(p.view.sidebar_scroll, 3);
    p.view.sidebar_scroll = 0;
    p.handle_key(&pls, Key::Down, Sink::Empty);
    p.handle_key(&pls, Key::Down, Sink::Empty);
    p.scroll_sidebar(4);
    // line 3 + 2*2 = 7 must be visible in [scroll, scroll + 4)
    assert_eq!(p.view.sidebar_scroll, 4);
    p.scroll_sidebar(0);
    assert_eq!(p.view.sidebar_scroll, 4);
}

#[test]
fn player_marquee_and_seek() {
    let pls = catalog();
    let mut p = Player::new(&pls);
    p.advance_marquee();
    p.advance_marquee();
    assert_eq!(p.view.marquee_offset, 2);
    assert_eq!(p.seek(42), Action::Seek { playlist: 0, song: 0, seconds: 42 });
    assert_eq!(p.view.play_seconds, 42);
}

#[test]
fn click_targets() {
    let l = layout();
    assert_eq!(click_target(&l, 5, 10), ClickTarget::Sidebar);
    // controls centre column: 33 + 32 / 2 = 49
    assert_eq!(click_target(&l, 43, 32), ClickTarget::Previous);
    assert_eq!(click_target(&l, 46, 32), ClickTarget::Previous);
    assert_eq!(click_target(&l, 47, 32), ClickTarget::TogglePlay);
    assert_eq!(click_target(&l, 51, 32), ClickTarget::TogglePlay);
    assert_eq!(click_target(&l, 52, 32), ClickTarget::Next);
    assert_eq!(click_target(&l, 56, 32), ClickTarget::Next);
    assert_eq!(click_target(&l, 57, 32), ClickTarget::Nothing);
    assert_eq!(click_target(&l, 12, 35), ClickTarget::Bar { offset: 10, width: 96 });
    assert_eq!(click_target(&l, 50, 50), ClickTarget::Nothing);
}

#[test]
fn player_mouse() {
    let pls = catalog();
    let l = layout();
    let mut p = Player::new(&pls);
    // third line of the sidebar body holds playlist 1: rows y+3+2..
    let a = p.handle_mouse(&pls, MouseInput { kind: MouseKind::LeftDown, column: 5, row: 7 }, &l, Sink::Empty);
    assert_eq!(a, Action::Nothing);
    assert_eq!((p.view.selected_playlist, p.view.active_playlist), (1, 1));
    assert_eq!(p.view.mouse, Some((5, 7)));
    let a = p.handle_mouse(&pls, MouseInput { kind: MouseKind::LeftDown, column: 12, row: 35 }, &l, Sink::Loaded);
    assert_eq!(a, Action::SeekAt { offset: 10, width: 96 });
    p.handle_mouse(&pls, MouseInput { kind: MouseKind::ScrollUp, column: 1, row: 1 }, &l, Sink::Loaded);
    assert_eq!(p.view.selected_playlist, 0);
    p.handle_mouse(&pls, MouseInput { kind: MouseKind::ScrollDown, column: 1, row: 1 }, &l, Sink::Loaded);
    p.handle_mouse(&pls, MouseInput { kind: MouseKind::ScrollDown, column: 1, row: 1 }, &l, Sink::Loaded);
    p.handle_mouse(&pls, MouseInput { kind: MouseKind::ScrollDown, column: 1, row: 1 }, &l, Sink::Loaded);
    assert_eq!(p.view.selected_playlist, 2);
    let a = p.handle_mouse(&pls, MouseInput { kind: MouseKind::LeftDown, column: 49, row: 32 }, &l, Sink::Empty);
    assert_eq!(a, Action::Play { playlist: 1, song: 0 });
    let a = p.handle_mouse(&pls, MouseInput { kind: MouseKind::Other, column: 99, row: 99 }, &l, Sink::Loaded);
    assert_eq!(a, Action::Nothing);
    assert_eq!(p.view.mouse, Some((99, 99)));
}

#[test]
fn contains_point_edges() {
    let a = Area { x: 2, y: 3, width: 4, height: 2 };
    assert!(contains_point(a, 2, 3));
    assert!(contains_point(a, 5, 4));
    assert!(!contains_point(a, 6, 4));
    assert!(!contains_point(a, 5, 5));
    assert!(!contains_point(a, 1, 3));
    assert!(!contains_point(zero(), 0, 0));
}

/// An MPEG-1 layer III header (44.1 kHz, stereo), its 32 bytes of side
/// information and a Xing tag that carries `frames`.
fn xing_stream(frames: u32) -> Vec<u8> {
    let mut b = vec![0xFFu8, 0xFB, 0x90, 0x00];
    b.extend(std::iter::repeat(0u8).take(32));
    b.extend_from_slice(b"Xing");
    b.extend_from_slice(&[0, 0, 0, 1]);
    b.extend_from_slice(&frames.to_be_bytes());
    b
}

#[test]
fn mp3_counts_checked() {
    assert!(check_mp3_counts(&[]));
    assert!(check_mp3_counts(&[1u8, 2, 3, 4, 5]));
    assert!(check_mp3_counts(&xing_stream(4096)));
    // 4294967295 frames of 1152 samples overflow the nanosecond total
    assert!(!check_mp3_counts(&xing_stream(u32::MAX)));
    // 16012798 * 1152 fits, 16012799 * 1152 does not
    assert!(check_mp3_counts(&xing_stream(16_012_798)));
    assert!(!check_mp3_counts(&xing_stream(16_012_799)));
    // the same tag after a leading byte is found too
    let mut shifted = vec![7u8];
    shifted.extend(xing_stream(u32::MAX));
    assert!(!check_mp3_counts(&shifted));
}

#[test]
fn track_duration_measured() {
    // 4096 frames * 1152 samples / 44100 Hz = 106.99 s
    assert_eq!(track_duration_seconds(Some(&xing_stream(4096)), "x", 2), 106);
}

#[test]
fn track_duration_fallback() {
    // 180 + ((len * 7 + number * 13) % 90)
    assert_eq!(track_duration_seconds(None, "Butter", 1), 180 + ((6 * 7 + 13) % 90) as u32);
    assert_eq!(track_duration_seconds(None, "", 0), 180);
    // unreadable audio counts as three minutes
    assert_eq!(track_duration_seconds(Some(&[1u8, 2, 3, 4, 5]), "x", 2), 180);
    // byte length, not characters
    assert_eq!(track_duration_seconds(None, "é", 0), 180 + 14);
}

#[test]
fn build_playlists_from_albums() {
    let albums = vec![
        AlbumRecord {
            album_title: "Love Yourself Tear".into(),
            release_year: 2018,
            total_tracks: 2,
            tracks: vec![
                TrackRecord { track_number: 1, track_name: "Singularity".into(), date_added: "2018-05-18".into() },
                TrackRecord { track_number: 2, track_name: "FAKE LOVE".into(), date_added: "2018-05-18T00:00:00".into() },
            ],
        },
        AlbumRecord {
            album_title: "BE".into(),
            release_year: 2020,
            total_tracks: 1,
            tracks: vec![TrackRecord { track_number: 1, track_name: "Life Goes On".into(), date_added: "2020".into() }],
        },
    ];
    let audio: Vec<Vec<Option<&[u8]>>> = vec![vec![None, None], vec![None]];
    let pls = build_playlists(&albums, &audio);
    assert_eq!(pls.len(), 2);
    assert_eq!(pls[0].id, "love_yourself_tear");
    assert_eq!(pls[0].name, "Love Yourself Tear");
    assert_eq!(pls[1].id, "be");
    let s = &pls[0].songs[1];
    assert_eq!(s.id, "2");
    assert_eq!(s.title, "FAKE LOVE");
    assert_eq!(s.artist, "BTS");
    assert_eq!(s.album, "Love Yourself Tear");
    assert_eq!(s.date_added, "May 18, 2018");
    let secs = 180 + ((9 * 7 + 2 * 13) % 90) as u32;
    assert_eq!(s.duration_seconds, secs);
    assert_eq!(s.duration, format!("{}:{:02}", secs / 60, secs % 60));
    assert_eq!(pls[1].songs[0].id, "3");
    assert_eq!(pls[1].songs[0].date_added, "2020");
}

#[test]
fn build_playlists_without_albums() {
    let pls = build_playlists(&vec![], &vec![]);
    assert_eq!(pls.len(), 1);
    assert_eq!(pls[0].id, "empty");
    assert_eq!(pls[0].name, "No Albums Loaded");
    assert!(pls[0].songs.is_empty());
}

#[test]
fn playlist_id_lowercases_unicode() {
    let albums = vec![AlbumRecord {
        album_title: "ÉCLAT Proof".into(),
        release_year: 2022,
        total_tracks: 0,
        tracks: vec![],
    }];
    let pls = build_playlists(&albums, &vec![vec![]]);
    assert_eq!(pls[0].id, "éclat_proof");
}

#[test]
fn player_tab_and_vim_keys() {
    let pls = catalog();
    let mut p = Player::new(&pls);
    p.handle_key(&pls, Key::Char('j'), Sink::Empty);
    assert_eq!(p.view.selected_playlist, 1);
    p.handle_key(&pls, Key::Char('k'), Sink::Empty);
    assert_eq!(p.view.selected_playlist, 0);
    p.handle_key(&pls, Key::Tab, Sink::Empty);
    assert_eq!(p.view.panel, Panel::MainList);
    p.handle_key(&pls, Key::Char('j'), Sink::Empty);
    assert_eq!(p.view.selected_song, 1);
    p.handle_key(&pls, Key::Tab, Sink::Empty);
    assert_eq!(p.view.panel, Panel::Sidebar);
    assert_eq!(p.handle_key(&pls, Key::Esc, Sink::Empty), Action::Back);
    assert_eq!(p.handle_key(&pls, Key::Char('q'), Sink::Empty), Action::QuitApp);
}

#[test]
fn player_arrow_seek() {
    let pls = catalog();
    let mut p = Player::new(&pls);
    p.handle_key(&pls, Key::Down, Sink::Empty);
    p.handle_key(&pls, Key::Enter, Sink::Empty);
    p.handle_key(&pls, Key::Tab, Sink::Empty);
    p.handle_key(&pls, Key::Enter, Sink::Empty);
    assert_eq!((p.view.playing_playlist, p.view.playing_song), (1, 0));
    // track of 10 seconds
    assert_eq!(p.handle_key(&pls, Key::Right, Sink::Loaded), Action::Seek { playlist: 1, song: 0, seconds: 5 });
    assert_eq!(p.handle_key(&pls, Key::Right, Sink::Loaded), Action::Seek { playlist: 1, song: 0, seconds: 10 });
    assert_eq!(p.handle_key(&pls, Key::Right, Sink::Loaded), Action::Seek { playlist: 1, song: 0, seconds: 10 });
    assert_eq!(p.handle_key(&pls, Key::Left, Sink::Loaded), Action::Seek { playlist: 1, song: 0, seconds: 5 });
    p.handle_key(&pls, Key::Left, Sink::Loaded);
    assert_eq!(p.handle_key(&pls, Key::Left, Sink::Loaded), Action::Seek { playlist: 1, song: 0, seconds: 0 });
    p.seek(30);
    assert_eq!(p.handle_key(&pls, Key::Right, Sink::Loaded), Action::Seek { playlist: 1, song: 0, seconds: 30 });
}
