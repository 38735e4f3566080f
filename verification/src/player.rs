//! Decisions of the music player screen: what each key press, mouse event
//! and timer tick does to the player's state, and which playback action the
//! caller has to carry out (play a track, pause, seek, ...).

use crate::catalog::{catalog_fits, song_count, Playlist};
use crate::layout::{contains_point, Area};
use crate::queue::{all_below, ensure_queue, pop_next_song, took_next, topped_up};
use std::collections::VecDeque;
use vstd::prelude::*;

verus! {

/// Which panel has the keyboard focus.
#[derive(Clone, Copy, Debug, PartialEq, Eq)]
pub enum Panel {
    Sidebar,
    MainList,
}

/// A key press, as far as the player distinguishes keys.
#[derive(Clone, Copy, Debug)]
pub enum Key {
    Char(char),
    Esc,
    Left,
    Right,
    Up,
    Down,
    Enter,
    Tab,
    Other,
}

/// State of the audio sink: absent (no output device), idle, or holding a track.
#[derive(Clone, Copy, Debug, PartialEq, Eq)]
pub enum Sink {
    Missing,
    Empty,
    Loaded,
}

/// What a key or a click asks the player to do.
#[derive(Clone, Copy, Debug, PartialEq, Eq)]
pub enum Command {
    /// Leave the player for the birthday card.
    Back,
    /// Leave the program.
    QuitApp,
    /// Move the focus to the other panel.
    TogglePanel,
    SeekBack,
    SeekForward,
    Up,
    Down,
    Enter,
    TogglePlay,
    Next,
    Previous,
    VolumeDown,
    VolumeUp,
    Nothing,
}

/// The playback work left to the caller.
#[derive(Clone, Copy, Debug, PartialEq, Eq)]
pub enum Action {
    Nothing,
    /// Close the player and return to the card.
    Back,
    /// Close the program.
    QuitApp,
    /// Stop the sink and start `song` of `playlist` from its beginning.
    Play { playlist: usize, song: usize },
    Pause,
    Resume,
    SetVolume { volume: u32 },
    /// The progress bar of `width` cells was clicked `offset` cells from its left end.
    SeekAt { offset: u16, width: u16 },
    /// Move playback of `song` of `playlist` to `seconds`.
    Seek { playlist: usize, song: usize, seconds: u32 },
}

/// How far the arrow keys move the playing position, in seconds.
pub const SEEK_STEP: u32 = 5;

/// Kinds of mouse events the player reacts to.
#[derive(Clone, Copy, Debug, PartialEq, Eq)]
pub enum MouseKind {
    LeftDown,
    ScrollUp,
    ScrollDown,
    Other,
}

#[derive(Clone, Copy, Debug)]
pub struct MouseInput {
    pub kind: MouseKind,
    pub column: u16,
    pub row: u16,
}

/// Where the last frame put the clickable parts of the screen.
#[derive(Clone, Copy, Debug)]
pub struct ScreenLayout {
    /// The library sidebar with its border.
    pub sidebar: Area,
    /// The sidebar's inside (the playlist names).
    pub sidebar_inner: Area,
    /// The inside of the playing bar.
    pub player_inner: Area,
    /// Row of the transport controls.
    pub controls_row: u16,
    /// The middle column of the playing bar, which holds the controls.
    pub controls: Area,
    /// The progress bar.
    pub progress_bar: Area,
}

/// What a left click hits.
#[derive(Clone, Copy, Debug, PartialEq, Eq)]
pub enum ClickTarget {
    Sidebar,
    Previous,
    TogglePlay,
    Next,
    Bar { offset: u16, width: u16 },
    Nothing,
}

/// Everything the player screen remembers besides the queue.
#[derive(Clone, Copy, Debug)]
pub struct PlayerView {
    pub active_playlist: usize,
    pub selected_playlist: usize,
    pub selected_song: usize,
    pub panel: Panel,
    pub playing_playlist: usize,
    pub playing_song: usize,
    pub is_playing: bool,
    pub play_seconds: u32,
    pub volume: u32,
    pub sidebar_scroll: u16,
    pub marquee_offset: usize,
    /// Highlighted row of the song table (two rows per song).
    pub table_row: usize,
    pub mouse: Option<(u16, u16)>,
}

pub struct Player {
    pub view: PlayerView,
    /// Upcoming tracks of the playing playlist.
    pub queue: VecDeque<usize>,
}

pub open spec fn spec_command_of(key: Key) -> Command {
    match key {
        Key::Esc => Command::Back,
        Key::Left => Command::SeekBack,
        Key::Right => Command::SeekForward,
        Key::Up => Command::Up,
        Key::Down => Command::Down,
        Key::Enter => Command::Enter,
        Key::Tab => Command::TogglePanel,
        Key::Other => Command::Nothing,
        Key::Char(c) => if c == 'q' {
            Command::QuitApp
        } else if c == 'k' {
            Command::Up
        } else if c == 'j' {
            Command::Down
        } else if c == ' ' {
            Command::TogglePlay
        } else if c == 'n' || c == 'N' {
            Command::Next
        } else if c == 'p' || c == 'P' {
            Command::Previous
        } else if c == '-' {
            Command::VolumeDown
        } else if c == '+' || c == '=' {
            Command::VolumeUp
        } else {
            Command::Nothing
        },
    }
}

/// The command a key press stands for.
pub fn command_of(key: Key) -> (c: Command)
    ensures
        c == spec_command_of(key),
{
    match key {
        Key::Esc => Command::Back,
        Key::Left => Command::SeekBack,
        Key::Right => Command::SeekForward,
        Key::Up => Command::Up,
        Key::Down => Command::Down,
        Key::Enter => Command::Enter,
        Key::Tab => Command::TogglePanel,
        Key::Other => Command::Nothing,
        Key::Char(c) => if c == 'q' {
            Command::QuitApp
        } else if c == 'k' {
            Command::Up
        } else if c == 'j' {
            Command::Down
        } else if c == ' ' {
            Command::TogglePlay
        } else if c == 'n' || c == 'N' {
            Command::Next
        } else if c == 'p' || c == 'P' {
            Command::Previous
        } else if c == '-' {
            Command::VolumeDown
        } else if c == '+' || c == '=' {
            Command::VolumeUp
        } else {
            Command::Nothing
        },
    }
}

pub open spec fn sat_sub(a: int, b: int) -> int {
    if a >= b { a - b } else { 0 }
}

/// The state every player screen keeps: all indices point into the catalog,
/// the playing track exists, the volume is a percentage and the queue only
/// holds tracks of the playing playlist.
pub open spec fn view_wf(v: PlayerView, pls: Seq<Playlist>) -> bool {
    &&& pls.len() > 0
    &&& catalog_fits(pls)
    &&& v.active_playlist < pls.len()
    &&& v.selected_playlist < pls.len()
    &&& v.playing_playlist < pls.len()
    &&& v.playing_song < song_count(pls, v.playing_playlist as int)
    &&& (v.selected_song == 0 || v.selected_song < song_count(pls, v.active_playlist as int))
    &&& v.volume <= 100
}

impl Player {
    pub open spec fn wf(&self, pls: Seq<Playlist>) -> bool {
        &&& view_wf(self.view, pls)
        &&& all_below(self.queue@, song_count(pls, self.view.playing_playlist as int))
    }
}

/// The screen as it opens: first playlist active and selected, its first
/// track marked as playing but paused, volume at half.
pub open spec fn initial_view() -> PlayerView {
    PlayerView {
        active_playlist: 0,
        selected_playlist: 0,
        selected_song: 0,
        panel: Panel::Sidebar,
        playing_playlist: 0,
        playing_song: 0,
        is_playing: false,
        play_seconds: 0,
        volume: 50,
        sidebar_scroll: 0,
        marquee_offset: 0,
        table_row: 0,
        mouse: None,
    }
}

/// Commands on which the screen would index a track that does not exist:
/// starting the selection of an empty playlist.
pub open spec fn command_allowed(v: PlayerView, pls: Seq<Playlist>, cmd: Command, sink: Sink) -> bool {
    let starts_selection = (cmd == Command::Enter && v.panel == Panel::MainList) || (cmd
        == Command::TogglePlay && sink == Sink::Empty && !v.is_playing);
    starts_selection ==> song_count(pls, v.active_playlist as int) > 0
}

/// Whether the command empties the queue (a new selection starts playing).
pub open spec fn clears_queue(v: PlayerView, cmd: Command, sink: Sink) -> bool {
    (cmd == Command::Enter && v.panel == Panel::MainList) || (cmd == Command::TogglePlay && sink
        == Sink::Empty && !v.is_playing)
}

/// Effect of a command on the view, and the action it asks for. `next` is
/// the track the queue hands out; only `Next` reads it.
pub open spec fn command_step(
    v: PlayerView,
    pls: Seq<Playlist>,
    cmd: Command,
    sink: Sink,
    next: usize,
) -> (PlayerView, Action) {
    let n_playlists = pls.len();
    let n_active = song_count(pls, v.active_playlist as int);
    let n_playing = song_count(pls, v.playing_playlist as int);
    match cmd {
        Command::Back => (v, Action::Back),
        Command::QuitApp => (v, Action::QuitApp),
        Command::TogglePanel => (
            PlayerView {
                panel: match v.panel {
                    Panel::Sidebar => Panel::MainList,
                    Panel::MainList => Panel::Sidebar,
                },
                ..v
            },
            Action::Nothing,
        ),
        Command::SeekBack => {
            let secs = sat_sub(v.play_seconds as int, SEEK_STEP as int) as u32;
            (
                PlayerView { play_seconds: secs, ..v },
                Action::Seek { playlist: v.playing_playlist, song: v.playing_song, seconds: secs },
            )
        },
        Command::SeekForward => {
            let length = pls[v.playing_playlist as int].songs@[v.playing_song as int].duration_seconds;
            let secs = (if v.play_seconds + SEEK_STEP <= length {
                v.play_seconds + SEEK_STEP
            } else if v.play_seconds <= length {
                length as int
            } else {
                v.play_seconds as int
            }) as u32;
            (
                PlayerView { play_seconds: secs, ..v },
                Action::Seek { playlist: v.playing_playlist, song: v.playing_song, seconds: secs },
            )
        },
        Command::Up => match v.panel {
            Panel::Sidebar => (
                PlayerView { selected_playlist: sat_sub(v.selected_playlist as int, 1) as usize, ..v },
                Action::Nothing,
            ),
            Panel::MainList => {
                let s = sat_sub(v.selected_song as int, 1);
                (
                    PlayerView { selected_song: s as usize, table_row: (2 * s) as usize, ..v },
                    Action::Nothing,
                )
            },
        },
        Command::Down => match v.panel {
            Panel::Sidebar => if v.selected_playlist + 1 < n_playlists {
                (
                    PlayerView { selected_playlist: (v.selected_playlist + 1) as usize, ..v },
                    Action::Nothing,
                )
            } else {
                (v, Action::Nothing)
            },
            Panel::MainList => if v.selected_song + 1 < n_active {
                let s = v.selected_song + 1;
                (
                    PlayerView { selected_song: s as usize, table_row: (2 * s) as usize, ..v },
                    Action::Nothing,
                )
            } else {
                (v, Action::Nothing)
            },
        },
        Command::Enter => match v.panel {
            Panel::Sidebar => (
                PlayerView {
                    active_playlist: v.selected_playlist,
                    selected_song: 0,
                    table_row: 0,
                    ..v
                },
                Action::Nothing,
            ),
            Panel::MainList => (
                PlayerView {
                    playing_playlist: v.active_playlist,
                    playing_song: v.selected_song,
                    play_seconds: 0,
                    is_playing: true,
                    ..v
                },
                Action::Play { playlist: v.active_playlist, song: v.selected_song },
            ),
        },
        Command::TogglePlay => {
            let toggled = PlayerView { is_playing: !v.is_playing, ..v };
            match sink {
                Sink::Missing => (toggled, Action::Nothing),
                Sink::Empty => if !v.is_playing {
                    (
                        PlayerView {
                            playing_playlist: v.active_playlist,
                            playing_song: v.selected_song,
                            ..toggled
                        },
                        Action::Play { playlist: v.active_playlist, song: v.selected_song },
                    )
                } else {
                    (toggled, Action::Pause)
                },
                Sink::Loaded => if !v.is_playing {
                    (toggled, Action::Resume)
                } else {
                    (toggled, Action::Pause)
                },
            }
        },
        Command::Next => (
            PlayerView { play_seconds: 0, playing_song: next, ..v },
            Action::Play { playlist: v.playing_playlist, song: next },
        ),
        Command::Previous => {
            let p = if v.playing_song > 0 {
                v.playing_song - 1
            } else {
                sat_sub(n_playing as int, 1)
            };
            (
                PlayerView { play_seconds: 0, playing_song: p as usize, ..v },
                Action::Play { playlist: v.playing_playlist, song: p as usize },
            )
        },
        Command::VolumeDown => {
            let vol = sat_sub(v.volume as int, 5) as u32;
            (
                PlayerView { volume: vol, ..v },
                if sink == Sink::Missing { Action::Nothing } else { Action::SetVolume { volume: vol } },
            )
        },
        Command::VolumeUp => {
            let vol = (if v.volume + 5 < 100 { v.volume + 5 } else { 100 }) as u32;
            (
                PlayerView { volume: vol, ..v },
                if sink == Sink::Missing { Action::Nothing } else { Action::SetVolume { volume: vol } },
            )
        },
        Command::Nothing => (v, Action::Nothing),
    }
}

/// How the queue changes under a command: `Next` tops it up and takes its
/// head (`new_playing`), a new selection empties it, anything else keeps it.
pub open spec fn queue_step(
    v: PlayerView,
    pls: Seq<Playlist>,
    cmd: Command,
    sink: Sink,
    old_q: Seq<usize>,
    new_q: Seq<usize>,
    new_playing: usize,
) -> bool {
    if cmd == Command::Next {
        exists|full: Seq<usize>|
            topped_up(
                old_q,
                full,
                v.playing_song as nat,
                song_count(pls, v.playing_playlist as int),
            ) && took_next(full, new_q, new_playing as nat, v.playing_song as nat)
    } else if clears_queue(v, cmd, sink) {
        new_q == Seq::<usize>::empty()
    } else {
        new_q == old_q
    }
}

proof fn lemma_next_in_range(
    old_q: Seq<usize>,
    new_q: Seq<usize>,
    next: usize,
    current: usize,
    len: nat,
)
    requires
        current < len,
        all_below(old_q, len),
        exists|full: Seq<usize>|
            topped_up(old_q, full, current as nat, len) && took_next(
                full,
                new_q,
                next as nat,
                current as nat,
            ),
    ensures
        next < len,
        all_below(new_q, len),
{
    let full = choose|full: Seq<usize>|
        topped_up(old_q, full, current as nat, len) && took_next(
            full,
            new_q,
            next as nat,
            current as nat,
        );
    if len > 1 {
        crate::queue::lemma_next_song_valid(old_q, full, new_q, next as nat, current as nat, len);
    } else {
        assert(full == old_q);
        if full.len() > 0 {
            assert((full[0] as nat) < len);
            assert forall|i: int| 0 <= i < new_q.len() implies (#[trigger] new_q[i] as nat) < len by {
                assert(new_q[i] == full[i + 1]);
            }
        }
    }
}

impl Player {
    /// The screen as it opens. The first playlist must have a track: the
    /// screen shows it as the playing one from the start.
    pub fn new(pls: &Vec<Playlist>) -> (p: Player)
        requires
            pls@.len() > 0,
            song_count(pls@, 0) > 0,
            catalog_fits(pls@),
        ensures
            p.view == initial_view(),
            p.queue@ == Seq::<usize>::empty(),
            p.wf(pls@),
    {
        Player {
            view: PlayerView {
                active_playlist: 0,
                selected_playlist: 0,
                selected_song: 0,
                panel: Panel::Sidebar,
                playing_playlist: 0,
                playing_song: 0,
                is_playing: false,
                play_seconds: 0,
                volume: 50,
                sidebar_scroll: 0,
                marquee_offset: 0,
                table_row: 0,
                mouse: None,
            },
            queue: VecDeque::new(),
        }
    }

    /// Carries out a command.
    pub fn apply(&mut self, pls: &Vec<Playlist>, cmd: Command, sink: Sink) -> (action: Action)
        requires
            old(self).wf(pls@),
            command_allowed(old(self).view, pls@, cmd, sink),
        ensures
            final(self).wf(pls@),
            (final(self).view, action) == command_step(
                old(self).view,
                pls@,
                cmd,
                sink,
                final(self).view.playing_song,
            ),
            queue_step(
                old(self).view,
                pls@,
                cmd,
                sink,
                old(self).queue@,
                final(self).queue@,
                final(self).view.playing_song,
            ),
    {
        let n_playlists = pls.len();
        let n_active = pls[self.view.active_playlist].songs.len();
        let n_playing = pls[self.view.playing_playlist].songs.len();
        match cmd {
            Command::Back => Action::Back,
            Command::QuitApp => Action::QuitApp,
            Command::TogglePanel => {
                self.view.panel = match self.view.panel {
                    Panel::Sidebar => Panel::MainList,
                    Panel::MainList => Panel::Sidebar,
                };
                Action::Nothing
            },
            Command::SeekBack => {
                self.view.play_seconds = self.view.play_seconds.saturating_sub(SEEK_STEP);
                Action::Seek {
                    playlist: self.view.playing_playlist,
                    song: self.view.playing_song,
                    seconds: self.view.play_seconds,
                }
            },
            Command::SeekForward => {
                let length = pls[self.view.playing_playlist].songs[self.view.playing_song].duration_seconds;
                let secs = self.view.play_seconds;
                if secs <= length {
                    self.view.play_seconds = if length - secs >= SEEK_STEP {
                        secs + SEEK_STEP
                    } else {
                        length
                    };
                }
                Action::Seek {
                    playlist: self.view.playing_playlist,
                    song: self.view.playing_song,
                    seconds: self.view.play_seconds,
                }
            },
            Command::Up => {
                match self.view.panel {
                    Panel::Sidebar => {
                        self.view.selected_playlist = self.view.selected_playlist.saturating_sub(1);
                    },
                    Panel::MainList => {
                        let s = self.view.selected_song.saturating_sub(1);
                        self.view.selected_song = s;
                        self.view.table_row = s * 2;
                    },
                }
                Action::Nothing
            },
            Command::Down => {
                match self.view.panel {
                    Panel::Sidebar => {
                        if self.view.selected_playlist + 1 < n_playlists {
                            self.view.selected_playlist = self.view.selected_playlist + 1;
                        }
                    },
                    Panel::MainList => {
                        if self.view.selected_song + 1 < n_active {
                            let s = self.view.selected_song + 1;
                            self.view.selected_song = s;
                            self.view.table_row = s * 2;
                        }
                    },
                }
                Action::Nothing
            },
            Command::Enter => {
                match self.view.panel {
                    Panel::Sidebar => {
                        self.view.active_playlist = self.view.selected_playlist;
                        self.view.selected_song = 0;
                        self.view.table_row = 0;
                        Action::Nothing
                    },
                    Panel::MainList => {
                        self.view.playing_playlist = self.view.active_playlist;
                        self.view.playing_song = self.view.selected_song;
                        self.queue.clear();
                        self.view.play_seconds = 0;
                        self.view.is_playing = true;
                        Action::Play {
                            playlist: self.view.playing_playlist,
                            song: self.view.playing_song,
                        }
                    },
                }
            },
            Command::TogglePlay => {
                self.view.is_playing = !self.view.is_playing;
                match sink {
                    Sink::Missing => Action::Nothing,
                    Sink::Empty => {
                        if self.view.is_playing {
                            let playlist = self.view.active_playlist;
                            let song = self.view.selected_song;
                            self.view.playing_playlist = playlist;
                            self.view.playing_song = song;
                            self.queue.clear();
                            Action::Play { playlist, song }
                        } else {
                            Action::Pause
                        }
                    },
                    Sink::Loaded => {
                        if self.view.is_playing {
                            Action::Resume
                        } else {
                            Action::Pause
                        }
                    },
                }
            },
            Command::Next => {
                let ghost old_q = self.queue@;
                let next = pop_next_song(&mut self.queue, self.view.playing_song, n_playing);
                proof {
                    lemma_next_in_range(
                        old_q,
                        self.queue@,
                        next,
                        self.view.playing_song,
                        n_playing as nat,
                    );
                }
                self.view.play_seconds = 0;
                self.view.playing_song = next;
                Action::Play { playlist: self.view.playing_playlist, song: next }
            },
            Command::Previous => {
                self.view.play_seconds = 0;
                if self.view.playing_song > 0 {
                    self.view.playing_song = self.view.playing_song - 1;
                } else {
                    self.view.playing_song = n_playing.saturating_sub(1);
                }
                Action::Play { playlist: self.view.playing_playlist, song: self.view.playing_song }
            },
            Command::VolumeDown => {
                self.view.volume = self.view.volume.saturating_sub(5);
                match sink {
                    Sink::Missing => Action::Nothing,
                    _ => Action::SetVolume { volume: self.view.volume },
                }
            },
            Command::VolumeUp => {
                let raised = self.view.volume + 5;
                self.view.volume = if raised < 100 { raised } else { 100 };
                match sink {
                    Sink::Missing => Action::Nothing,
                    _ => Action::SetVolume { volume: self.view.volume },
                }
            },
            Command::Nothing => Action::Nothing,
        }
    }

    /// Handles a key press.
    pub fn handle_key(&mut self, pls: &Vec<Playlist>, key: Key, sink: Sink) -> (action: Action)
        requires
            old(self).wf(pls@),
            command_allowed(old(self).view, pls@, spec_command_of(key), sink),
        ensures
            final(self).wf(pls@),
            (final(self).view, action) == command_step(
                old(self).view,
                pls@,
                spec_command_of(key),
                sink,
                final(self).view.playing_song,
            ),
            queue_step(
                old(self).view,
                pls@,
                spec_command_of(key),
                sink,
                old(self).queue@,
                final(self).queue@,
                final(self).view.playing_song,
            ),
    {
        let cmd = command_of(key);
        self.apply(pls, cmd, sink)
    }
}


/// The cell arithmetic of `contains_point` stays within `u16` for this cell.
pub open spec fn contains_ok(a: Area, x: int, y: int) -> bool {
    &&& x >= a.x ==> a.x + a.width <= u16::MAX
    &&& a.x <= x < a.x + a.width && y >= a.y ==> a.y + a.height <= u16::MAX
}

/// Column in the middle of the controls, where the play/pause button sits.
pub open spec fn controls_center(c: Area) -> int {
    c.x + c.width / 2
}

pub open spec fn spec_click_target(l: ScreenLayout, col: int, row: int) -> ClickTarget {
    if l.sidebar_inner.spec_contains(col, row) {
        ClickTarget::Sidebar
    } else if l.player_inner.spec_contains(col, row) {
        if row == l.controls_row {
            if l.controls.x <= col < l.controls.x + l.controls.width {
                let c = controls_center(l.controls);
                if sat_sub(c, 7) <= col <= sat_sub(c, 3) {
                    ClickTarget::Previous
                } else if sat_sub(c, 2) <= col <= c + 2 {
                    ClickTarget::TogglePlay
                } else if c + 3 <= col <= c + 7 {
                    ClickTarget::Next
                } else {
                    ClickTarget::Nothing
                }
            } else {
                ClickTarget::Nothing
            }
        } else if row == l.progress_bar.y && l.progress_bar.x <= col < l.progress_bar.x
            + l.progress_bar.width && l.progress_bar.width > 0 {
            ClickTarget::Bar {
                offset: (col - l.progress_bar.x) as u16,
                width: l.progress_bar.width,
            }
        } else {
            ClickTarget::Nothing
        }
    } else {
        ClickTarget::Nothing
    }
}

/// The hit test of a left click computes within `u16` (the screen would
/// otherwise overflow a cell coordinate).
pub open spec fn click_allowed(l: ScreenLayout, col: int, row: int) -> bool {
    let c = controls_center(l.controls);
    &&& contains_ok(l.sidebar_inner, col, row)
    &&& l.sidebar_inner.spec_contains(col, row) ==> l.sidebar_inner.y + 3 <= u16::MAX
    &&& !l.sidebar_inner.spec_contains(col, row) ==> contains_ok(l.player_inner, col, row)
    &&& !l.sidebar_inner.spec_contains(col, row) && l.player_inner.spec_contains(col, row) ==> {
        if row == l.controls_row {
            &&& col >= l.controls.x ==> l.controls.x + l.controls.width <= u16::MAX
            &&& l.controls.x <= col < l.controls.x + l.controls.width ==> {
                let prev = sat_sub(c, 7) <= col <= sat_sub(c, 3);
                &&& !prev && col >= sat_sub(c, 2) ==> c + 2 <= u16::MAX
                &&& !prev && !(sat_sub(c, 2) <= col <= c + 2) ==> c + 3 <= u16::MAX
                &&& !prev && !(sat_sub(c, 2) <= col <= c + 2) && col >= c + 3 ==> c + 7 <= u16::MAX
            }
        } else {
            row == l.progress_bar.y && col >= l.progress_bar.x ==> l.progress_bar.x
                + l.progress_bar.width <= u16::MAX
        }
    }
}

/// What a left click at `(col, row)` hits on the last drawn screen.
pub fn click_target(l: &ScreenLayout, col: u16, row: u16) -> (t: ClickTarget)
    requires
        click_allowed(*l, col as int, row as int),
    ensures
        t == spec_click_target(*l, col as int, row as int),
{
    if contains_point(l.sidebar_inner, col, row) {
        ClickTarget::Sidebar
    } else if contains_point(l.player_inner, col, row) {
        if row == l.controls_row {
            if col >= l.controls.x && col < l.controls.x + l.controls.width {
                let c = l.controls.x + l.controls.width / 2;
                if col >= c.saturating_sub(7) && col <= c.saturating_sub(3) {
                    ClickTarget::Previous
                } else if col >= c.saturating_sub(2) && col <= c + 2 {
                    ClickTarget::TogglePlay
                } else if col >= c + 3 && col <= c + 7 {
                    ClickTarget::Next
                } else {
                    ClickTarget::Nothing
                }
            } else {
                ClickTarget::Nothing
            }
        } else if row == l.progress_bar.y && col >= l.progress_bar.x && col < l.progress_bar.x
            + l.progress_bar.width && l.progress_bar.width > 0 {
            ClickTarget::Bar { offset: col - l.progress_bar.x, width: l.progress_bar.width }
        } else {
            ClickTarget::Nothing
        }
    } else {
        ClickTarget::Nothing
    }
}

pub open spec fn with_mouse(v: PlayerView, ev: MouseInput) -> PlayerView {
    PlayerView { mouse: Some((ev.column, ev.row)), ..v }
}

/// The transport command a mouse event presses, if any.
pub open spec fn mouse_command(l: ScreenLayout, ev: MouseInput) -> Command {
    match ev.kind {
        MouseKind::LeftDown => match spec_click_target(l, ev.column as int, ev.row as int) {
            ClickTarget::Previous => Command::Previous,
            ClickTarget::TogglePlay => Command::TogglePlay,
            ClickTarget::Next => Command::Next,
            _ => Command::Nothing,
        },
        _ => Command::Nothing,
    }
}

/// Effect of a mouse event on the view, and the action it asks for; `next`
/// as in `command_step`.
pub open spec fn mouse_step(
    v0: PlayerView,
    pls: Seq<Playlist>,
    l: ScreenLayout,
    ev: MouseInput,
    sink: Sink,
    next: usize,
) -> (PlayerView, Action) {
    let v = with_mouse(v0, ev);
    let col = ev.column as int;
    let row = ev.row as int;
    match ev.kind {
        MouseKind::LeftDown => match spec_click_target(l, col, row) {
            ClickTarget::Sidebar => {
                let idx = sat_sub(row, l.sidebar_inner.y + 3) / 2;
                let focused = PlayerView { panel: Panel::Sidebar, ..v };
                if idx < pls.len() {
                    (
                        PlayerView {
                            selected_playlist: idx as usize,
                            active_playlist: idx as usize,
                            selected_song: 0,
                            table_row: 0,
                            ..focused
                        },
                        Action::Nothing,
                    )
                } else {
                    (focused, Action::Nothing)
                }
            },
            ClickTarget::Bar { offset, width } => (v, Action::SeekAt { offset, width }),
            ClickTarget::Nothing => (v, Action::Nothing),
            _ => command_step(v, pls, mouse_command(l, ev), sink, next),
        },
        MouseKind::ScrollUp => if l.sidebar.spec_contains(col, row) {
            (
                PlayerView {
                    panel: Panel::Sidebar,
                    selected_playlist: sat_sub(v.selected_playlist as int, 1) as usize,
                    ..v
                },
                Action::Nothing,
            )
        } else {
            (v, Action::Nothing)
        },
        MouseKind::ScrollDown => if l.sidebar.spec_contains(col, row) {
            if v.selected_playlist + 1 < pls.len() {
                (
                    PlayerView {
                        panel: Panel::Sidebar,
                        selected_playlist: (v.selected_playlist + 1) as usize,
                        ..v
                    },
                    Action::Nothing,
                )
            } else {
                (PlayerView { panel: Panel::Sidebar, ..v }, Action::Nothing)
            }
        } else {
            (v, Action::Nothing)
        },
        MouseKind::Other => (v, Action::Nothing),
    }
}

/// Mouse events on which the screen neither overflows a cell coordinate nor
/// starts a track that does not exist.
pub open spec fn mouse_allowed(
    v: PlayerView,
    pls: Seq<Playlist>,
    l: ScreenLayout,
    ev: MouseInput,
    sink: Sink,
) -> bool {
    let col = ev.column as int;
    let row = ev.row as int;
    match ev.kind {
        MouseKind::LeftDown => click_allowed(l, col, row) && command_allowed(
            v,
            pls,
            mouse_command(l, ev),
            sink,
        ),
        MouseKind::Other => true,
        _ => contains_ok(l.sidebar, col, row),
    }
}

/// Whether the track of a playing song has run out at this second.
pub open spec fn tick_finishes(v: PlayerView, pls: Seq<Playlist>, sink: Sink) -> bool {
    match sink {
        Sink::Loaded => false,
        Sink::Empty => v.is_playing,
        Sink::Missing => v.is_playing && v.play_seconds + 1
            >= pls[v.playing_playlist as int].songs@[v.playing_song as int].duration_seconds,
    }
}

/// Effect of one elapsed second: the position of a playing track advances
/// (a missing sink plays the track's listed length); a finished track gives
/// way to the next one from the queue, `next`.
pub open spec fn tick_step(v: PlayerView, pls: Seq<Playlist>, sink: Sink, next: usize) -> (
    PlayerView,
    Action,
) {
    if tick_finishes(v, pls, sink) {
        (
            PlayerView { play_seconds: 0, playing_song: next, ..v },
            Action::Play { playlist: v.playing_playlist, song: next },
        )
    } else if v.is_playing && sink != Sink::Empty {
        (PlayerView { play_seconds: (v.play_seconds + 1) as u32, ..v }, Action::Nothing)
    } else {
        (v, Action::Nothing)
    }
}

/// First line of the sidebar that shows the selected playlist (three header
/// lines, then two lines per playlist), as the screen computes it in `u16`.
pub open spec fn selected_sidebar_line(v: PlayerView) -> int {
    3 + ((2 * v.selected_playlist) as u16)
}

/// The sidebar's scroll offset after keeping the selected playlist in a
/// viewport of `viewport` lines.
pub open spec fn scrolled(v: PlayerView, viewport: u16) -> u16 {
    let line = selected_sidebar_line(v);
    if viewport > 0 {
        if line < v.sidebar_scroll {
            line as u16
        } else if line >= v.sidebar_scroll + viewport {
            (line - viewport + 1) as u16
        } else {
            v.sidebar_scroll
        }
    } else {
        v.sidebar_scroll
    }
}

pub open spec fn scroll_allowed(v: PlayerView, viewport: u16) -> bool {
    let line = selected_sidebar_line(v);
    &&& 2 * v.selected_playlist <= usize::MAX
    &&& line <= u16::MAX
    &&& viewport > 0 && line >= v.sidebar_scroll ==> v.sidebar_scroll + viewport <= u16::MAX
}

/// Scrolling the sidebar brings the selected playlist into view.
pub proof fn lemma_scroll_shows_selection(v: PlayerView, viewport: u16)
    requires
        scroll_allowed(v, viewport),
        viewport > 0,
    ensures
        scrolled(v, viewport) <= selected_sidebar_line(v) < scrolled(v, viewport) + viewport,
{
}

impl Player {
    /// Whether `apply` may take this command (see `command_allowed`).
    pub fn allows(&self, pls: &Vec<Playlist>, cmd: Command, sink: Sink) -> (b: bool)
        requires
            self.wf(pls@),
        ensures
            b == command_allowed(self.view, pls@, cmd, sink),
    {
        let starts = match cmd {
            Command::Enter => match self.view.panel {
                Panel::MainList => true,
                Panel::Sidebar => false,
            },
            Command::TogglePlay => match sink {
                Sink::Empty => !self.view.is_playing,
                _ => false,
            },
            _ => false,
        };
        !starts || pls[self.view.active_playlist].songs.len() > 0
    }

    /// Handles a mouse event against the layout of the last drawn frame.
    pub fn handle_mouse(
        &mut self,
        pls: &Vec<Playlist>,
        ev: MouseInput,
        l: &ScreenLayout,
        sink: Sink,
    ) -> (action: Action)
        requires
            old(self).wf(pls@),
            mouse_allowed(old(self).view, pls@, *l, ev, sink),
        ensures
            final(self).wf(pls@),
            (final(self).view, action) == mouse_step(
                old(self).view,
                pls@,
                *l,
                ev,
                sink,
                final(self).view.playing_song,
            ),
            queue_step(
                with_mouse(old(self).view, ev),
                pls@,
                mouse_command(*l, ev),
                sink,
                old(self).queue@,
                final(self).queue@,
                final(self).view.playing_song,
            ),
            ev.kind == MouseKind::LeftDown && spec_click_target(*l, ev.column as int, ev.row as int)
                == ClickTarget::Previous ==> final(self).queue@ == old(self).queue@ && (
            final(self).view, action) == command_step(
                with_mouse(old(self).view, ev),
                pls@,
                Command::Previous,
                sink,
                final(self).view.playing_song,
            ),
            ev.kind == MouseKind::LeftDown && spec_click_target(*l, ev.column as int, ev.row as int)
                == ClickTarget::Next ==> (final(self).view, action) == command_step(
                with_mouse(old(self).view, ev),
                pls@,
                Command::Next,
                sink,
                final(self).view.playing_song,
            ),
            ev.kind == MouseKind::LeftDown && spec_click_target(*l, ev.column as int, ev.row as int)
                == ClickTarget::TogglePlay ==> (final(self).view, action) == command_step(
                with_mouse(old(self).view, ev),
                pls@,
                Command::TogglePlay,
                sink,
                final(self).view.playing_song,
            ),
    {
        self.view.mouse = Some((ev.column, ev.row));
        let col = ev.column;
        let row = ev.row;
        match ev.kind {
            MouseKind::LeftDown => {
                let target = click_target(l, col, row);
                match target {
                    ClickTarget::Sidebar => {
                        self.view.panel = Panel::Sidebar;
                        let rel_row = row.saturating_sub(l.sidebar_inner.y + 3) as usize;
                        let idx = rel_row / 2;
                        if idx < pls.len() {
                            self.view.selected_playlist = idx;
                            self.view.active_playlist = idx;
                            self.view.selected_song = 0;
                            self.view.table_row = 0;
                        }
                        Action::Nothing
                    },
                    ClickTarget::Previous => self.apply(pls, Command::Previous, sink),
                    ClickTarget::TogglePlay => self.apply(pls, Command::TogglePlay, sink),
                    ClickTarget::Next => self.apply(pls, Command::Next, sink),
                    ClickTarget::Bar { offset, width } => Action::SeekAt { offset, width },
                    ClickTarget::Nothing => Action::Nothing,
                }
            },
            MouseKind::ScrollUp => {
                if contains_point(l.sidebar, col, row) {
                    self.view.panel = Panel::Sidebar;
                    self.view.selected_playlist = self.view.selected_playlist.saturating_sub(1);
                }
                Action::Nothing
            },
            MouseKind::ScrollDown => {
                if contains_point(l.sidebar, col, row) {
                    self.view.panel = Panel::Sidebar;
                    if self.view.selected_playlist + 1 < pls.len() {
                        self.view.selected_playlist = self.view.selected_playlist + 1;
                    }
                }
                Action::Nothing
            },
            MouseKind::Other => Action::Nothing,
        }
    }

    /// One second of playback has passed.
    pub fn second_elapsed(&mut self, pls: &Vec<Playlist>, sink: Sink) -> (action: Action)
        requires
            old(self).wf(pls@),
            old(self).view.is_playing && sink != Sink::Empty ==> old(self).view.play_seconds
                < u32::MAX,
        ensures
            final(self).wf(pls@),
            (final(self).view, action) == tick_step(
                old(self).view,
                pls@,
                sink,
                final(self).view.playing_song,
            ),
            queue_step(
                old(self).view,
                pls@,
                if tick_finishes(old(self).view, pls@, sink) {
                    Command::Next
                } else {
                    Command::Nothing
                },
                sink,
                old(self).queue@,
                final(self).queue@,
                final(self).view.playing_song,
            ),
    {
        let finished = match sink {
            Sink::Loaded => {
                if self.view.is_playing {
                    self.view.play_seconds = self.view.play_seconds + 1;
                }
                false
            },
            Sink::Empty => self.view.is_playing,
            Sink::Missing => {
                if self.view.is_playing {
                    self.view.play_seconds = self.view.play_seconds + 1;
                    self.view.play_seconds
                        >= pls[self.view.playing_playlist].songs[self.view.playing_song].duration_seconds
                } else {
                    false
                }
            },
        };
        if finished {
            self.view.play_seconds = 0;
            let n_playing = pls[self.view.playing_playlist].songs.len();
            let ghost old_q = self.queue@;
            let next = pop_next_song(&mut self.queue, self.view.playing_song, n_playing);
            proof {
                lemma_next_in_range(old_q, self.queue@, next, self.view.playing_song, n_playing as nat);
            }
            self.view.playing_song = next;
            Action::Play { playlist: self.view.playing_playlist, song: next }
        } else {
            Action::Nothing
        }
    }

    /// Keeps the selected playlist inside a sidebar viewport of `viewport` lines.
    pub fn scroll_sidebar(&mut self, viewport: u16)
        requires
            scroll_allowed(old(self).view, viewport),
        ensures
            final(self).view == (PlayerView {
                sidebar_scroll: scrolled(old(self).view, viewport),
                ..old(self).view
            }),
            final(self).queue@ == old(self).queue@,
    {
        let line: u16 = 3 + (self.view.selected_playlist * 2) as u16;
        if viewport > 0 {
            if line < self.view.sidebar_scroll {
                self.view.sidebar_scroll = line;
            } else if line >= self.view.sidebar_scroll + viewport {
                self.view.sidebar_scroll = line - viewport + 1;
            }
        }
    }

    /// Moves the scrolling titles one column on.
    pub fn advance_marquee(&mut self)
        requires
            old(self).view.marquee_offset < usize::MAX,
        ensures
            final(self).view == (PlayerView {
                marquee_offset: (old(self).view.marquee_offset + 1) as usize,
                ..old(self).view
            }),
            final(self).queue@ == old(self).queue@,
    {
        self.view.marquee_offset = self.view.marquee_offset + 1;
    }

    /// Tops the queue of the playing playlist up, as the queue panel does
    /// before it shows what comes next.
    pub fn top_up_queue(&mut self, pls: &Vec<Playlist>)
        requires
            old(self).wf(pls@),
        ensures
            final(self).wf(pls@),
            final(self).view == old(self).view,
            topped_up(
                old(self).queue@,
                final(self).queue@,
                old(self).view.playing_song as nat,
                song_count(pls@, old(self).view.playing_playlist as int),
            ),
    {
        let n_playing = pls[self.view.playing_playlist].songs.len();
        let ghost old_q = self.queue@;
        ensure_queue(&mut self.queue, self.view.playing_song, n_playing);
        proof {
            crate::queue::lemma_topped_up_entries(
                old_q,
                self.queue@,
                self.view.playing_song as nat,
                n_playing as nat,
            );
        }
    }

    /// Moves the playing track to `seconds`, as a click on the progress bar does.
    pub fn seek(&mut self, seconds: u32) -> (action: Action)
        ensures
            final(self).view == (PlayerView { play_seconds: seconds, ..old(self).view }),
            final(self).queue@ == old(self).queue@,
            action == (Action::Seek {
                playlist: old(self).view.playing_playlist,
                song: old(self).view.playing_song,
                seconds,
            }),
    {
        self.view.play_seconds = seconds;
        Action::Seek {
            playlist: self.view.playing_playlist,
            song: self.view.playing_song,
            seconds,
        }
    }
}


/// Raising the volume and lowering it again restores the state, as long as
/// the raise was not capped at 100.
pub proof fn lemma_volume_up_down(v: PlayerView, pls: Seq<Playlist>, sink: Sink, next: usize)
    requires
        v.volume <= 95,
    ensures
        command_step(
            command_step(v, pls, Command::VolumeUp, sink, next).0,
            pls,
            Command::VolumeDown,
            sink,
            next,
        ).0 == v,
{
}

/// With a track loaded, toggling play twice pauses and resumes (or the other
/// way round) and leaves the state as it was.
pub proof fn lemma_toggle_twice(v: PlayerView, pls: Seq<Playlist>, next: usize)
    ensures
        ({
            let (v1, a1) = command_step(v, pls, Command::TogglePlay, Sink::Loaded, next);
            let (v2, a2) = command_step(v1, pls, Command::TogglePlay, Sink::Loaded, next);
            &&& v2 == v
            &&& v.is_playing ==> a1 == Action::Pause && a2 == Action::Resume
            &&& !v.is_playing ==> a1 == Action::Resume && a2 == Action::Pause
        }),
{
}

/// In the sidebar, moving down and back up returns to the same playlist
/// when there is one below.
pub proof fn lemma_sidebar_down_up(v: PlayerView, pls: Seq<Playlist>, sink: Sink, next: usize)
    requires
        catalog_fits(pls),
        v.panel == Panel::Sidebar,
        v.selected_playlist + 1 < pls.len(),
    ensures
        command_step(
            command_step(v, pls, Command::Down, sink, next).0,
            pls,
            Command::Up,
            sink,
            next,
        ).0 == v,
{
}


fn contains_ok_exec(a: Area, x: u16, y: u16) -> (b: bool)
    ensures
        b == contains_ok(a, x as int, y as int),
{
    let right = a.x as u32 + a.width as u32;
    let bottom = a.y as u32 + a.height as u32;
    (x < a.x || right <= 0xFFFF) && (!(a.x <= x && (x as u32) < right && y >= a.y) || bottom
        <= 0xFFFF)
}

/// Whether `click_target` may take this click (see `click_allowed`).
pub fn click_allows(l: &ScreenLayout, col: u16, row: u16) -> (b: bool)
    ensures
        b == click_allowed(*l, col as int, row as int),
{
    if !contains_ok_exec(l.sidebar_inner, col, row) {
        return false;
    }
    let si = l.sidebar_inner;
    let in_sidebar = si.x <= col && (col as u32) < si.x as u32 + si.width as u32 && si.y <= row
        && (row as u32) < si.y as u32 + si.height as u32;
    if in_sidebar {
        return si.y as u32 + 3 <= 0xFFFF;
    }
    if !contains_ok_exec(l.player_inner, col, row) {
        return false;
    }
    let pi = l.player_inner;
    let in_player = pi.x <= col && (col as u32) < pi.x as u32 + pi.width as u32 && pi.y <= row
        && (row as u32) < pi.y as u32 + pi.height as u32;
    if !in_player {
        return true;
    }
    if row == l.controls_row {
        let cx = l.controls.x as u32;
        let cw = l.controls.width as u32;
        let c32 = col as u32;
        if c32 >= cx && cx + cw > 0xFFFF {
            return false;
        }
        if cx <= c32 && c32 < cx + cw {
            let c = cx + cw / 2;
            let s7 = if c >= 7 { c - 7 } else { 0 };
            let s3 = if c >= 3 { c - 3 } else { 0 };
            let s2 = if c >= 2 { c - 2 } else { 0 };
            let prev = s7 <= c32 && c32 <= s3;
            if !prev && c32 >= s2 && c + 2 > 0xFFFF {
                return false;
            }
            let play = s2 <= c32 && c32 <= c + 2;
            if !prev && !play && c + 3 > 0xFFFF {
                return false;
            }
            if !prev && !play && c32 >= c + 3 && c + 7 > 0xFFFF {
                return false;
            }
        }
        true
    } else {
        !(row == l.progress_bar.y && col >= l.progress_bar.x && l.progress_bar.x as u32
            + l.progress_bar.width as u32 > 0xFFFF)
    }
}

/// Whether the sidebar can be scrolled for a viewport of `viewport` lines
/// (see `scroll_allowed`).
pub fn scroll_allows(v: &PlayerView, viewport: u16) -> (b: bool)
    ensures
        b == scroll_allowed(*v, viewport),
{
    if v.selected_playlist > usize::MAX / 2 {
        return false;
    }
    let wrapped = (v.selected_playlist * 2) as u16;
    if wrapped > 0xFFFF - 3 {
        return false;
    }
    let line = 3 + wrapped;
    !(viewport > 0 && line >= v.sidebar_scroll && v.sidebar_scroll as u32 + viewport as u32
        > 0xFFFF)
}

impl Player {
    /// Whether `handle_mouse` may take this event (see `mouse_allowed`).
    pub fn mouse_allows(&self, pls: &Vec<Playlist>, ev: MouseInput, l: &ScreenLayout, sink: Sink) -> (b:
        bool)
        requires
            self.wf(pls@),
        ensures
            b == mouse_allowed(self.view, pls@, *l, ev, sink),
    {
        match ev.kind {
            MouseKind::LeftDown => {
                if !click_allows(l, ev.column, ev.row) {
                    return false;
                }
                let cmd = match click_target(l, ev.column, ev.row) {
                    ClickTarget::Previous => Command::Previous,
                    ClickTarget::TogglePlay => Command::TogglePlay,
                    ClickTarget::Next => Command::Next,
                    _ => Command::Nothing,
                };
                self.allows(pls, cmd, sink)
            },
            MouseKind::Other => true,
            _ => contains_ok_exec(l.sidebar, ev.column, ev.row),
        }
    }
}


/// Switching panels twice returns to the panel one started from.
pub proof fn lemma_toggle_panel_twice(v: PlayerView, pls: Seq<Playlist>, sink: Sink, next: usize)
    ensures
        command_step(
            command_step(v, pls, Command::TogglePanel, sink, next).0,
            pls,
            Command::TogglePanel,
            sink,
            next,
        ).0 == v,
{
}

/// Seeking forward and then back returns to the same position, unless the
/// forward step was stopped by the end of the track.
pub proof fn lemma_seek_forward_back(v: PlayerView, pls: Seq<Playlist>, sink: Sink, next: usize)
    requires
        v.play_seconds + SEEK_STEP <= pls[v.playing_playlist as int].songs@[v.playing_song as int].duration_seconds,
    ensures
        command_step(
            command_step(v, pls, Command::SeekForward, sink, next).0,
            pls,
            Command::SeekBack,
            sink,
            next,
        ).0 == v,
{
}

/// One thing that happens to the player screen: a key command, a mouse
/// event, an elapsed second, a click on the progress bar, a sidebar scroll
/// or a marquee step, with the sink and queued track they meet.
pub enum PlayerEvent {
    Command(Command, Sink, usize),
    Mouse(ScreenLayout, MouseInput, Sink, usize),
    Tick(Sink, usize),
    SeekTo(u32),
    Scroll(u16),
    Marquee,
}

/// The view after one event, as the methods of `Player` change it.
pub open spec fn event_step(v: PlayerView, pls: Seq<Playlist>, e: PlayerEvent) -> PlayerView {
    match e {
        PlayerEvent::Command(cmd, sink, next) => command_step(v, pls, cmd, sink, next).0,
        PlayerEvent::Mouse(l, ev, sink, next) => mouse_step(v, pls, l, ev, sink, next).0,
        PlayerEvent::Tick(sink, next) => tick_step(v, pls, sink, next).0,
        PlayerEvent::SeekTo(seconds) => PlayerView { play_seconds: seconds, ..v },
        PlayerEvent::Scroll(viewport) => PlayerView { sidebar_scroll: scrolled(v, viewport), ..v },
        PlayerEvent::Marquee => PlayerView { marquee_offset: (v.marquee_offset + 1) as usize, ..v },
    }
}

/// The view after a sequence of events, in order.
pub open spec fn run_events(v: PlayerView, pls: Seq<Playlist>, es: Seq<PlayerEvent>) -> PlayerView
    decreases es.len(),
{
    if es.len() == 0 {
        v
    } else {
        event_step(run_events(v, pls, es.drop_last()), pls, es.last())
    }
}

/// A volume the screen can show: a percentage in steps of five.
pub open spec fn volume_ok(volume: u32) -> bool {
    volume <= 100 && volume % 5 == 0
}

/// The volume starts at 50 and, whatever events follow, stays between 0 and
/// 100 in steps of five; every volume key with a sink asks the sink for the
/// new volume.
pub proof fn lemma_volume_in_steps(pls: Seq<Playlist>, es: Seq<PlayerEvent>)
    ensures
        initial_view().volume == 50,
        volume_ok(run_events(initial_view(), pls, es).volume),
        forall|v: PlayerView, cmd: Command, sink: Sink, next: usize|
            (cmd == Command::VolumeUp || cmd == Command::VolumeDown) && sink != Sink::Missing
                ==> #[trigger] command_step(v, pls, cmd, sink, next).1 == (Action::SetVolume {
                volume: command_step(v, pls, cmd, sink, next).0.volume,
            }),
    decreases es.len(),
{
    if es.len() > 0 {
        lemma_volume_in_steps(pls, es.drop_last());
        lemma_event_keeps_volume(run_events(initial_view(), pls, es.drop_last()), pls, es.last());
    }
}

/// One event keeps a volume that is a percentage in steps of five.
pub proof fn lemma_event_keeps_volume(v: PlayerView, pls: Seq<Playlist>, e: PlayerEvent)
    requires
        volume_ok(v.volume),
    ensures
        volume_ok(event_step(v, pls, e).volume),
{
}

/// `Previous` steps back one track in the playing playlist and plays it
/// from the start; only the first track wraps round to the last.
pub proof fn lemma_previous_steps_back(
    v: PlayerView,
    pls: Seq<Playlist>,
    sink: Sink,
    next: usize,
)
    requires
        view_wf(v, pls),
    ensures
        ({
            let (w, a) = command_step(v, pls, Command::Previous, sink, next);
            let back = if v.playing_song > 0 {
                v.playing_song - 1
            } else {
                song_count(pls, v.playing_playlist as int) - 1
            };
            &&& w.playing_song == back
            &&& w.play_seconds == 0
            &&& w.playing_playlist == v.playing_playlist
            &&& w.volume == v.volume && w.is_playing == v.is_playing
            &&& a == (Action::Play { playlist: v.playing_playlist, song: back as usize })
        }),
{
}

/// The transport buttons do what their keys do: a left click on
/// Previous, Play/Pause or Next has exactly the effect of that command on
/// the view, besides recording the mouse position.
pub proof fn lemma_buttons_act_as_keys(
    v: PlayerView,
    pls: Seq<Playlist>,
    l: ScreenLayout,
    ev: MouseInput,
    sink: Sink,
    next: usize,
)
    requires
        ev.kind == MouseKind::LeftDown,
    ensures
        spec_click_target(l, ev.column as int, ev.row as int) == ClickTarget::Previous
            ==> mouse_step(v, pls, l, ev, sink, next) == command_step(
            with_mouse(v, ev),
            pls,
            Command::Previous,
            sink,
            next,
        ),
        spec_click_target(l, ev.column as int, ev.row as int) == ClickTarget::TogglePlay
            ==> mouse_step(v, pls, l, ev, sink, next) == command_step(
            with_mouse(v, ev),
            pls,
            Command::TogglePlay,
            sink,
            next,
        ),
        spec_click_target(l, ev.column as int, ev.row as int) == ClickTarget::Next
            ==> mouse_step(v, pls, l, ev, sink, next) == command_step(
            with_mouse(v, ev),
            pls,
            Command::Next,
            sink,
            next,
        ),
{
}

} // verus!
