//! The birthday card screen: scrolling, and where its "TAP ME" button sits.

use crate::player::Key;
use crate::text::same_text;
use crate::wrap::{wrap_text, wrapped};
use vstd::prelude::*;

verus! {

/// Input the card reacts to.
#[derive(Clone, Copy, Debug)]
pub enum CardInput {
    Key(Key),
    ScrollUp,
    ScrollDown,
}

/// What the card asks its caller to do.
#[derive(Clone, Copy, Debug, PartialEq, Eq)]
pub enum CardAction {
    Nothing,
    Quit,
    OpenPlayer,
}

pub open spec fn card_step(scroll: u16, input: CardInput) -> (u16, CardAction) {
    let down = if scroll < u16::MAX { (scroll + 1) as u16 } else { scroll };
    let up = if scroll > 0 { (scroll - 1) as u16 } else { 0 };
    match input {
        CardInput::Key(Key::Char(c)) => if c == 'q' {
            (scroll, CardAction::Quit)
        } else {
            (scroll, CardAction::Nothing)
        },
        CardInput::Key(Key::Esc) => (scroll, CardAction::Quit),
        CardInput::Key(Key::Down) => (down, CardAction::Nothing),
        CardInput::Key(Key::Up) => (up, CardAction::Nothing),
        CardInput::Key(Key::Enter) => (scroll, CardAction::OpenPlayer),
        CardInput::Key(_) => (scroll, CardAction::Nothing),
        CardInput::ScrollDown => (down, CardAction::Nothing),
        CardInput::ScrollUp => (up, CardAction::Nothing),
    }
}

/// Handles a key or wheel event on the card; returns the new scroll offset.
pub fn card_input(scroll: u16, input: CardInput) -> (r: (u16, CardAction))
    ensures
        r == card_step(scroll, input),
{
    match input {
        CardInput::Key(Key::Char(c)) => if c == 'q' {
            (scroll, CardAction::Quit)
        } else {
            (scroll, CardAction::Nothing)
        },
        CardInput::Key(Key::Esc) => (scroll, CardAction::Quit),
        CardInput::Key(Key::Down) => (scroll.saturating_add(1), CardAction::Nothing),
        CardInput::Key(Key::Up) => (scroll.saturating_sub(1), CardAction::Nothing),
        CardInput::Key(Key::Enter) => (scroll, CardAction::OpenPlayer),
        CardInput::Key(_) => (scroll, CardAction::Nothing),
        CardInput::ScrollDown => (scroll.saturating_add(1), CardAction::Nothing),
        CardInput::ScrollUp => (scroll.saturating_sub(1), CardAction::Nothing),
    }
}

/// Scrolling down and back up returns to the same place, short of the end
/// of the range.
pub proof fn lemma_scroll_down_up(scroll: u16)
    requires
        scroll < u16::MAX,
    ensures
        card_step(card_step(scroll, CardInput::Key(Key::Down)).0, CardInput::Key(Key::Up)).0
            == scroll,
        card_step(card_step(scroll, CardInput::ScrollDown).0, CardInput::ScrollUp).0 == scroll,
{
}

pub open spec fn spec_text_width(width: u16) -> usize {
    if width < 60 {
        if width < 1 { 1 } else { width as usize }
    } else {
        60
    }
}

/// Width of the message column: 60 cells, less on a narrower screen, at least 1.
pub fn text_width(width: u16) -> (w: usize)
    ensures
        w == spec_text_width(width),
{
    let w: usize = if (width as usize) < 60 { width as usize } else { 60 };
    if w < 1 { 1 } else { w }
}

pub open spec fn max16(a: u16, b: u16) -> u16 {
    if a >= b { a } else { b }
}

pub open spec fn spec_content_width(width: u16, heart_w: u16, banner_w: usize) -> u16 {
    let m = max16(max16(heart_w, banner_w as u16), spec_text_width(width) as u16);
    if m <= width { m } else { width }
}

/// Width of the card's content column: the widest of the heart, the banner
/// and the message, but no wider than the screen.
pub fn content_width(width: u16, heart_w: u16, banner_w: usize) -> (w: u16)
    ensures
        w == spec_content_width(width, heart_w, banner_w),
{
    let b = banner_w as u16;
    let t = text_width(width) as u16;
    let m1 = if heart_w >= b { heart_w } else { b };
    let m = if m1 >= t { m1 } else { t };
    if m <= width { m } else { width }
}

/// Line of the card holding the button: 48 lines of banners, spacing and heart
/// art around the message's `msg_lines` lines.
pub open spec fn button_line(msg_lines: nat) -> int {
    (48 + msg_lines) as int
}

/// First column of the button: 31 cells into the heart, which is centred in
/// the content column, itself centred on the screen.
pub open spec fn button_start(width: u16, content_w: u16, heart_w: u16) -> int {
    let x = (if width >= content_w { width - content_w } else { 0 }) / 2;
    x + (content_w - heart_w) / 2 + 31
}

/// The conditions under which the card's click geometry stays within `u16`
/// (the card would otherwise panic on the click).
pub open spec fn tap_allowed(
    width: u16,
    heart_w: u16,
    banner_w: usize,
    message: Seq<char>,
    scroll: u16,
) -> bool {
    let content_w = spec_content_width(width, heart_w, banner_w);
    let lines = wrapped(message, spec_text_width(width) as nat).len();
    &&& button_line(lines) <= usize::MAX
    &&& scroll <= (button_line(lines) as u16)
    &&& heart_w <= content_w
    &&& button_start(width, content_w, heart_w) + 8 <= u16::MAX
}

pub open spec fn spec_tap_hit(
    width: u16,
    heart_w: u16,
    banner_w: usize,
    message: Seq<char>,
    scroll: u16,
    col: u16,
    row: u16,
) -> bool {
    let content_w = spec_content_width(width, heart_w, banner_w);
    let lines = wrapped(message, spec_text_width(width) as nat).len();
    let start = button_start(width, content_w, heart_w);
    &&& row == (button_line(lines) as u16) - scroll
    &&& start <= col < start + 8
}

/// Whether a click at `(col, row)` lands on the heart's "TAP ME" button.
pub fn tap_me_hit(
    width: u16,
    heart_w: u16,
    banner_w: usize,
    message: &str,
    scroll: u16,
    col: u16,
    row: u16,
) -> (hit: bool)
    requires
        tap_allowed(width, heart_w, banner_w, message@, scroll),
    ensures
        hit == spec_tap_hit(width, heart_w, banner_w, message@, scroll, col, row),
{
    let text_w = text_width(width);
    let content_w = content_width(width, heart_w, banner_w);
    let msg = wrap_text(message, text_w);
    let msg_len = msg.len();
    assert(crate::wrap::string_views(msg@).len() == msg_len);
    let line_index = 48 + msg_len;
    let x = width.saturating_sub(content_w) / 2;
    let button_row = (line_index as u16) - scroll;
    let heart_start_x = x + (content_w - heart_w) / 2;
    let start = heart_start_x + 31;
    let end = start + 8;
    row == button_row && col >= start && col < end
}


/// Whether `tap_me_hit` may take these values (see `tap_allowed`).
pub fn tap_allows(width: u16, heart_w: u16, banner_w: usize, message: &str, scroll: u16) -> (b: bool)
    ensures
        b == tap_allowed(width, heart_w, banner_w, message@, scroll),
{
    let text_w = text_width(width);
    let content_w = content_width(width, heart_w, banner_w);
    let msg = wrap_text(message, text_w);
    let msg_len = msg.len();
    assert(crate::wrap::string_views(msg@).len() == msg_len);
    if msg_len > usize::MAX - 48 {
        return false;
    }
    let line = (48 + msg_len) as u16;
    if scroll > line || heart_w > content_w {
        return false;
    }
    let x = width.saturating_sub(content_w) / 2;
    let start = x as u32 + ((content_w - heart_w) / 2) as u32 + 31;
    start + 8 <= 0xFFFF
}


/// What the program does when started with `arg` as its first argument.
#[derive(Clone, Copy, Debug, PartialEq, Eq)]
pub enum Launch {
    /// Remove the installed program's directory.
    Uninstall,
    /// Show the card; the argument, if any, is the name on it.
    Card,
}

/// `--uninstall` asks for the uninstaller; anything else names the card's recipient.
pub fn launch_mode(arg: Option<&str>) -> (l: Launch)
    ensures
        l == (match arg {
            Some(a) => if a@ == "--uninstall"@ {
                Launch::Uninstall
            } else {
                Launch::Card
            },
            None => Launch::Card,
        }),
{
    match arg {
        Some(a) => if same_text(a, "--uninstall") {
            Launch::Uninstall
        } else {
            Launch::Card
        },
        None => Launch::Card,
    }
}

} // verus!
