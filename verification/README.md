# gift

A terminal birthday card with fireworks and a hidden music player, with its
logic verified in Verus.

- `src/` is the verified library:
  - `banner` – the ANSI Shadow letter glyphs and banners built from them;
  - `wrap` – greedy word wrap of the card's message;
  - `format` – dates ("Mar 5, 2024"), "m:ss" clocks, playlist lengths and
    scrolling titles;
  - `catalog` – songs and playlists built from the album list (track lengths
    measured with `mp3-duration`);
  - `queue` – the shuffled "up next" queue (shuffled with `rand`);
  - `player` – the player screen's state machine: keys, clicks and timer ticks
    in, playback actions out;
  - `screen` – drawing decisions of the player (themes, labels, highlights,
    progress bar, album-art placeholder);
  - `card` – scrolling and the "TAP ME" button of the card;
  - `grid`, `layout`, `rng`, `text` – fireworks canvas, rectangles, the
    xorshift generator and UTF-8/text helpers.
- `app/` is the program: terminal setup and drawing (ratatui, crossterm),
  audio output (rodio), reading the album list (serde_json), and the
  floating-point fireworks.
- `tests/` exercises the library on concrete values.
