# tui_prac

A terminal card game, split into a verified library and the program around it.

- `src/` is the library, verified with Verus:
  - `text`: decimal numbers, written and read back;
  - `cards`: the comma-separated card table read into item and event cards;
  - `game`: the rounds played around a table of players, and the votes;
  - `layout`, `card_widgets`, `screen`: what the table screen shows where, how
    it answers keys, and the loading progress; the division of the screen into
    areas is ratatui's;
  - `logfiles`: names and contents of the log files;
  - `network`: the messages peers exchange and the decisions on replies;
  - `util`: small vector helpers.
- `app/` is the program: terminal, files, sockets and threads, drawing with
  ratatui and reading keys with crossterm.
- `tests/` runs the library on concrete values.
