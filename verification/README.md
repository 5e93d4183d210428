# kitty_graphics

The state and pixel logic of the [kitty graphics
protocol](https://sw.kovidgoyal.net/kitty/graphics-protocol/) for a terminal,
as a library whose functions are verified by Verus against their contracts.

- `src/kitty_parser.rs`: APC sequences and the `key=value` commands in them
- `src/kitty/state.rs`: image storage, quota, placements, deletion
- `src/kitty/animation.rs`: frames, their composition and playback
- `src/kitty/placement.rs`: cropping, scaling, offsets, image IDs
- `src/kitty/mod.rs`: chunked transfers and the dispatch of commands
- `src/bookmarks.rs`: bookmarks on lines of the grid
- `src/laws/`: what holds of several operations together
- `app/`: the terminal's side, which decodes payloads, inserts graphics and
  writes replies

Base64 decoding and image resizing are done by the crates `base64` and `image`;
what is believed of them is stated at `decode_base64` in `src/kitty/mod.rs` and
at `resize_rgba` in `src/kitty/placement.rs`. What is believed of
`std::str::from_utf8` is stated at `is_utf8` in `src/kitty_parser.rs`.
