# starfin

The logic of a media-library front end and its HLS player, written in Verus
and proved against its contracts.

- `src/` — the verified library:
  - `api`, `models`: the library listing, its search and metadata filters,
    and the sort orders; `apply_filters` is proved to return exactly the
    matching elements, ordered by the chosen key.
  - `listing`: edits of the loaded listing (the server's copy of an item,
    the optimistic favorite flip and its roll-back, items streamed in by a
    scan), with laws on how these edits combine.
  - `display`, `layout`, `player`, `preview`, `status`: time and date
    formatting, the virtual grid window, rating and tag editing, tag
    suggestions, the swipe view's slots, keyboard shortcuts and speed steps,
    the hover preview's sprite frames, badges, session state and progress
    labels.
  - `hls/`: playlist parsing (master and media playlists, attribute lists,
    byte ranges, keys, date ranges), adaptive bitrate selection with level
    caps and switch modes, the controller that ties them together, retry and
    cache state for fragment loading, ID3 / `emsg` metadata, and error
    recovery rules.
  - `text`, `hex`, `attributes`, `std_text`: character-level helpers, with
    the few calls into `std` and `chrono` behind small trusted wrappers.
- `tests/` — executable tests of the library.
- `app/` — the browser side: HTTP fetches, timers, Media Source buffers,
  floating-point measurements and the event plumbing, calling into the
  library for every decision.

Verify with Verus on `src/lib.rs`; the tests run with `cargo test`.
