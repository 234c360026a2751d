# models_tui

State and text logic of a terminal browser for AI model catalogs and
benchmark leaderboards, written in Verus with its behaviour stated in
`requires`/`ensures` contracts and proved.

## Layout

- `src/` — the verified library.
  - `text`, `sorting`, `formatting`: character-level string helpers, a stable
    insertion sort of row indices by key, decimal and RFC 3339 handling.
  - `event`, `mouse`, `scroll`, `palette`: key and mouse dispatch, hit-testing
    of cached panel rectangles, scroll offsets, terminal colors.
  - `benchmarks`: the leaderboard data model, sidebar and list state, radar
    axes, comparison helpers, section blurbs and the glossary; the layout of
    the leaderboard and compact lists (`list_view`), the creators sidebar
    (`creators_view`), the head-to-head table (`h2h`), the detail panel
    pieces (`detail`) and their assembly (`detail_lines`), the source and
    sub-tab bars (`bars`) and the pickers.
  - `models`: the model catalog tab — provider list, filtering, sorting, the
    grouped view built from the identity snapshot, navigation and mouse
    handling, with the invariant that the list and the group rows are current;
    the list layout (`list_view`), the detail panel pieces (`detail`) and
    their assembly (`detail_panel`), peer grouping and name relaxation of
    offerings left unlinked (`identity`), and the glossary.
  - `markdown`: changelog markdown to styled lines, with search highlighting.
  - `session`: decisions of the interactive loop (status line lifetime,
    status refetching, status texts).
- `tests/` — tests run against the compiled library.
- `app/` — terminal glue: conversions of events, colors, spans and lines,
  clipboard and browser access, float order keys and the radar geometry.
  It holds no event loop, frame drawing or price formatting.
