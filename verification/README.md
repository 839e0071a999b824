# termarium

A terminal planetarium whose interaction logic, search, naming, layout and
export naming are written in Verus and proved against their contracts.

## Layout

- `src/` — the verified library
  - `text.rs` — character classes, trimming, substring search, decimal
    numbers, splitting and lines
  - `config.rs` — languages, themes, character sets, landscape, orientation and
    sky-culture settings, defaults and the timezone check
  - `constellations.rs` — figure files, western and Chinese figure names,
    Chinese star names and figure search
  - `star_aliases.rs` — curated star names, display names and star search
  - `deep_sky.rs`, `planets.rs` — search over deep-sky objects and planets
  - `search.rs` — the search box and the combined sky search
  - `keys.rs` — what each key does on each screen, held-key detection, how
    time shifts are shown, and what a clock tick does
  - `mouse.rs` — screen rectangles, the sky screen's layout, dialog boxes and
    what a click or a turn of the wheel does
  - `pointer.rs` — what the sky pointer picks and lists on a cell
  - `app.rs` — screens, settings panel, pointer, city presets and city search,
    zoom bounds
  - `setup.rs` — the location form and its preset search
  - `selection.rs` — the selected target, the figure zoom and which figure
    the zoomed sky draws
  - `visibility.rs` — which figures can be seen, in `String` order
  - `layout.rs` — label placement on the globe and which city a click picks
  - `figure_labels.rs` — where figure names go on the sky and which a click
    lands on
  - `canvas.rs` — glyphs, label widths, text and the pointer's reticle on a
    grid of cells
  - `palette.rs` — theme colours; `export.rs` — export sizes, formats, file
    names, output paths, ffmpeg arguments, SVG colours, recordings and the
    background export job
  - `labels.rs` — short labels; `catalog.rs` — catalogue counts and the
    rows of the star, deep-sky and world map files
- `tests/` — tests of the library on concrete values
- `app/` — the `termarium` program: command line, configuration file, data
  files (the numbers in their rows read as floating point), the
  floating-point astronomy that decides which stars are up and where they
  are drawn (including a zoomed figure), an SVG writer for a rendered
  screen, and a line-oriented session in which each input line is read as
  key presses

The data files (`hyg_v42_bright.csv`, `constellation_lines_hip.csv`,
`chinese_sky_lines.csv`, `chinese_sky_figures.csv`, `chinese_star_names.csv`,
`deep_sky.csv`, `world_110m_lines.csv`, `world_110m_land.csv`) are read from
the directory named by `TERMARIUM_DATA`, or `data` by default.
