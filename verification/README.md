# snappea

The decision-making core of SnapPea, a screenshot and screen-recording tool
for Wayland desktops, written in Verus: the functions in `src/` carry
contracts and are proved against them.

Six small wrappers are the exception: their contracts are believed, not
proved, and each one's doc comment says what it claims of the code it calls.

- `dmabuf::parse_fourcc` and `dmabuf::parse_modifier` — drm-fourcc's
  conversions from raw format and modifier codes;
- `image::encode_png_rgba8` — the png crate's encoder, writing an RGBA image
  into a byte buffer;
- `media::url_from_file_path` — the url crate's `Url::from_file_path`;
- `keys::to_lowercase` and `keys::to_uppercase` — std's case mapping of
  strings.

Beside them stand the declarations of the png crate's error type and the
names that these contracts give to what the calls return.

## Layout

- `src/` — the verified library:
  - `geometry`, `selection`, `record_target` — rectangles, what is selected,
    and which screen a recording runs on;
  - `annotations` — the annotation history with undo/redo and the drawing
    tools;
  - `keys`, `config`, `shortcuts` — key events, rebindable shortcuts, tool
    cycling and defaults;
  - `encoder`, `crop`, `dmabuf`, `capture`, `recording` — encoder choice,
    even-sized crops, buffer formats, the recording loop's bookkeeping and
    the active-recording registry;
  - `image` — RGBA images, PNG encoding and pixelation;
  - `media` — the media editor's decisions (clipboard, GIF timing, export);
  - `ocr` — preparing images for text recognition and assembling its words;
  - `portal`, `ui`, `cli`, `paths`, `text` — the portal's answers, popups
    and tray, command-line parsing, save locations and string helpers.
- `tests/` — tests run against the compiled library.
- `app/` — the `snappea` command: argument handling, the recording state
  file and the D-Bus hand-over to a running instance.
