# satty

The sketch board of a screenshot annotation tool: objects are drawn on an image,
selected, moved, resized and restyled, every change can be undone and redone, and
the result is copied or saved.

- `src/` is the library. Its logic is verified with Verus. Seven small private
  functions, marked `external_body`, call other crates and the standard library;
  what they state of those calls is trusted.
  - `math`, `fixed`: the plane, over any number type that implements `Scalar`;
    `Fixed` is one.
  - `style`, `configuration`, `text`, `paths`: values that the other modules share.
  - `tools`: the interfaces of objects and tools, the handles by which objects
    are edited (`edit`), the line tool (`line`), and what holds of boxes and lines
    (`laws`).
  - `femtovg_area`: the canvas with its objects, histories and transformation
    (`imp`, over the model in `state`), what holds of it across operations
    (`laws`), the layers and pixels of a frame (`background`), and fonts (`fonts`).
  - `sketch_board`: messages (`events`), shortcuts (`keys`), renderings (`image`,
    `output`), the board itself (`board`, over the model in `state`), and what
    holds of it across messages (`laws`, `histories`).
  - `profiling`: times of events.
- `app/` is the window around the library: widgets, the screen, files, the
  clipboard and other processes. Coordinates are single precision numbers there.
- `tests/` runs the library.

Each operation of the canvas and the board is described as a function on a
mathematical value (`AreaState`, `RendererState`, `BoardState`), and the code is
proved to compute that function.
