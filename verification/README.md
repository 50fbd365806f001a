# gcode_viewer

A G-code toolpath viewer. The library in `src/` is verified with Verus; the
program in `app/` opens the window, reads files, runs the GPU passes and
does the floating-point work.

## Library (`src/`)

- `gcode_line` — the line grammar: the comment starts at the first `;`, the
  rest splits into words at Unicode whitespace, and a `G1` line is a linear
  move whose words are split into an axis letter and value text. Laws: the
  words are non-empty and whitespace-free and put back together give the
  line's non-whitespace characters; splitting undoes joining with spaces;
  text after the first `;` never matters.
- `gcode_parser` — the parser state machine. Coordinates are values of a type
  parameter that the parser stores but never computes with; the caller reads
  values from text and decides, by comparing them, whether a move extrudes.
  Each move adds one point and four vertices; an extruding move adds six
  indices; a travel move closes the open segment. Laws: the counters stay
  consistent with the points and segments, and the segments lie end to end
  with their index ranges in order.
- `gcode_render` — the render data, the segment record, and the byte sizes of
  the GPU buffers.
- `camera` — the orbit camera's mouse-button flags: which drag a cursor move
  performs and when the drag anchor jumps to the cursor.

## Program (`app/`)

`main.rs` runs the winit event loop; `gcode_loader.rs` reads a file line by
line into the library's parser; `gfx/` holds the wgpu passes (with their WGSL
shaders), the camera matrices and the float side of the orbit camera;
`interface.rs` is the imgui window with the file dialog.
