# ascii_racer

A third-person racing game drawn into terminal character cells, split into a
verified library (`src/`, checked by Verus) and the program around it
(`app/`).

## Library modules

- `track`: the circuit's corner points, its checkpoint gates and guardrail
  segments, and lap progress: gates must be passed in order, each one only
  after the car has got away from the gates, and a lap counts once all six
  are passed. Proof functions state what any sequence of updates can and
  cannot do.
- `input`: keyboard state (which controls are held, quit and reset
  requests, letters read in either case) and the browser's input word.
- `hud`: the two display lines, composed character by character with exact
  specifications of the decimal and padded fields.
- `frame`: the grid of character cells, overlay text, the ANSI frame string
  and the packed `0xBBGGRRCC` words for the browser host.
- `glyph`, `mesh`, `renderer`: surface classes, glyph families, the density
  ramp, stroke masks and cell neighbourhoods used by the rasterizer, and the
  colour test of glyph history.
- `decimal`: decimal digits and padding as `format!` writes them.

## Program

`app/` holds the terminal loop, crossterm events, the floating-point car
physics, chase camera, mesh building, projection, rasterization and the
glyph scoring, all of which work on `f32` and glam vectors. It calls the
library for everything above.
