# game_tweaks

Two tweaks for a vehicle building game, with their decisions verified by Verus.

- **Microcontroller size** widens the range of the editor's width and length
  sliders, and puts the game's own range back when it is locked or taken out.
- **Property editor** captures the addresses of the selected component's
  properties with a hardware breakpoint, shows their values, and writes others.

## Layout

- `src/` is the library. It touches neither the game nor the system: each
  function goes from plain values to plain values. Addresses are `u64`, float
  properties are their bits.
  - `capture`: the table of captured addresses.
  - `watch`: the state shared with the exception handler, and the handler.
  - `threads`: the walk over the process's threads, and the debug registers.
  - `property_editor`, `render`: the panel, drawn step by step.
  - `frame`, `frame_writes`: what holds of whole frames, and what they write.
  - `microcontroller_size`: the way to the sliders, and what to write to them.
  - `pattern`: the byte patterns of the hooked code.
  - `tweak`: menu entries and errors.
- `app/` hooks the game and carries out what the library decides. All but its
  shared state needs Windows.
- `tests/` runs the library on concrete values.

## Two ways of stepping

Where outside work and decisions alternate, the library is a step function:
`ThreadWalk`, `FrameWalk` and `RenderStep` each name the next thing to do, and
take back what came of it. The laws about them (`law_*`) speak of whole runs.
