# v2c02

A per-dot model of the Ricoh 2C02 (the NES PPU), its register file, and
the logic that drives and reads the switch-level chip, proved with Verus.

The stepper's sequencer is a table, one event word per dot of a frame,
measured out of the switch-level chip; its datapath (v, t, fine X, the
fetch latches and shifters, the increments and copies, sprite evaluation
and the priority mux, the palette lookup) and its register file are
stated as a state-transition specification, and every executable step is
proved against it.

## Layout

- `src/` — the verified library.
  - `fast.rs`: the stepper (`Fast`), its view and specification, the
    register file, `step_dot`, `frame_with_writes`.
  - `laws.rs`: what the register file and the stepper keep across calls
    (address and scroll pairs, status reads, palette and OAM read-back,
    the vblank read race and a spent suppression, the cursor's k-th dot,
    sprite 0's hit and the overflow over a frame, rendering off and the
    blank picture, v and t fifteen-bit).
  - `scroll.rs`: the v/t address model, increments, copies, fetch
    addresses. `race.rs`: the $2002 read race. `position.rs`: the frame's
    traversal order. `picture.rs`: the frame's dots.
  - `bus.rs`: the VRAM bus trait and the pure-function world.
  - `world.rs`: the standard and sprite worlds' VRAM, OAM and register
    programs, and the read-back scripts.
  - `recorder.rs`: the sequencer table's recorder (the fetch a latched
    address names, half-steps folded into a word per dot). `holds.rs`: the
    rail-conflict node list read out of the reference simulator's text.
  - `pins.rs`: bus values from node levels, the CPU access protocol's pin
    actions, the CHR bus's edges. `capture.rs`: frame capture off the
    chip's outputs. `table.rs`: the measurements decoded from bytes.
- `tests/` — concrete scenarios for the library.
- `app/` — the switch-level engine around the library: power-on, the
  harness on the engine's nodes, capture and recording loops, the files,
  and conversion to nes-bus's `DotFrame`.
