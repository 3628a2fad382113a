# chipster

A CHIP-8 virtual machine. The library under `src/` is verified with Verus:

- `model.rs` describes the machine state as sequences and integers, how an opcode
  is decoded, what every instruction does (`execute_spec`), and on which states an
  instruction runs without a fault (`execute_ok`).
- `machine.rs` holds the executable `Machine`, whose methods are proved to act as
  the model says.
- `laws.rs` proves properties across instructions, such as a call followed by a
  return resuming after the call, or a sprite drawn twice leaving the screen unchanged.
- `rng.rs` holds the trusted bindings to the `tinyrand` generator used by `Cxkk`.

`app/` is the windowed front end (macroquad, clap): it reads the ROM file, maps the
keyboard, runs the cycles and draws the screen.
