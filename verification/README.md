# niri: window picker, UI sounds and their settings

A Verus-verified library for three parts of the niri compositor:

- `src/config/`: the sound and window-picker settings and how a configuration section is
  merged into them (`laws.rs` proves that an empty section changes nothing, that merging
  twice is merging once, and that `off` wins over `on`).
- `src/sounds.rs`: sound kinds and the cooldown rules that keep sounds from piling up,
  as a step function from a record of past sounds and a request to the file to play.
- `src/ui/`: the keyboard-driven window picker: which windows it offers and in which order,
  their letter labels, what a key press does, and what happens when windows close
  (`picker_laws.rs` proves, among others, that typing an entry's label selects it).

`app/` holds what stays outside the proofs: decoding the KDL configuration, reading
clocks, spawning the sound player, smithay conversions, and the floating-point layout of
the picker grid.
