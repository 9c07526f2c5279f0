# aquarium

The verified core of the Epiphany aquarium: the parts of the operator
surface, the synth and the native host that decide something, written in
Verus with their contracts proved.

- `src/script.rs` — the patch-script grammar: commands (`;` between
  commands on a line), `key=value` fields and their short names, the `v`
  short voice, `d` defaults, `def n=` templates borrowed with `u=`,
  comments, number and boolean literals, and the first broken rule with its
  line number.
- `src/text.rs` — the text primitives the grammar and the terminal rest on:
  lines, words, trimming, the `f32` literal grammar, decimal digits, text
  order and sorting.
- `src/rng.rs` — the seeded generator, the noise hash and the body-seed hash,
  bit for bit.
- `src/debug.rs` — renderer debug modes, body classes, saved settings, the
  debug terminal and its commands.
- `src/froxel.rs`, `src/raymarch.rs` — marking a body's cells in the froxel
  grid, and which bodies fill the raymarcher's slots.
- `src/operator.rs`, `src/json.rs`, `src/artifacts.rs` — the operator
  bridge: swarm members, operator actions, the harness tools' command lines,
  the JSON they write (read with serde_json into the library's own
  `JsonValue`), and the order artifact bundles are listed in.

`app/` is an ordinary Rust host around the library: the float synth and
its fundsp unit, the tank's float physics and projections, the bridge's
file, process and environment access, and a command-line front end.

Not carried over: the Bevy window itself (its UI tree, render graph and GPU
passes, ECS systems and spatial audio sources), the Tauri shell that exposed
the operator commands to the web front end, and the CultCache/CultNet runtime
bridge that stored client settings and bodies. The host here keeps their
decisions and math; renderer settings are saved as a JSON file. The
script-language features of newer synth builds that this one never had
(modulation lanes, buses, FM and formant fields) are refused as unknown.
