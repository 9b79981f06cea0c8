# noesis_bevy

NoesisGUI views inside a Bevy app: XAML is parsed and laid out by NoesisGUI,
painted on Bevy's own GPU, and composited onto a camera.

The library under `src/` decides; it is written in Verus and proved against the
contracts that stand on its functions. It draws nothing and calls no engine: it
takes what happened, and says what is to be done.

| Where | What |
|-------|------|
| `src/render_device/` | shader variants, vertex layouts, pipelines, uniform and geometry buffers, draws |
| `src/render/` | scenes, frames, input, subscriptions, data contexts, panels, fonts, baking, application resources |
| `src/text.rs`, `src/typography.rs`, `src/transforms.rs`, ... | the bridges: what a view asks of its named elements |
| `src/snapshots.rs`, `src/watches.rs`, `src/assigned.rs` | what was read or subscribed last, and what changed |
| `src/xaml.rs`, `src/theme.rs` | markup by URI, the default theme |
| `tests/` | the library on concrete values |
| `app/` | assets, GPU objects, ECS systems and the adapter to NoesisGUI |

Entities are 64-bit numbers in the library (Bevy's `Entity::to_bits`), and floats
are bit patterns: two of them are the same where IEEE 754 says they are equal.

Properties that hold of the library as a whole are public proof functions named
`law_...`, each beside the functions it speaks of.

## Building the app

The adapter in `app/noesis.rs` links NoesisGUI. It is compiled with
`RUSTFLAGS="--cfg noesis_sdk"` and the `shim` feature of `noesis_runtime`, with
`NOESIS_SDK_DIR` naming the installed SDK. `NOESIS_LICENSE_NAME` and
`NOESIS_LICENSE_KEY` license it; `NOESIS_SDK_DIR` is also where the default theme
is read from.
