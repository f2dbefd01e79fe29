# coin_cards

The rules of a card-and-coin puzzle game and of its scene editor, written in
Verus and proved against their contracts.

- `src/` is the verified library: cards and their presets (appearance,
  specialized JSON payloads merged over prefab payloads), game progress and
  card conditions, dialogues, interactions, the player coin's states, the
  main menu, terrains, the editor (interaction state, undo history, stacking
  order of intersecting cards, gestures, shortcuts and their status
  messages, scene file formats), and the SVG polygon tool's argument and tag
  parsing. Each module states its laws as public proof functions.
- `tests/` runs the library on concrete values.
- `app/` is the command-line SVG polygon tool and the unverified glue:
  configuration and scene files (serde, TOML, JSON), progress saving, and
  the floating-point geometry (sampling, Poisson-disk fills, polygon tests).
