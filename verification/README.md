# iso_store

The rules of an isometric store-building game, written in Verus and proved against
their contracts.

- `src/` is the verified library: the chunk grid of the store and the purchase rules
  (`chunks`, `reach`, `connect`, `area`, `expansion`, `overlay`), the boundary walls
  derived from the owned area (`boundary`), the order of placement checks
  (`placement`), domain commands and their events (`commands`), what a save records
  and how a load is planned (`save`), object ids and small object rules (`objects`),
  highlight planning (`highlight`), NPC task rules (`npc`), catalog checks (`catalog`)
  and input bindings (`input`). World geometry of the chunk grid is held in integer
  world units.
- `tests/` runs the library on concrete values.
- `app/` is a headless Bevy host: it reads the keyboard and mouse, runs the library's
  decisions in a schedule, keeps the floating-point geometry of the game, and writes
  and reads the quick-save file as JSON.
