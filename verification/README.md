# opensokoban

A Sokoban game whose rules, level format and undo history carry proved contracts.

- `src/` is the verified library: tile codes (`config`), moving and pushing
  (`game`), the facts every move keeps (`rules`), the packed level format
  (`level`), a game in progress with undo, restart and level changes
  (`session`), the menu state (`ui`), sprite choice (`render`) and the window
  icons (`icon`, through the `image` crate).
- `app/` is the window: macroquad drawing, the egui menus, keyboard input and
  reading `levels.bin`, `assets.png` and `icon.png` from the working directory.
- `tests/` runs the library on concrete levels and moves.
