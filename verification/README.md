# ma_keyboard

Searches for a comfortable keyboard layout with a memetic algorithm:
populations of layouts are scored on a text corpus, the best of them climb by
swapping keys, and populations reproduce.

- `src/` is the verified library: the keyboard model (slots, keys, the
  layout and its ASCII table), the scoring rules, the evaluation of a layout
  on a corpus, the placement of keys by backtracking, the named layouts, the
  random shuffles and the choice of the keys that a table swap may trade.
  Scores are kept exact: efficiency factors are decimal fractions held as
  integers.
- `app/` is the program around it: the terminal display, reading the corpus
  from disk, logging, and the population dynamics, whose choices are weighed
  by floating-point scores.
- `tests/` runs the library on concrete layouts and texts.
