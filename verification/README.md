# stl_generator

The integer logic of a generator of STL models and cutting contours for
twisty puzzles, verified with Verus.

- `src/` — the verified library: part-index bitmasks (`bitmask`), the
  splitter decision trees of the cobblestone puzzles and the selection of the
  bounds a piece keeps (`decision_tree`), the key-point selection of side maps
  (`keypoints`), the display colour of a model (`part_index`), system result
  codes (`errors`), and the axle tool, octahedral mixup and roach creators:
  their settings and the part and sticker decisions they make from the
  outcomes of their geometric tests (`StickerProbe`, `ShellProbe`,
  `RoachProbe`).
- `app/` — the floating-point geometry around it (point types, the
  geometric tests of those creators, the octopus creator, the splitter tests of the cobblestone prism) and a driver
  that samples a creator's parts and prints their colours.
- `tests/` — tests of the library on concrete values.
