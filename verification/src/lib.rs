//! Integer logic of the STL part generator for twisty puzzles: part-index
//! bitmasks, the splitter decision trees of the cobblestone puzzles, the
//! colour assignment of generated models and the per-creator settings that do
//! not depend on geometry.
pub mod bitmask;
pub mod decision_tree;
pub mod part_index;
pub mod errors;
pub mod axle_tool_creator;
pub mod octo_mixup_creator;
pub mod roach_creator;
pub mod keypoints;
