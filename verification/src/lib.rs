//! A fixed-point raycasting engine for tile maps.
//!
//! The engine draws a first-person view of a grid of wall and empty cells
//! into a grid of glyphs: one ray per screen column, a wall span in each
//! column as high as the wall is near, shaded by distance, over a floor
//! shaded by screen row. It also guards the player's moves against the same
//! grid.
//!
//! Positions, distances, angles and times are integers counted in units of
//! `1 / ONE`: a map cell is `ONE` units wide, a radian `ONE` units of angle,
//! a second `ONE` units of time. Trigonometry is the caller's: every
//! function that needs a bearing takes a [`direction::Direction`], the sine
//! and the cosine of an angle. Everything else (sampling the map, marching
//! rays, guarding moves, shading and composing a frame) is integer
//! arithmetic, stated and proved here. Where a function asks something of
//! its caller, its `requires` says so; most ask nothing and take every input.
//!
//! The first coordinate of a position counts rows of the map, the second
//! columns; a bearing moves a point by its sine along the first and by its
//! cosine along the second.

pub mod collision;
pub mod compositor;
pub mod config;
pub mod direction;
pub mod fixed;
pub mod input;
pub mod player;
pub mod raycaster;
pub mod shader;
pub mod telemetry;
pub mod tile_map;
