//! An image browser without its window: a sorted list of image files, the
//! file that is being looked at, and the view of it (position, zoom and
//! rotation), driven by inputs that arrive as plain values.
//!
//! Lengths on screen are whole pixels. Positions in an image are fixed-point
//! numbers of [`fixed::UNIT`] units to the pixel, and a zoom is an exact
//! ratio of two integers, so that every operation has one result that holds
//! on every machine.

pub mod app;
pub mod display;
pub mod filelist;
pub mod fixed;
pub mod geometry;
pub mod input;
pub mod laws;
pub mod paths;
pub mod view;
pub mod zoom;

pub use app::App;
pub use display::{Font, Image};
pub use paths::is_image_path;
