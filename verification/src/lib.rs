//! Core logic of a desktop wallpaper switcher.
//!
//! The library covers the two halves of the wallpaper pipeline:
//!
//! * scanning a directory listing for image candidates, filtering by a
//!   case-insensitive set of allowed extensions (`scan`), and
//! * applying a selected image: validating the configuration, then driving
//!   the remove-link / create-link / run-post-script sequence (`apply`),
//!   whose filesystem effect is stated over a map model (`fsmodel`).
//!
//! All I/O (reading directories, touching the real link path, spawning the
//! post-script) lives outside this crate; the library works on plain values
//! handed in by the caller.

pub mod apply;
pub mod fsmodel;
pub mod image;
pub mod scan;
