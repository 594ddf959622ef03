//! Verified core of a transparent isolation layer for Linux applications.

pub mod text;
pub mod pkgtools;
pub mod sizes;
pub mod paths;
pub mod desktop;
pub mod envmeta;
pub mod shims;
pub mod sandbox;
pub mod healing;
pub mod menu;
pub mod install;
