//! A directory-listing library: classifies filesystem entries by kind,
//! assigns each a representative icon, and renders a sorted listing with
//! directories grouped ahead of all other entries.

pub mod entry;
pub mod icons;
pub mod order;
pub mod render;
