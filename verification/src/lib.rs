//! A generator for OpenSCAD source text.
//!
//! Callers build a tree of [`ScadObject`] values, each wrapping one
//! [`ScadElement`] and carrying any number of ordered children, and collect
//! top-level objects in a [`ScadFile`] together with a global detail setting.
//! `get_code` on an object or a file produces the textual SCAD program, a
//! pure function of the tree.

pub mod scad_element;
pub mod scad_file;
pub mod scad_object;
pub mod text;

pub use scad_element::ScadElement;
pub use scad_element::Vec3;
pub use scad_element::vec3;
pub use scad_object::ScadObject;
pub use scad_file::ScadFile;
