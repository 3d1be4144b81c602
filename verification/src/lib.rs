//! Reading of CMSIS pack descriptions (`.pdsc` files).
//!
//! The XML document is parsed by `minidom` into [`xml::XmlElem`], a plain
//! tree, and every rule of the pack description format is then applied to
//! that tree by verified code.

pub mod check;
pub mod component;
pub mod condition;
pub mod device;
pub mod dump;
pub mod laws;
pub mod package;
pub mod parse;
pub mod release;
pub mod strmap;
pub mod text;
pub mod xml;

pub use component::{Bundle, ComponentBuilder, FileRef};
pub use package::{Board, Component, Package};
pub use release::{Release, Releases};
