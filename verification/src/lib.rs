//! Core of a math typesetting pipeline: the atom/node vocabulary shared by
//! a markup parser and a layout engine, and the rendering contract an SVG
//! backend realizes.  The parser, the layout engine and the font-metrics
//! database are external collaborators; this crate owns the node model and
//! the serialization of already-resolved geometry to an SVG document.

pub mod laws;
pub mod nodes;
pub mod num;
pub mod svg;
