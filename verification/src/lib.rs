//! Reading of 3D-printer motion text into a model of commands, and analysis of
//! that model: position replay, extrusion shapes, purge-line detection,
//! pre-print and post-print ranges, planarity and layer heights.

pub mod analyzer;
pub mod display;
pub mod emit;
pub mod errors;
pub mod file;
pub mod layers;
pub mod microns;
pub mod model;
pub mod numbers;
pub mod ordering;
pub mod parsers;
pub mod purge;
pub mod replay;
pub mod scan;
pub mod shapes;
pub mod text;

pub use crate::analyzer::Cursor;
pub use crate::analyzer::CursorError;
pub use crate::analyzer::PurgeConfig;
pub use crate::analyzer::ShapeError;
pub use crate::emit::Emit;
pub use crate::errors::GCodeParseError;
pub use crate::microns::Microns;
pub use crate::microns::Vec5;
pub use crate::model::Command;
pub use crate::model::Counter;
pub use crate::model::GCodeLine;
pub use crate::model::GCodeModel;
pub use crate::model::Id;
pub use crate::model::Tag;
pub use crate::model::G1;
