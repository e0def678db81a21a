//! Verified core of the Flash-style timeline editor demo: the data model of
//! the library panel, the debug console, the tools and the stage selection,
//! and the in-process timeline engine that stands in for the RustFlash editor.

pub mod clock;
pub mod color;
pub mod engine;
pub mod frame_grid;
pub mod ids;
pub mod library;
pub mod logging;
pub mod placement;
pub mod properties;
pub mod script;
pub mod stage;
pub mod text;
pub mod tools;
