//! Engine core: action-based input handling, log formatting and the
//! decisions of the graphics backends, each stated and proved with Verus.
pub mod input;
pub mod logging;
pub mod graphics;
pub mod math;
