//! Market impact: the Almgren-Chriss trajectory, the square-root model's window and the engine that
//! holds both.
pub mod almgren;
pub mod engine;
pub mod square_root;
