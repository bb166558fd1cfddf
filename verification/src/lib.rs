//! The logic of the purrtty terminal: selecting text in the grid, deciding what
//! a frame draws, keeping vertex buffers, reading the agent's event stream and
//! running the window shell.
//!
//! The modules take and give plain values. Windows, the GPU, processes and files
//! are the business of the program around this library.
pub mod agent;
pub mod dump;
pub mod grid;
pub mod json;
pub mod quad;
pub mod renderer;
pub mod selection;
pub mod shell;
pub mod text;
