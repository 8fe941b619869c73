//! A minimal real-time rendering core: shader and program lifecycle with
//! structured diagnostics, buffer-object wrappers with an explicit bind and
//! unbind discipline, an attribute-layout generator that maps a plain vertex
//! record to attribute slots, and a drawable that composes them.
//!
//! Every graphics command is issued against an explicit driver state machine
//! (`gl::Gl`), so the resource lifecycle - exactly one release per created
//! object, no leak on a failed compile or link, bind before use - is stated
//! in the contracts and proved.

pub mod buffer;
pub mod data;
pub mod gl;
pub mod glsl;
pub mod resources;
pub mod shader;
pub mod triangle;
