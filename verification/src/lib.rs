//! Verified core of a G-code toolpath viewer: the G-code line grammar, the
//! parser state machine that turns moves into renderable geometry, the byte
//! sizes of the GPU buffers that hold that geometry, and the mouse-button
//! state machine of the orbit camera.

pub mod gcode_line;
pub mod gcode_render;
pub mod gcode_parser;
pub mod camera;
