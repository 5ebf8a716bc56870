//! Decoder for SNSS session snapshot buffers: a fixed header followed by
//! length-prefixed, opcode-tagged records, decoded into an ordered sequence
//! of tab-restore commands.

pub mod commands;
pub mod reader;
pub mod decode;
pub mod parse;
pub mod laws;
