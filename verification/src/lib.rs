//! Key derivation, container demultiplexing and audio bitstream parsing for
//! cutscene containers.

pub mod demux;
pub mod errors;
pub mod filetypes;
pub mod text;
pub mod tools;
pub mod version;
