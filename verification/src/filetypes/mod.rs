//! The file formats: the container, the audio stream inside it, and the
//! outputs.

pub mod ath;
pub mod bitreader;
pub mod block;
pub mod channel;
pub mod cipher;
pub mod crc;
pub mod hca;
pub mod header;
pub mod layout;
pub mod mkv;
pub mod permutation;
pub mod tables;
pub mod usm;
pub mod wav;
