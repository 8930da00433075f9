//! Core of a disk-image writer: image naming and digests, the download and
//! decompression pipelines, block-device records and the flash sequence.
pub mod custom;
pub mod decompress;
pub mod devices;
pub mod digest;
pub mod digest_table;
pub mod download;
pub mod flash;
pub mod format;
pub mod images;
pub mod path;
pub mod progress;
pub mod state;
pub mod system;
pub mod text;
