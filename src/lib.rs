//! Inspection and reconstruction of cartridge images of the Zelda64 games: discovery and
//! decoding of the file table embedded in an image, and rebuilding the image with every
//! file decompressed, at its virtual address or packed from offset 0.
pub mod bytes;
pub mod codec;
pub mod common;
pub mod convert;
pub mod decompress;
pub mod discovery;
pub mod dma;
pub mod models;
pub mod n64;
pub mod primitive;
pub mod range;
pub mod rom;
pub mod segment;
pub mod table;
