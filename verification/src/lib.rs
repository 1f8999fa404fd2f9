//! Host-side protocol logic for NationalChip GX BootROM uploads and the
//! bootloader's command console.

pub mod text;
pub mod protocol;
pub mod loader;
pub mod commands;
pub mod cli;
pub mod uploader;
pub mod console;
pub mod serial;

pub use commands::Command;
pub use loader::BootImage;
pub use uploader::{GXUploader, GxUploader};
pub mod exchange;
