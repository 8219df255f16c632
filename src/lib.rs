//! A plugin that teaches a tool manager to install Nix: it reads release
//! versions out of the repository's tags, and locates the prebuilt archive
//! and the executable for a host.

pub mod config;
pub mod dist;
pub mod download;
pub mod pages;
pub mod platform;
pub mod template;
pub mod tool;
pub mod versions;
