//! The core of a photo album server: the rules that decide what a request
//! asks for, which names may touch the file system, how an album is listed
//! and navigated, and what the pages look like. The file system and the
//! network stay with the caller; every function here works on plain values.

pub mod album;
pub mod http;
pub mod imaging;
pub mod names;
pub mod numbers;
pub mod pages;
pub mod params;
pub mod server;
pub mod thumbnail;
pub mod urls;
