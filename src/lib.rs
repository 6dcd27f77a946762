//! Dock profile management: parsing of `dockutil --list` output, percent
//! decoding of file URLs, the profile store's data and operations, the
//! decisions of the profile apply protocol, where `dockutil` is found, and
//! how an application's icon is located and encoded.

pub mod apply;
pub mod decode;
pub mod dockutil;
pub mod icon;
pub mod profiles;
pub mod store;
pub mod text;
pub mod tool;
