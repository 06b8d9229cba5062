//! Verified core of a mod manager and its installer: the rules that decide
//! where a mod's files live, which dropped file names an executable, how the
//! list of installed mods and its selection change, and how the installer
//! reads a release description and steps through a download.

pub mod paths;
pub mod text;
pub mod files;
pub mod modifications;
pub mod screens;
pub mod manager;
pub mod http;
pub mod installer;
