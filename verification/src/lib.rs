//! Mouse gestures and clipboard history for the Windows desktop: the
//! verified core that decides, converts and validates.

pub mod action;
pub mod actions;
pub mod bitmap;
pub mod config;
pub mod fbits;
pub mod gesture;
pub mod hook;
pub mod logging;
pub mod picture;
pub mod preview;
pub mod search;
pub mod storage;
pub mod text;
pub mod usage;
pub mod window;
pub mod windows_flow;
