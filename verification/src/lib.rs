//! Streams a monitor or a window of this machine to web browsers over WebRTC.
//!
//! This crate holds the decisions of the program: what is captured, how frames
//! are framed and paced, who may watch, and what the menus and the settings
//! dialog show. Every item is verified; devices, sockets and windows are
//! driven from outside through plain values.

pub mod annexb;
pub mod audio;
pub mod auth;
pub mod broadcast;
pub mod capture;
pub mod dialog;
pub mod dxgi;
pub mod graphics;
pub mod joined;
pub mod log;
pub mod nvenc_encoder;
pub mod offer;
pub mod order;
pub mod pixels;
pub mod signaling;
pub mod stats;
pub mod table;
pub mod text;
pub mod tray;
pub mod trusted;
pub mod update;
pub mod wide;
