//! Brightness control from a tray icon, over DDC/CI.
//!
//! The library holds what the app decides, draws and says; the app around it
//! talks to the operating system and the monitor.
//!
//! - [`monitor`] decides what the worker that owns the display does;
//!   [`monitor_laws`] states what its steps add up to, and [`worker_laws`] what
//!   each of them does in plain numbers.
//! - [`connect`] finds the first display that answers a brightness query, and
//!   [`connect_laws`] states what it makes of the bytes of the replies.
//! - [`scroll`] turns wheel events over the icon into notches, and
//!   [`scroll_laws`] states which events those are.
//! - [`icon`] draws the gauge, and [`icon_laws`] states how it looks; [`sweep`]
//!   decides how far its ring is filled, by the exact [`angle`] of each sample.
//! - [`tray`] says what the tray shows and what its menu asks for, and
//!   [`tray_laws`] states what the menu offers and the texts say.
//! - [`autostart`] and [`single_instance`] hold the rules of the "Launch on
//!   startup" setting and of the one running instance.
//! - [`text`] reads and writes numbers and names.

pub mod angle;
pub mod autostart;
pub mod connect;
pub mod connect_laws;
pub mod icon;
pub mod icon_laws;
pub mod monitor;
pub mod monitor_laws;
pub mod scroll;
pub mod scroll_laws;
pub mod single_instance;
pub mod sweep;
pub mod text;
pub mod tray;
pub mod tray_laws;
pub mod worker_laws;
