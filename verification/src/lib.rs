//! The decisions of a stand-alone system tray: which icon, label and
//! tooltip each widget shows, how menus are laid out, and how the set of
//! tray items evolves as StatusNotifier events arrive.

pub mod text;
pub mod menu;
pub mod icon;
pub mod volume;
pub mod battery;
pub mod tray;
