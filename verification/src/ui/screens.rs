//! Screens composed by hand: the boot splash, the home screen and a menu.

pub mod home;
pub mod loading;
pub mod menu;
