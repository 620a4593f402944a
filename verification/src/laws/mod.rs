//! Laws that hold of the library as a whole: how its operations relate to each
//! other, what each leaves alone, and when exactly each has its effect.
pub mod apps;
pub mod ids;
pub mod keep_alive;
pub mod menu;
pub mod numbers;
pub mod path;
pub mod quitting;
pub mod recents;
pub mod scanning;
pub mod settings;
pub mod steps;
pub mod views;
pub mod windows;
pub mod wording;
