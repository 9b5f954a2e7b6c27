pub mod text;
pub mod tweaks;
pub mod czkawka;
pub mod cleaners;
pub mod backup;
pub mod cosmic_apps;
pub mod resource_monitor;
pub mod sudo_handler;
pub mod ui;
pub mod cosmic_themes;
pub mod benchmark;
