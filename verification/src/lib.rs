//! The logic of the NavGator browser.

pub mod addons;
pub mod address;
pub mod archive;
pub mod autofill;
pub mod blocking;
pub mod bookmarks;
pub mod bridge;
pub mod codec;
pub mod console;
pub mod credentials;
pub mod dashboard;
pub mod dialogs;
pub mod distance;
pub mod downloads;
pub mod favicon;
pub mod frame;
pub mod highlights;
pub mod i18n;
pub mod input;
pub mod json;
pub mod merge;
pub mod number;
pub mod omnibar;
pub mod pages;
pub mod permissions;
pub mod preferences;
pub mod profile;
pub mod ranking;
pub mod reports;
pub mod resource;
pub mod sandbox;
pub mod session;
pub mod settings;
pub mod settings_law;
pub mod settings_page;
pub mod sources;
pub mod startup;
pub mod tabs;
pub mod text;
pub mod unicode;
pub mod welcome;
pub mod window;
