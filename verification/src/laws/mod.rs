//! What holds of the service and of the page, in terms of what goes in and what comes
//! out.
pub mod addresses;
pub mod answers;
pub mod leaders;
pub mod pages;
pub mod runs;
pub mod screen;
pub mod settings;
pub mod updates;
pub mod views;
