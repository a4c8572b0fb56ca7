pub mod cassette_ui;
pub mod window;
