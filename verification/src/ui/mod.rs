pub mod cassette;
