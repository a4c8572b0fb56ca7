pub mod buttons;
