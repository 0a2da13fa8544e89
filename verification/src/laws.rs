//! What holds of the library as a whole, whatever goes into it.
pub mod commands;
pub mod keeping;
pub mod messages;
pub mod packets;
pub mod receiving;
pub mod sending;
pub mod text;
pub mod views;
