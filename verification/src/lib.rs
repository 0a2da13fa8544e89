pub mod adapters;
pub mod ble;
pub mod bytes;
pub mod channels;
pub mod client;
pub mod collector;
pub mod commands;
pub mod delivery;
pub mod fragmentation;
pub mod inbox;
pub mod laws;
pub mod message;
pub mod outbox;
pub mod packet;
pub mod peers;
pub mod protocol;
pub mod seen;
pub mod table;
pub mod text;
