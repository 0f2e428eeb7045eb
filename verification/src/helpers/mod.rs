pub mod packet;
pub mod network;
pub mod events;
