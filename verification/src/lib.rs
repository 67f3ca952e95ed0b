pub mod discovery;
pub mod events;
pub mod linux_input;
pub mod packet;
pub mod pairing;
pub mod receiver;
pub mod state;
pub mod text;
