//! A ring buffer of log lines filled from the network and read by any number of
//! followers, with the pieces of the wire protocol that ship lines to clients.

pub mod ring;
pub mod recent;
pub mod sync;
pub mod text;
pub mod logline;
pub mod logdata;
pub mod receiver;
pub mod reference;
pub mod log_data;
pub mod tcp;
pub mod listener;
pub mod window;
