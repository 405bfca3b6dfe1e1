//! IPC (Inter-Process Communication): the protocol spoken with clients and with gar.

pub mod protocol;
pub mod gar_client;
pub mod server;

pub use protocol::{Command, Response, ResponseData, Event};
pub use gar_client::{GarEvent, RawGarEvent};
pub use server::IpcClient;
