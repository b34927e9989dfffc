//! What both ends of the tunnel share.

pub mod addr;
pub mod notation;
pub mod remote;
pub mod socks;
pub mod tcp;
pub mod text;
pub mod tunnel;
pub mod udp;
