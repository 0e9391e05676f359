pub mod addr;
pub mod udp;
