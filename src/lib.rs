//! Link layer of wireless M-Bus (EN 13757-4): BCD fields, the 3-out-of-6 line
//! code, the block layouts of frame formats A and B, meter addresses and the
//! packet parser.

pub mod bcd;
pub mod error;
pub mod ffa;
pub mod ffb;
pub mod frameformat;
pub mod mbusaddress;
pub mod threeoutofsix;
pub mod wmbus;

pub use self::threeoutofsix::ThreeOutOfSix;
pub use self::wmbus::WMBusPacket;
