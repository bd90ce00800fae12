//! The communication between RPUs: the messages of the peer protocol, their
//! framing on a stream, and the calculator that answers `Add` and `Sub`.

pub mod calculator;
pub mod message;
pub mod frame;
