//! Packet layering, rule registry and port/DPI classification for a network
//! traffic analyzer, with the decisions of the capture and fan-out stages.
pub mod classifiers;
pub mod flow;
pub mod packet;
pub mod parsers;
pub mod rx;
pub mod session;
