//! Detection of gratuitous ARP announcements and their fan-out to local
//! subscribers.
//!
//! The library holds the decisions of the service: which captured frames are
//! gratuitous ARP announcements, how an announcement is written on the wire,
//! and which subscribers a broadcast goes to. Capturing frames, accepting
//! connections and writing to them is left to the program around it.

pub mod frame;
pub mod wire;
pub mod dispatch;
