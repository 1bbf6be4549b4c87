//! Client-side core of the rngo data-simulation service: reassembling the
//! record stream, tracking the resumption cursor and routing every record to
//! the destination configured for its entity.

pub mod infer;
pub mod init;
pub mod sim;
pub mod util;
