//! Transfer bookkeeping for USB host endpoints, with its contracts proved.

#![allow(unused_imports)]

pub mod actuator;
pub mod completion;
pub mod endpoint;
pub mod error;
pub mod handle;
pub mod laws;
pub mod reclaim;
pub mod recovery;
pub mod state;
pub mod submit;
pub mod td;
pub mod transfer;
pub mod trb;
pub mod usb;
pub mod video;
pub mod xhci_endpoint;
