//! Device-side ADB transport over a USB FunctionFS gadget: wire codec,
//! per-stream flow control, service state machines, multiplexor, and the
//! FunctionFS descriptor image.

pub mod chan;
pub mod mux;
pub mod proto;
pub mod scan;
pub mod shell;
pub mod svc;
pub mod sync;
pub mod usb;
