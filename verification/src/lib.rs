//! The logic of the COM port notifier: what the registry says about the serial ports, what a
//! device notification changes, how events reach their consumer, how the watcher thread lives
//! and dies, and what a notification shows and asks for.
//!
//! The system calls are made elsewhere; this library decides which one comes next and takes in
//! what each of them returned.
pub mod activation;
pub mod channel;
pub mod event;
pub mod lifecycle;
pub mod ports;
pub mod registry;
pub mod text;
pub mod toast;
pub mod utf16;
pub mod watcher;
