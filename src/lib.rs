//! A minimal virtual machine monitor: guest memory, a 32-bit ELF loader, the
//! port-I/O emulator, the boot register convention, the message codec shared
//! with the guest, and the routing rules of the HTTP message gateway.

pub mod config;
pub mod bytes;
pub mod message;
pub mod elf;
pub mod error;
pub mod vmem;
pub mod vcpu;
pub mod emulator;
pub mod microvm;
pub mod route;
pub mod http;
pub mod gateway;
pub mod args;
pub mod profiler;
