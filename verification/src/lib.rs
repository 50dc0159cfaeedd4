//! Server-side core of a minimal TFTP-style file transfer protocol:
//! a wire-format packet codec, a per-transfer session state machine,
//! and a non-blocking file access registry.
#![allow(unused_imports)]

pub mod decode;
pub mod dispatch;
pub mod registry;
pub mod session;

pub use decode::AccessType;
pub use decode::Block;
pub use decode::Data;
pub use decode::Error as DecodeError;
pub use decode::Packet;
pub use decode::Request;
pub use decode::TftpClient;
pub use decode::TftpServer;
pub use registry::Error as RegistryError;
pub use registry::FileRegistry;
pub use registry::ReadFile;
pub use registry::WriteFile;
