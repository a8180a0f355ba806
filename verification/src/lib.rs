//! Building blocks of a private platform that hands out virtual machines:
//! the shared definitions, the text of the commands that drive the VM
//! engines and the NAT table, the client-side request logic and the
//! framing of the remote-execution service.

pub mod client;
pub mod def;
pub mod image;
pub mod nft;
pub mod rexec;
pub mod text;
pub mod vm;
