//! The example client workload: a toy layered network stack, driven as
//! tasks on the runtime.

pub mod arp;
pub mod async_io_block;
pub mod async_modules;
pub mod driver;
pub mod ethernet;
pub mod icmpv4;
pub mod icmpv6;
pub mod ipv4;
pub mod ipv6;
pub mod module_traits;
pub mod packet;
pub mod protocol;
pub mod socket;
pub mod stack;
pub mod subres;
pub mod tcp;
pub mod udp;
pub mod user_app;
