//! The decision logic of a small home router: leases handed out on the LAN,
//! the lease obtained on the WAN, DNS forwarding, clock synchronisation, and
//! the supervision of the processes that run them.
//!
//! Every clock reading is a count of nanoseconds on a monotonic clock, and
//! every duration is a count of nanoseconds, unless a name says otherwise.

pub mod addr;
pub mod assoc;
pub mod text;
pub mod keys;
pub mod lease_table;
pub mod packet;
pub mod dhcp;
pub mod option_lengths;
pub mod hostname;
pub mod dhcp_server;
pub mod dhcp_client;
pub mod exchange;
pub mod client_laws;
pub mod ipc;
pub mod dns;
pub mod dns_cache;
pub mod dns_forwarder;
pub mod dns_laws;
pub mod sntp;
pub mod wan;
pub mod netlink;
pub mod dns_manager;
pub mod lan;
pub mod wan_laws;
pub mod lease_laws;
pub mod frame_laws;
pub mod dhcp_laws;
pub mod clock_laws;
pub mod name_laws;
pub mod supervisor;
pub mod system;
pub mod service_laws;
