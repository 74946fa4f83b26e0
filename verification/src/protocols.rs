pub mod arp;
pub mod ethernet2;
pub mod ipv4;
