//! Logic of the SSAM package daemon, stated as contracts and proved.

pub mod allocator;
pub mod apparmor;
pub mod bundle;
pub mod byte_order;
pub mod configuration;
pub mod daemon;
pub mod dm_control;
pub mod ext4quota;
pub mod ipv4;
pub mod mount;
pub mod name_map;
pub mod netavark_ops;
pub mod network;
pub mod network_actor;
pub mod network_laws;
pub mod oci;
pub mod package;
pub mod package_manager;
pub mod package_status;
pub mod package_volume;
pub mod parser;
pub mod path;
pub mod pkg_file;
pub mod state_machine;
pub mod store;
pub mod systemd;
pub mod text;
pub mod transition;
pub mod transitioner;
pub mod verity_device;
