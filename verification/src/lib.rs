//! Logic of a peer-to-peer service mesh and of a virtual network.
//!
//! In the mesh a host finds the services that listen on it ([`services`]), watches
//! them ([`watch`]) and tells gateways which it knows ([`host`], [`mesh`],
//! [`line`]). A gateway opens the announced ports ([`gateway`], [`ports`]) and
//! forwards connections to the host ([`forward`]).
//!
//! In the virtual network a node has an address of its own ([`addr`], [`secret`],
//! [`tun`]), meets others ([`vnet`], [`pool`]) and sends them the packets that are
//! for them in frames ([`daemon`], [`frame`]).

pub mod addr;
pub mod daemon;
pub mod forward;
pub mod frame;
pub mod gateway;
pub mod host;
pub mod line;
pub mod maps;
pub mod mesh;
pub mod pool;
pub mod ports;
pub mod secret;
pub mod services;
pub mod text;
pub mod tun;
pub mod vnet;
pub mod watch;
