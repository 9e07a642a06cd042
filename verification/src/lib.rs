//! The drivers of Idunn: what it takes to bring one admitted release of a service from its
//! source to a route, told as decisions.
//!
//! Nothing here reads a file, runs a program or opens a socket. Whoever does hands in what was
//! found, as a *reading* that may itself have failed, and is handed what to do next: a value, a
//! plan of steps, or a [`text::Refusal`] in its own words. Every decision is stated over what
//! was found, in the order in which it is looked at, and proved.
//!
//! - Sources: [`gittree`], [`selection`], [`source`], [`stream`], [`materialize`], [`freeze`],
//!   [`freeze_order`], [`links`], [`tree`], [`stores`].
//! - Builds: [`runner`], [`building`], [`deeds`].
//! - Workloads under systemd: [`units`], [`procfs`], [`launch`], [`start`], [`watch`],
//!   [`admission`], [`lifecycle`], [`workload`], [`authority`], [`bundle`].
//! - Projection and leases: [`records`], [`topology`], [`lease`].
//! - Routes: [`route`], [`wire`].
//! - Managed hosts: [`protocol`], [`hub`], [`remote`], [`host`], [`host_build`],
//!   [`host_config`], [`platform`].
//! - What all of them stand on: [`text`], [`paths`], [`maps`], [`scan`], [`listing`],
//!   [`digest`], [`encoding`], [`clock`], [`fresh`], [`binding`], [`observation`], [`ports`].
//!
//! The modules whose names end in `_laws`, and the public proof functions of the others, state
//! what holds across functions.
pub mod admission;
pub mod admission_laws;
pub mod authority;
pub mod authority_laws;
pub mod binding;
pub mod build_laws;
pub mod building;
pub mod bundle;
pub mod clock;
pub mod container_laws;
pub mod deed_laws;
pub mod deeds;
pub mod digest;
pub mod encoding;
pub mod envelope_laws;
pub mod freeze;
pub mod freeze_laws;
pub mod freeze_order;
pub mod fresh;
pub mod gittree;
pub mod hash_laws;
pub mod host;
pub mod host_build;
pub mod host_config;
pub mod host_laws;
pub mod hub;
pub mod hub_laws;
pub mod launch;
pub mod launch_laws;
pub mod lease;
pub mod lifecycle;
pub mod links;
pub mod listing;
pub mod maps;
pub mod materialize;
pub mod observation;
pub mod paths;
pub mod platform;
pub mod ports;
pub mod procfs;
pub mod protocol;
pub mod records;
pub mod remote;
pub mod route;
pub mod route_laws;
pub mod runner;
pub mod runner_laws;
pub mod scan;
pub mod selection;
pub mod source;
pub mod source_laws;
pub mod start;
pub mod start_laws;
pub mod store_laws;
pub mod stores;
pub mod stream;
pub mod text;
pub mod topology;
pub mod topology_laws;
pub mod tree;
pub mod tree_laws;
pub mod units;
pub mod watch;
pub mod watch_laws;
pub mod wire;
pub mod wire_laws;
pub mod witness_laws;
pub mod workload;
pub mod workload_laws;
