//! Focus enforcement for managed macOS endpoints: the device-management
//! check-in and command-queue engine, the on-device policy evaluation, and the
//! heartbeat protocol between the agent and its watchdog.

// Text, tables and the clock.
pub mod text;
pub mod scan;
pub mod table;
pub mod clock;

// The device-management protocol.
pub mod error;
pub mod enrollment;
pub mod checkin;
pub mod command;
pub mod push;
pub mod request;
pub mod cert;
pub mod signature;

// The store and what holds of it.
pub mod storage;
pub mod memory;
pub mod invariants;

// The services and the transport.
pub mod service;
pub mod nanomdm;
pub mod certauth;
pub mod multi;
pub mod handlers;
pub mod api;
pub mod apns;
pub mod clients;

// Policies, as the server distributes them.
pub mod policy;
pub mod app_enforcer;
pub mod net_enforcer;

// The agent, its watchdog and its command-line tool.
pub mod config;
pub mod schedule;
pub mod accessibility;
pub mod lsappinfo;
pub mod enforcer;
pub mod network;
pub mod ipc;
pub mod watchdog;
pub mod daemon;
pub mod challenge;
pub mod cli;
