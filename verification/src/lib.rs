//! Verified core of the UDX710 5G/LTE module management backend: AT response
//! parsing, band and cell lock encoding, configuration rules, loader script
//! maintenance, data usage accounting and the data connection watchdog.

pub mod text;
pub mod loader;
pub mod config;
pub mod models;
pub mod cells;
pub mod bands;
pub mod at_script;
pub mod cell_lock;
pub mod location;
pub mod watchdog;
pub mod clock;
pub mod usage;
pub mod reboot;
pub mod runtime;
pub mod sms;
pub mod usb;
pub mod ota;
pub mod calls;
pub mod webhook;
pub mod sms_push;
pub mod modem;
pub mod system;
pub mod mounts;
pub mod procinfo;
pub mod web;
pub mod device;
pub mod contexts;
pub mod telephony;
