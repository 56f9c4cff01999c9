//! Monitoring of a market feed and of the alarms it raises.
pub mod alarm;
pub mod biz;
pub mod config;
pub mod manager;
pub mod monitor;
pub mod text;
pub mod views;
