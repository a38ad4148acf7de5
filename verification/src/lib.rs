//! Verified core of a job-posting collection subsystem: a durable run queue
//! with crash-safe claiming, collector request encoding, response
//! normalization, and an idempotent reconciler for companies and jobs.

pub mod api;
pub mod application;
pub mod auth;
pub mod collector;
pub mod collector_run;
pub mod collectors;
pub mod company;
pub mod config;
pub mod error;
pub mod event;
pub mod forms;
pub mod hiringcafe;
pub mod job;
pub mod json;
pub mod runner;
pub mod store;
pub mod util;
