//! Core of a multi-tenant control plane for a fleet of remote execution agents:
//! provisioning, authentication, lease-based task scheduling and a workflow runtime,
//! with the rules of the gateway that stands before it: admission of requests, the
//! agents it has heard of, and the content routes.
pub mod agents;
pub mod auth;
pub mod auth_laws;
pub mod build_info;
pub mod claims;
pub mod config;
pub mod content;
pub mod crypto;
pub mod engine_laws;
pub mod error;
pub mod gateway;
pub mod ids;
pub mod json;
pub mod models;
pub mod orchestration;
pub mod persistence;
pub mod provisioning;
pub mod registry;
pub mod scheduling;
pub mod scope;
pub mod store_laws;
pub mod stores;
pub mod table;
pub mod text;
pub mod time;
pub mod token;
pub mod uploads;
pub mod wire;
pub mod workflow;
