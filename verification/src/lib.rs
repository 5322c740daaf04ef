//! Discovery and interrogation of ONVIF cameras.

pub mod addr;
pub mod auth;
pub mod collector;
pub mod device;
pub mod disclosure;
pub mod discovery;
pub mod elements;
pub mod http;
pub mod interrogation;
pub mod plan;
pub mod probe;
pub mod probe_match;
pub mod profiles;
pub mod responses;
pub mod scopes;
pub mod services;
pub mod soap;
pub mod subnet;
pub mod tags;
pub mod text;
pub mod time;
pub mod url_parts;
pub mod views;
pub mod xml;
