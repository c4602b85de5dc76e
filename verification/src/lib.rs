//! A client library for the Proxmox Mail Gateway HTTP API: the request
//! helpers that encode values for URLs and query strings, and the error
//! types that API calls report.

pub mod apis;
