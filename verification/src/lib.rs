//! Verified core of the Vareliox workspace: text scanning, command policy,
//! prompt assembly and provider-response shaping.
mod text;
pub mod vm;
pub mod web;
pub mod urls;
pub mod diagnostic;
pub mod search;
pub mod agent;
pub mod paths;
pub mod json;
pub mod catalog;
pub mod provider;
pub mod media;
pub mod stream;
pub mod chat;
pub mod reply;
pub mod library;
pub mod cache;
pub mod active;
