//! Startup provisioning for a voice-synthesis service: normalisation of a
//! provider's voice catalogue, translation-language ingestion, request
//! building for the catalogue endpoints, and the all-or-nothing gathering of
//! the notification webhooks.
pub mod strmap;
pub mod text;
pub mod voices;
pub mod languages;
pub mod webhooks;
pub mod request;
