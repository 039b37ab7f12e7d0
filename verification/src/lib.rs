//! A minimal programmable packet firewall: an inline classifier that inspects
//! incoming IPv4 frames and emits an action, together with the control-loop
//! logic that observes classified traffic and rewrites the bounded policy
//! table feeding the classifier.

pub mod types;
pub mod header;
pub mod policy;
pub mod classifier;
pub mod codec;
pub mod control;
