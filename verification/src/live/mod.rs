//! Live trading: settings of the inter-process channels between bots and connectors.
pub mod ipc;
