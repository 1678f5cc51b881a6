//! Site activation for an nginx host: scanning the site directories, linking and
//! unlinking sites, the validate-then-reload protocol and the layered configuration.

pub mod order;
pub mod paths;
pub mod sites;
pub mod scan;
pub mod candidates;
pub mod activation;
pub mod world;
pub mod apply;
pub mod batch;
pub mod config;
pub mod settings;
pub mod parse;
pub mod resolve;
pub mod defaults;
pub mod menu;
pub mod commands;
pub mod logs;
pub mod view;
pub mod edit;
