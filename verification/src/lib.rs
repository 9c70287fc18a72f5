//! Verified core of a multi-backend cloud synchronisation tool.
pub mod catalog;
pub mod paths;
pub mod policy;
pub mod state;
pub mod sync_plan;
pub mod text;
pub mod settings;
pub mod ignore;
pub mod daemon;
pub mod status;
pub mod control;
pub mod numbers;
pub mod storage;
pub mod rate_limit;
pub mod checksum;
pub mod crypto;
pub mod backends;
pub mod path_walk;
pub mod box_auth;
pub mod azure;
pub mod xml;
pub mod webdav;
pub mod scan;
pub mod drive;
pub mod endpoints;
pub mod listings;
pub mod mega_tree;
pub mod signing_order;
