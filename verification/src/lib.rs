//! Declarative management of a GitHub organization.
//!
//! A configuration describes the repositories, teams, users and team
//! permissions that an organization is meant to have. This library holds
//! what there is to decide about it: how defaults are merged into a
//! configuration, which API call writes which setting, which calls bring
//! the organization from what was observed to what is desired, what the
//! state of an organization looks like as a configuration, and how two
//! configurations are compared. It sends nothing and reads no file: it is
//! handed what was read, and says what is to be written.
//!
//! Every function is verified against its contract. The contracts speak of
//! mathematical models: the view of a value (`@`) is its model. The modules
//! whose names end in `_laws` hold what is proved of several functions
//! together.

pub mod api_mapping;
pub mod census;
pub mod collision;
pub mod config;
pub mod decode;
pub mod diff;
pub mod documents;
pub mod dry_run_laws;
pub mod encode;
pub mod error;
pub mod github;
pub mod members;
pub mod merge;
pub mod merge_laws;
pub mod node;
pub mod normalize;
pub mod normalize_laws;
pub mod order;
pub mod reads;
pub mod render;
pub mod responses;
pub mod schema;
pub mod settings_laws;
pub mod snapshot;
pub mod ssh_keys;
pub mod sync;
pub mod text;
pub mod transport;
pub mod urls;
pub mod webhooks;
