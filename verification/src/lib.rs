//! Compiles declarative content mods into rows for a tabular game database.

pub mod allocate;
pub mod apply;
pub mod component;
pub mod defaults;
pub mod dict;
pub mod error;
pub mod expand;
pub mod expand_mission;
pub mod expand_npc;
pub mod locale;
pub mod lu_mod;
pub mod manifest;
pub mod mission;
pub mod mod_context;
pub mod mods;
pub mod path;
pub mod phrases;
pub mod pipeline;
pub mod references;
pub mod registry;
pub mod relational;
pub mod resolve;
pub mod row;
pub mod schema;
pub mod sql;
pub mod text;
pub mod value;
pub mod writer;
