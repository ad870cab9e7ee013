//! Verified core of the Codex thread index: session parsing, search
//! planning and ranking, sync planning and bookkeeping.
pub mod text;
pub mod query;
pub mod search_meta;
pub mod sync_types;
pub mod sync_state;
pub mod time_fmt;
pub mod sync_plan;
pub mod sync_scope;
pub mod sync_cooldown;
pub mod json;
pub mod fragments;
pub mod parser;
pub mod output;
pub mod experimental;
pub mod search_rank;
pub mod search_sql;
pub mod search_plan;
pub mod lock;
pub mod doctor;
pub mod restore;
pub mod sync_tail;
pub mod render;
pub mod read;
pub mod report;
