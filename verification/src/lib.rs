use vstd::prelude::*;

pub mod agent;
pub mod api;
pub mod cli;
pub mod db;
pub mod konnect;
pub mod laws;
pub mod model;
pub mod order;
pub mod paths;
pub mod roles;
pub mod sdk;
pub mod tasks;
pub mod telegram;
pub mod text;

verus! {
}
