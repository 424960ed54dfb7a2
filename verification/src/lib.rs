use vstd::prelude::*;

pub mod unit_types;
pub mod conditions;
pub mod build_strategy;
pub mod structures;
pub mod seq_util;
pub mod vec_map;
pub mod townhall;
pub mod army;
pub mod readings;
pub mod memory;
pub mod offense;
pub mod cheese;
pub mod workers;
pub mod construction;
pub mod economy;
pub mod build_order;
pub mod production;
pub mod upgrades;
pub mod defenses;
pub mod chat;
pub mod debugger;
pub mod scv_control;
pub mod occupancy;
pub mod targeting;
