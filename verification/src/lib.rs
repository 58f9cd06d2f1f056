//! HubFlow: a decentralised, packet-routed hierarchy of Knots.

pub mod ids;
pub mod json;
pub mod assoc;
pub mod cell;
pub mod packet;
pub mod inbox;
pub mod state;
pub mod class;
pub mod event;
pub mod knot;
pub mod registry;
pub mod action;
pub mod object;
pub mod persistence;
pub mod api;
pub mod text;
