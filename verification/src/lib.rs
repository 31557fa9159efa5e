//! A card tracker: cards of ten todo slots each, kept as flat rows in a
//! relational store.
//!
//! The library holds the decisions of the service and of its client, each
//! with a contract that is proved: how the slots of a card are assembled
//! from its rows and how a submitted card is compared with them
//! ([`reconcile`]), what each endpoint does to the store ([`api`],
//! [`store`]), who may change what ([`auth`]), the rules for labels
//! ([`tags`], [`tagged`]), and what the page shows while a call is under
//! way ([`ui`], [`components`]). What holds across endpoints is stated in
//! [`laws`].

pub mod api;
pub mod auth;
pub mod components;
pub mod effects;
pub mod errors;
pub mod laws;
pub mod models;
pub mod order;
pub mod reconcile;
pub mod sequences;
pub mod statements;
pub mod store;
pub mod tagged;
pub mod tags;
pub mod ui;
