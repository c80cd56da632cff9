//! The mailbox, composer and reader logic of a desktop mail client, with
//! the contracts that Verus proves of it.

pub mod text;
pub mod model;
pub mod outgoing;
pub mod threading;
pub mod reader;
pub mod compose;
pub mod mailbox;
pub mod demo;
pub mod labels;
pub mod effect;
pub mod keys;
pub mod service;
pub mod auth;
pub mod settings;
pub mod theme;
pub mod downloads;
pub mod links;
pub mod proton;
pub mod html;
pub mod session;
pub mod refresh;
