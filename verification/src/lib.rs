use vstd::prelude::*;

pub mod text;
pub mod model;
pub mod edit;
pub mod tree;
pub mod palettes;
pub mod theme;
pub mod config;
pub mod search;
pub mod storage;
pub mod state;
pub mod handlers;
pub mod events;
pub mod stream;
pub mod view;
pub mod panels;
pub mod layout;
