//! The logic behind the web pages of a map randomizer: what the page of a seed shows, which files
//! make up a saved seed and who may see them, and what the server is started with.
//!
//! The server itself, the seed repository and the randomizer are reached by the caller, who hands
//! plain values in and gets plain values back.
//!
//! What the operations promise, each by itself and in relation to each other, is in `laws`.

pub mod app_data;
pub mod enabled;
pub mod game;
pub mod headers;
pub mod laws;
pub mod percent;
pub mod random;
pub mod save;
pub mod seed_page;
pub mod settings;
pub mod single;
pub mod text;
