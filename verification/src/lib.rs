//! RedBrowser: the wire protocol between the browser app and its content proxy,
//! and the server-side logic that turns web pages into small, clean documents.

pub mod protocol;
pub mod text;
pub mod pattern;
pub mod urls;
pub mod codec;
pub mod dom;
pub mod liteweb;
pub mod instagram;
pub mod telegram;
pub mod whatsapp;
pub mod router;
pub mod search;
