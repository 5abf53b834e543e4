//! The dashboard's state; its drawing and event loop live in the application.

pub mod app;
