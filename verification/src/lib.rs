//! Ködade CLI: the verified core of a terminal multiplexer client for coding agents.

pub mod app;
pub mod attention;
pub mod automation;
pub mod cli;
pub mod clipboard;
pub mod commands;
pub mod config;
pub mod connection;
pub mod dispatch;
pub mod doctor;
pub mod endpoints;
pub mod event;
pub mod geometry;
pub mod graphics;
pub mod guide;
pub mod help;
pub mod image_paste;
pub mod input;
pub mod integrations;
pub mod keyed;
pub mod keys;
pub mod laws;
pub mod layout;
pub mod local_endpoint;
pub mod machines;
pub mod manifest;
pub mod mode;
pub mod notify;
pub mod num;
pub mod overlay;
pub mod palette;
pub mod paste;
pub mod picker;
pub mod plugins;
pub mod proto;
pub mod rank;
pub mod render;
pub mod reconnect_view;
pub mod remote;
pub mod remote_prepare;
pub mod remote_windows;
pub mod selection;
pub mod session_file;
pub mod share;
pub mod sorted;
pub mod text;
pub mod theme;
