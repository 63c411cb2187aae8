//! Job-processing core of a download backend: recognising the URLs that each
//! site handler accepts, reading the downloader's textual output, building
//! command lines and database statements, and the bookkeeping around them.
#![allow(non_snake_case)]

pub mod text;
pub mod pattern;
pub mod common;
pub mod config;
pub mod handler;
pub mod downloader;
pub mod db;
pub mod http;
pub mod converter;
