//! Episode acquisition for an anime library: release search, download
//! tracking, picking the episode's video out of a torrent, subtitle
//! normalisation and the single playback endpoint.

pub mod calendar;
pub mod classify;
pub mod config;
pub mod data;
pub mod dummy_adapter;
pub mod error;
pub mod events;
pub mod nyaa_adapter;
pub mod paths;
pub mod qbit;
pub mod release;
pub mod season;
pub mod serve;
pub mod subtitle;
pub mod text;
pub mod torrent_adapters;
