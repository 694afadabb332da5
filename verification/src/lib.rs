//! Verified core of a Telegram bot that turns geotagged photos and shared
//! locations into coordinates, map links, place names and nearby Wikimedia
//! pages.

pub mod text;
pub mod number;
pub mod encoding;
pub mod geo;
pub mod links;
pub mod wikimedia;
pub mod exif_geo;
pub mod reply;
pub mod telegram;
pub mod bot;
pub mod config;
pub mod geocoder;
pub mod order;
