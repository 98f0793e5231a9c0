//! Verified core of the ShootMania Obstacle records API.
pub mod admin;
pub mod api_filter;
pub mod auth;
pub mod escaped;
pub mod event;
pub mod finish_lock;
pub mod graphql;
pub mod map;
pub mod numbers;
pub mod overview;
pub mod pb;
pub mod player;
pub mod poolsize;
pub mod player_finished;
pub mod queries;
pub mod rating;
pub mod report;
pub mod request_filter;
pub mod text;
pub mod utils;
pub mod xml;
