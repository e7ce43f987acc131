//! Verified core of the Koharu manga-translation desktop application.
mod text;
pub mod accelerated;
pub mod audit;
pub mod bundle;
pub mod control;
pub mod damage;
pub mod delivery;
pub mod events;
pub mod flux;
pub mod frame;
pub mod geometry;
pub mod import;
pub mod input;
pub mod jobs;
pub mod library;
pub mod message;
pub mod names;
pub mod navigation;
pub mod pipeline;
pub mod png;
pub mod presentation;
pub mod project;
pub mod protocol;
pub mod renderer;
pub mod resource;
pub mod translation;
