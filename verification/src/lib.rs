//! Document model, style cascade and CSS value rules of a small flexbox UI engine.
pub mod chars;
pub mod colors;
pub mod declaration;
pub mod document;
pub mod engine;
pub mod flex;
pub mod hit_test;
pub mod html;
pub mod id;
pub mod lolite_worker;
pub mod measure_cache;
pub mod paint;
pub mod parser;
pub mod platform;
pub mod registry;
pub mod sheet;
pub mod sonate_worker;
pub mod style;
pub mod text;
pub mod window;
pub mod words;
