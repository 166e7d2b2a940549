//! The decisions behind the script engine of a desktop shell.
//!
//! A shell runs application code written in JavaScript and draws it with a native user
//! interface toolkit. This crate holds everything in between that is a rule rather than a call:
//! which module an import may name, who may update or release a nested view, what a script value
//! may become on the native side, when a callback may still run, and what is undone when a step
//! fails. The embedding application performs the calls and hands the outcomes back.
pub mod apply;
pub mod arena;
pub mod argument;
pub mod callbacks;
pub mod calls;
pub mod constructors;
pub mod context;
pub mod data;
pub mod dispatch;
pub mod effects;
pub mod entities;
pub mod error;
pub mod exports;
pub mod jobs;
pub mod methods;
pub mod modules;
pub mod nested;
pub mod number;
pub mod path;
pub mod payload;
pub mod prelude;
pub mod prelude_text;
pub mod render;
pub mod runtime;
pub mod schema;
pub mod scope;
pub mod secret;
pub mod states;
pub mod tasks;
pub mod text;
pub mod textmap;
pub mod value;

