//! An internal trainer for an offline, single-player fork of a game, as far as
//! it decides and computes.
//!
//! The library reads the game's memory through [`memory::Memory`], which holds
//! only what is readable; it finds the layout of the scripting runtime's
//! metadata ([`il2cpp_abi`]), looks classes, fields and methods up in it
//! ([`il2cpp_runtime`]), and drives the features from there: the overlay
//! ([`menu`], [`input`], [`console`]), the highlighted players ([`chams`],
//! [`world`]), the toggles ([`features`]), the control server ([`http`]) and the
//! loading and unloading ([`session`], [`hooks`], [`crash`], [`control`]).
//!
//! What the features promise as a whole, in terms of the memory they read and the
//! requests they answer, is stated and proved in [`laws`].
//!
//! What calls the system or the engine stands outside: a function here takes
//! what such a call returned, and returns what is to be called next.

pub mod chams;
pub mod console;
pub mod control;
pub mod crash;
pub mod features;
pub mod hooks;
pub mod http;
pub mod il2cpp;
pub mod il2cpp_abi;
pub mod il2cpp_runtime;
pub mod input;
pub mod laws;
pub mod memory;
pub mod menu;
pub mod mono;
pub mod mono_runtime;
pub mod runtime;
pub mod search;
pub mod session;
pub mod symbols;
pub mod text;
pub mod world;
