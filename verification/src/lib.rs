//! A bridge between the typed interface of a WebAssembly component and JSON
//! over HTTP.
//!
//! The crate takes the description of a component's interface, resolves the
//! signatures of the functions that it exports, and gives each function an
//! endpoint: a path, a schema for what a request holds and for what the
//! answer holds, and the conversion between JSON values and the typed values
//! of the call.
//!
//! * [`description`] loads an interface description and resolves its types.
//! * [`introspect`] lists the exported functions.
//! * [`types`] and [`signature`] hold resolved types and signatures.
//! * [`schema`] maps a type to the schema of its JSON form.
//! * [`codec`], [`encode`] and [`decode`] convert between JSON and typed
//!   values; [`laws`] states what holds of the two directions together and
//!   of the codec and the schema.
//! * [`registry`] builds the endpoints, [`endpoint`] and [`document`]
//!   describe them, and [`dispatch`] answers a request.
//!
//! Everything here is pure: the execution engine, the HTTP transport and the
//! lock around the component instance belong to the caller. An endpoint
//! calls the component through a callable that the caller binds to it; the
//! callable holds the lock for the call and for the cleanup that follows it.

pub mod codec;
pub mod decode;
pub mod description;
pub mod dispatch;
pub mod docs;
pub mod document;
pub mod encode;
pub mod endpoint;
pub mod error;
pub mod introspect;
pub mod json;
pub mod laws;
pub mod media;
pub mod registry;
pub mod schema;
pub mod signature;
pub mod text;
pub mod types;
pub mod value;
