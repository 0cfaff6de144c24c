//! A parser for the header language that describes patches to a game-world
//! state graph: pickups, timers, commands, annotations and documentation.
//!
//! The pipeline runs from bytes to tokens ([`lexer`]), from tokens to a cursor
//! ([`cursor`]), and from there through the value grammar ([`value`]) and the
//! statement grammar ([`grammar`]) to the driver ([`driver`]), which gives a
//! document ([`document`]) or a collection of located diagnostics ([`error`]).
//!
//! Texts are kept as the bytes of the source. Where the source is valid
//! UTF-8, every text handed out is cut at the boundaries of characters
//! ([`boundary`]).
pub mod token;
pub mod lexer;
pub mod error;
pub mod cursor;
pub mod decode;
pub mod value;
pub mod text;
pub mod document;
pub mod grammar;
pub mod driver;
pub mod boundary;
