//! A small Java virtual machine core: a class-file parser, a bytecode
//! decoder, and a frame-based stack-machine interpreter.
//!
//! The crate is organised bottom-up: `reader` reads big-endian bytes,
//! `java_class` holds the constant pool and class metadata,
//! `class_file_parser` turns class-file bytes into loaded classes and decoded
//! instruction vectors, `bytecode` defines values and instructions together
//! with their arithmetic, and `jvm` executes loaded classes.

pub mod bytecode;
pub mod class_file_parser;
pub mod error;
pub mod java_class;
pub mod jvm;
pub mod laws;
pub mod reader;
pub mod text;
