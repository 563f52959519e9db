//! Conversions between native values and the objects of a Java virtual
//! machine.
//!
//! The library has two halves. The first says what a conversion is: a
//! function between native values and [`object::JavaObject`]s, which hold as
//! plain values what an object on the Java side holds. The traits of
//! [`convert`] compute it, [`convert::Conversion`] states it, and [`laws`]
//! proves what holds of it. The second half, [`runtime`], builds such objects
//! in a live virtual machine and reads them from it through the JNI, with the
//! classes and members it needs resolved once and kept in a
//! [`runtime::MetadataCache`].
//!
//! - [`error`]: why a conversion did not produce a value.
//! - [`value`]: primitives, and the envelope that carries one value of any
//!   kind.
//! - [`object`]: foreign objects as plain values.
//! - [`reference`]: references to objects that are passed through as they are.
//! - [`shape`]: what has to be read to know what an object holds.
//! - [`layout`]: the classes, constructors, methods and fields at the
//!   boundary.
//! - [`cache`]: write-once tables.
//! - [`registry`]: parsed type signatures.

pub mod cache;
pub mod convert;
pub mod error;
pub mod laws;
pub mod layout;
pub mod object;
pub mod reference;
pub mod registry;
pub mod runtime;
pub mod shape;
pub mod tested;
pub mod value;
