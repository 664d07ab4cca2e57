//! The boundary logic of a spell checker built on the Hunspell engine.
//!
//! The engine lives behind a handle and is driven by calls that take and
//! give byte strings closed by a zero. This library decides everything
//! about those calls short of making them. A [`Hunspell`] turns each
//! request into the [`NativeCall`] that is to be made, refuses input that
//! cannot cross to the engine, and sees to it that the handle is freed once
//! and never used afterwards. What the engine answers is read here too: a
//! status by [`CheckResult::from_status`] and [`accepted`], a list by
//! [`OutputList`] and [`extract`].
//!
//! The code that owns the handle, called the driver in these pages, makes
//! the calls and keeps them one at a time.

pub mod call;
pub mod cstring;
pub mod hex;
pub mod lifecycle;
pub mod list;
pub mod request;
pub mod status;
pub mod text;
pub mod wrapper;

pub use call::{CallView, NativeCall};
pub use cstring::{to_c_bytes, EncodingError};
pub use hex::to_hex_str;
pub use list::{extract, Extraction, OutputList, Skipped, SkippedView};
pub use request::CallError;
pub use status::{accepted, CheckResult};
pub use text::decode;
pub use wrapper::Hunspell;
