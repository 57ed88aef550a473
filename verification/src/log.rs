//! Structured diagnostic events: typed field values, their capture into a
//! field map, and the one-line text form of an event.

pub mod capture;
pub mod event;
pub mod fields;
pub mod float;
pub mod level;
pub mod value;

pub use crate::log::capture::PrintLnVisitor;
pub use crate::log::event::{Event, EventView, PrintLnLayer};
pub use crate::log::fields::{Field, FieldMap, FieldView};
pub use crate::log::float::FloatText;
pub use crate::log::level::Level;
pub use crate::log::value::{LogValue, ValueView};
