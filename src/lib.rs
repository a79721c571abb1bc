//! Form state for reactive front ends: a record of named text fields, the
//! validation messages attached to them, and the decisions taken when an input
//! changes or the form is submitted.

mod fields;
mod form;

pub use fields::{text_view, FormStruct, TextFields};
pub use form::{
    field_text, lemma_last_message_wins, record_errors, text_or_empty, write_field, Form,
    InputChange,
};
