//! Interactive collection of the fields of a compiler-style diagnostic, and
//! the rendering of that diagnostic as colored, caret-annotated text.

pub mod diagnostic;
pub mod field;
pub mod ruler;
pub mod text;

pub use diagnostic::ErrorData;
pub use field::{
    collect_lines, empty_field_error, end_offset_field, field_step, int_factory,
    invalid_value_error, make_prompt, span_end, string, trim_end, FieldValue, IntRange,
    RoostError, Step, Validator,
};
pub use ruler::print_line_helper;
pub use text::{bold, color, decimal};
