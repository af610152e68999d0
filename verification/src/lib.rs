//! Log-line rendering: converts a structured log record (severity level,
//! optional module path, message) into one terminated line of text, in a
//! human-readable simple format or a machine-readable single-line JSON
//! format, written to a caller-supplied sink.

pub mod json_escape;
pub mod record;
pub mod render;
pub mod sink;
