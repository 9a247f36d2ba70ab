//! A verified client-side layer over a Perforce-style depot client: how an invocation
//! is isolated from ambient configuration, how the tool's tagged and plain-text output
//! is read into typed records, how running invocations are tracked for cancellation,
//! how a sync's output lines are classified, and a searchable index of depot paths.

/// Character-level text: lines, trimming, searching.
pub mod text;
/// Decimal numbers, read and written.
pub mod numbers;
/// Tagged output: records of fields and how text parses into them.
pub mod record;
/// The law relating grouped field lines to the records they parse into.
pub mod grouping;
/// The typed records built from tool output.
pub mod types;
/// Reading single fields of a record.
pub mod fields;
/// File status from open action and revisions.
pub mod status;
/// Typed records from flat tagged records.
pub mod parsing;
/// Typed records from indexed fields (`depotFile0`, `depotFile1`, ...).
pub mod indexed;
/// Client specs, whose fields may come in another case.
pub mod clientspec;
/// Classifying a sync's output lines.
pub mod sync;
/// Flags and environment that isolate an invocation.
pub mod connection;
/// Tracking running processes for cancellation.
pub mod registry;
/// The order of strings by code point.
pub mod order;
/// The searchable index of depot paths.
pub mod index;
/// Plain-text output read by its wording, and the table of tolerated errors.
pub mod plaintext;
/// Spec forms rewritten before they are sent back.
pub mod forms;
/// `files` output.
pub mod files;
/// Viewing, diffing and merging files: guards and arguments.
pub mod tools;
/// `annotate` output.
pub mod annotate;
