//! A ZIP archive parsing library.
//!
//! The library reads a ZIP archive and exposes, for each contained file, its
//! metadata (name, compression method, sizes) and the raw payload bytes.
//! Decompression is out of scope: payloads are delivered verbatim.
//!
//! Two parsing engines share one binary record model:
//! * [`seeking::SeekingParser`] walks the central directory of a random-access
//!   byte source and yields one entry per central record.
//! * [`passive::PassiveParser`] is a byte-fed state machine that recognizes
//!   record signatures on the fly and reports events through a sink.

pub mod errors;
pub mod codec;
pub mod stream;
pub mod entry;
pub mod hbuf;
pub mod machine;
pub mod passive;
pub mod seeking;
pub mod laws;

pub use errors::{ParsingError, CompressMethod};
pub use stream::{Read, Seek, SeekFrom, MemStream};
pub use entry::{LocalFileInfo, LocalFile, LocalFileOps};
pub use passive::{PassiveParser, ParserEvent, EventSink, EventRecorder};
pub use seeking::{Parser, SeekingParser};
