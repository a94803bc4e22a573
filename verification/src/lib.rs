//! Decoder for RAP files: gridded precipitation analyses stored as a small
//! header followed by one run-length compressed grid per observation time.
//!
//! The crate works on the bytes of a file. [`reader::RapReader`] parses the
//! header into an immutable document, and [`values::RapValueIterator`]
//! expands the compressed grid of one observation time cell by cell.
//!
//! - [`bytes`]: little-endian numbers and padded texts of fixed width
//! - [`datetime`]: civil dates and times, checked against the calendar
//! - [`error`]: the error type
//! - [`header`]: the comment, the grid definition and the two tables
//! - [`index`]: the data index and the lookup of an observation time
//! - [`reader`]: the document of a file
//! - [`values`]: the grid decoder
//! - [`report`]: the header and the data records as a report for people
//! - [`text`]: numbers as text
pub mod bytes;
pub mod datetime;
pub mod error;
pub mod header;
pub mod index;
pub mod reader;
pub mod report;
pub mod text;
pub mod values;

pub use datetime::CivilDateTime;
pub use error::{RapReaderError, RapReaderResult};
pub use header::LevelRepetition;
pub use index::{DataProperty, ObservationTimes};
pub use reader::RapReader;
pub use report::{
    pretty_print, print_data_part, print_data_properties, print_level_repetitions,
    print_management_part, print_value_by_levels,
};
pub use values::{LocationValue, RapValueIterator};
