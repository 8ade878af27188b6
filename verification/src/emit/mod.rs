//! What the structured log writers compute: the CSV header, rows and
//! quoting; the Zeek `conn.log` preamble, lines and connection ids; the
//! EVE severity scale; and which events each log carries. The writers
//! themselves, which own an output sink and format times as seconds,
//! live with the program.

pub mod csv;
pub mod eve;
pub mod ndjson;
pub mod text;
pub mod zeek;

pub use csv::CsvOptions;
pub use ndjson::NdjsonOptions;
pub use zeek::ZeekOptions;
