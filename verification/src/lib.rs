//! Reading, writing and editing spreadsheet packages: the verified core.

pub mod shared_strings;
pub mod text;
pub mod numbers;
pub mod error;
pub mod utility;
pub mod xml;
pub mod writer;
pub mod rels;
pub mod comments;
pub mod properties;
pub mod protection;
pub mod worksheet;
pub mod format;
pub mod style_registry;
pub mod style_parser;
pub mod style_laws;
pub mod style_sheet;
pub mod sst_parser;
pub mod workbook;
pub mod tables;
pub mod xlsx_reader;
pub mod cell;
pub mod streaming_reader;
pub mod sheet_reader;
pub mod outline;
pub mod package_xml;
pub mod streaming;
pub mod sheet_links;
pub mod workbook_xml;
pub mod named_ranges;
pub mod slicers;
pub mod validation;
pub mod conditional;
pub mod sparklines;
pub mod sheet;
pub mod sheet_styles;
pub mod sheet_ops;
