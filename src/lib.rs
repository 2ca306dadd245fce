//! Extraction of title, author, chapters and cover from EPUB archives,
//! with the data types shared with the speech-synthesis front end.

pub mod error;
pub mod text;
pub mod path;
pub mod mime;
pub mod xml;
pub mod package;
pub mod models;
pub mod chapters;
pub mod archive;
pub mod epub;
pub mod tts;
