//! An in-memory Quran corpus: loading from markup, name lookup, page
//! extraction and message chunking.
pub mod chunk;
pub mod commands;
pub mod commentary;
pub mod corpus;
pub mod loader;
pub mod markup;
pub mod page;
pub mod query;
pub mod text;

pub use corpus::{Ayat, AyatBuilder, Data, Quraan};
pub use loader::parse_tafseer_mouaser;
pub use page::get_page_image_name;
pub use text::remove_surah_name_harakat;
