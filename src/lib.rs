// Translation of identifier codes in profile documents from one coding
// scheme to another through two-column mapping tables.

pub mod document;
pub mod lookup;
pub mod mapping;
pub mod mapping_laws;
pub mod menu;
pub mod provider;
pub mod translate;
pub mod translate_laws;
