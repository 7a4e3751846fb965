//! # ficdata
//!
//! Data structures and metadata handling for Archive of Our Own (AO3) fanfiction:
//! fic metadata with versioning, the decisions of saving and refreshing it, the
//! rows it is stored as, and extraction of metadata from downloaded HTML pages.
//!
//! Reading and writing files and databases is left to the caller; the
//! [`loading`] module says which reads to make when loading saved metadata.
pub mod compress;
pub mod errors;
pub mod extraction;
pub mod json;
pub mod loading;
pub mod metadata;
pub mod models;
pub mod persistence;
pub mod rows;
pub mod scrape;
pub mod tag_map;
pub mod text;

pub use errors::FicDataError;
pub use extraction::extract_metadata_from_downloaded_html;
pub use metadata::{merge_tag, FicMetadata};
pub use persistence::{
    get_next_version, should_download_fic, update_existing_metadata_fields, update_fic_metadata,
};
pub use tag_map::TagMap;
