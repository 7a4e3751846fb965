//! Rows of the fic, tag and fic-tag tables of the relational schema.
#![allow(non_camel_case_types)]
use vstd::prelude::*;

verus! {

/// A row of the `fics` table.
#[derive(Debug, PartialEq)]
pub struct fics {
    pub id: String,
    pub name: String,
    pub url: String,
    pub last_updated: String,
    pub version: i32,
    pub description: String,
    pub authors: Vec<Option<String>>,
    pub fandom: Vec<Option<String>>,
    pub ship_type: Vec<Option<String>>,
    pub language: Option<String>,
    pub chapters: Option<String>,
    pub kudos: Option<i32>,
    pub words: Option<i32>,
    pub series: Option<Vec<Option<String>>>,
    pub hits: Option<i32>,
    pub merged_tags: Option<Vec<Option<String>>>,
}

/// A row of the `tags` table.
#[derive(Debug)]
pub struct tags {
    pub name: String,
    pub type_: String,
    pub parent: Option<String>,
    pub sibligs: Option<Vec<Option<String>>>,
    pub children: Option<Vec<Option<String>>>,
}

/// A row of the `fics_tags` table, linking a fic to one of its tags.
#[derive(Debug)]
pub struct fics_tags {
    pub fic_id: String,
    pub tag_name: String,
}

} // verus!
