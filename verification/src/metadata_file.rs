//! Data model for `... .dist-info/METADATA` long-form metadata documents.
//!
//! Only the record shape is given here: a parser for this document (with its
//! multi-valued headers, embedded free-text body and dynamic-field
//! semantics) is a distinct, larger problem, and no parser is offered.

use vstd::prelude::*;

verus! {

/// The fields of a long-form metadata document.  Rarely used fields are
/// deliberately left out.
pub struct MetadataFile {
    pub metadata_version: String,
    pub name: String,
    pub version: String,
    pub platform: String,
    pub supported_platform: String,
    pub summary: String,
    pub description: String,
    pub description_content_type: String,
    pub keywords: Vec<String>,
    pub home_page: String,
    pub author: String,
    pub author_email: Vec<String>,
    pub maintainer: String,
    pub maintainer_email: Vec<String>,
    pub license: String,
    pub classifier: Vec<String>,
    pub requires_dist: (),
    pub requires_python: String,
    pub requires_external: Vec<String>,
    pub project_url: ProjectURL,
    pub provides_extra: Vec<String>,
}

/// A labelled project link.
pub struct ProjectURL {
    pub label: String,
    pub url: String,
}

} // verus!
