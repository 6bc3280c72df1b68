//! The post draft assembled from a document's front-matter header and body,
//! and the application of one header field to it.

use vstd::prelude::*;
use crate::text::{split_trimmed, split_trimmed_spec, str_eq, trim, trimmed};

verus! {

/// The mathematical model of a draft: every text field as a sequence of
/// characters.
pub ghost struct DraftView {
    pub title: Seq<char>,
    pub subtitle: Option<Seq<char>>,
    pub tags: Option<Seq<Seq<char>>>,
    pub creation_date: Option<Seq<char>>,
    pub license: Option<Seq<char>>,
    pub published: bool,
    pub body: Seq<char>,
}

/// The structured record a parsed document yields: title, optional metadata,
/// and the body text.
pub struct PostDraft {
    pub title: String,
    pub subtitle: Option<String>,
    pub tags: Option<Vec<String>>,
    pub creation_date: Option<String>,
    pub license: Option<String>,
    pub published: bool,
    pub body: String,
}

impl View for PostDraft {
    type V = DraftView;

    open spec fn view(&self) -> DraftView {
        DraftView {
            title: self.title@,
            subtitle: self.subtitle.deep_view(),
            tags: self.tags.deep_view(),
            creation_date: self.creation_date.deep_view(),
            license: self.license.deep_view(),
            published: self.published,
            body: self.body@,
        }
    }
}

/// A draft as it is first created: nothing set, published by default.
pub open spec fn empty_draft() -> DraftView {
    DraftView {
        title: Seq::<char>::empty(),
        subtitle: None,
        tags: None,
        creation_date: None,
        license: None,
        published: true,
        body: Seq::<char>::empty(),
    }
}

impl PostDraft {
    /// A fresh draft: empty title and body, no optional fields, published.
    pub fn new() -> (d: PostDraft)
        ensures
            d@ == empty_draft(),
    {
        PostDraft {
            title: String::new(),
            subtitle: None,
            tags: None,
            creation_date: None,
            license: None,
            published: true,
            body: String::new(),
        }
    }
}

/// The header field names that set something on the draft.
pub open spec fn recognized_field(field: Seq<char>) -> bool {
    field == "title"@ || field == "subtitle"@ || field == "tags"@ || field == "date"@
        || field == "license"@
}

pub fn is_recognized_field(field: &str) -> (r: bool)
    ensures
        r == recognized_field(field@),
{
    str_eq(field, "title") || str_eq(field, "subtitle") || str_eq(field, "tags") || str_eq(
        field,
        "date",
    ) || str_eq(field, "license")
}

/// One header line's effect on a draft. The field name is taken as written;
/// the value is trimmed of surrounding whitespace, and a tag list is split on
/// commas with each tag trimmed. An unrecognized field changes nothing.
pub open spec fn apply_field(d: DraftView, field: Seq<char>, value: Seq<char>) -> DraftView {
    let v = trimmed(value);
    if field == "title"@ {
        DraftView { title: v, ..d }
    } else if field == "subtitle"@ {
        DraftView { subtitle: Some(v), ..d }
    } else if field == "tags"@ {
        DraftView { tags: Some(split_trimmed_spec(v, ',')), ..d }
    } else if field == "date"@ {
        DraftView { creation_date: Some(v), ..d }
    } else if field == "license"@ {
        DraftView { license: Some(v), ..d }
    } else {
        d
    }
}

/// Sets one header field on the draft, exactly as `apply_field` describes.
pub fn apply_header_field(d: PostDraft, field: &str, value: &str) -> (r: PostDraft)
    ensures
        r@ == apply_field(d@, field@, value@),
{
    let v = trim(value);
    if str_eq(field, "title") {
        PostDraft { title: v, ..d }
    } else if str_eq(field, "subtitle") {
        PostDraft { subtitle: Some(v), ..d }
    } else if str_eq(field, "tags") {
        let tags = split_trimmed(v.as_str(), ',');
        PostDraft { tags: Some(tags), ..d }
    } else if str_eq(field, "date") {
        PostDraft { creation_date: Some(v), ..d }
    } else if str_eq(field, "license") {
        PostDraft { license: Some(v), ..d }
    } else {
        d
    }
}

/// An unrecognized header field leaves the draft exactly as it was.
pub proof fn lemma_unknown_field_ignored(d: DraftView, field: Seq<char>, value: Seq<char>)
    requires
        !recognized_field(field),
    ensures
        apply_field(d, field, value) == d,
{
}

} // verus!
