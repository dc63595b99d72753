//! A project of the portfolio and the filter that narrows a listing.

use vstd::prelude::*;

verus! {

/// A point in time: whole seconds since the epoch and the nanoseconds within
/// the second. Two timestamps are ordered by the seconds first.
#[derive(Debug, Clone, Copy, PartialEq, Eq, Structural)]
pub struct Timestamp {
    pub secs: i64,
    pub nanos: u32,
}

impl Timestamp {
    /// `self` is not earlier than `other`.
    pub open spec fn at_or_after(self, other: Timestamp) -> bool {
        self.secs > other.secs || (self.secs == other.secs && self.nanos >= other.nanos)
    }

    /// Whether `self` is not earlier than `other`.
    pub fn is_at_or_after(&self, other: &Timestamp) -> (r: bool)
        ensures
            r == self.at_or_after(*other),
    {
        self.secs > other.secs || (self.secs == other.secs && self.nanos >= other.nanos)
    }
}

/// One project, as the store holds it. The catalog only reads projects.
#[derive(Debug)]
pub struct Project {
    pub id: i64,
    pub slug: String,
    pub title: String,
    pub category: String,
    pub short_desc: String,
    pub long_desc: String,
    pub github_url: Option<String>,
    pub live_url: Option<String>,
    pub featured: bool,
    /// The tags as stored: the text of a JSON array of strings.
    pub tags: String,
    pub created_at: Timestamp,
    pub updated_at: Timestamp,
}

/// The constraints a caller puts on a listing. A field that is `None` does
/// not constrain; with none set the listing holds every project.
#[derive(Debug)]
pub struct ProjectQuery {
    pub category: Option<String>,
    pub featured: Option<bool>,
    pub limit: Option<i64>,
}

/// A copy of an optional text.
pub fn copy_optional_text(text: &Option<String>) -> (copy: Option<String>)
    ensures
        copy == *text,
{
    match text {
        Some(s) => Some(s.clone()),
        None => None,
    }
}

impl Clone for Project {
    fn clone(&self) -> (copy: Self)
        ensures
            copy == *self,
    {
        Project {
            id: self.id,
            slug: self.slug.clone(),
            title: self.title.clone(),
            category: self.category.clone(),
            short_desc: self.short_desc.clone(),
            long_desc: self.long_desc.clone(),
            github_url: copy_optional_text(&self.github_url),
            live_url: copy_optional_text(&self.live_url),
            featured: self.featured,
            tags: self.tags.clone(),
            created_at: self.created_at,
            updated_at: self.updated_at,
        }
    }
}

impl Clone for ProjectQuery {
    fn clone(&self) -> (copy: Self)
        ensures
            copy == *self,
    {
        ProjectQuery {
            category: copy_optional_text(&self.category),
            featured: self.featured,
            limit: self.limit,
        }
    }
}

impl Project {
    /// The project was not created before `other`.
    pub open spec fn not_older_than(self, other: Project) -> bool {
        self.created_at.at_or_after(other.created_at)
    }

    /// Whether the project was not created before `other`.
    pub fn is_not_older_than(&self, other: &Project) -> (r: bool)
        ensures
            r == self.not_older_than(*other),
    {
        self.created_at.is_at_or_after(&other.created_at)
    }

    /// Whether the project links to its source.
    pub fn has_github_url(&self) -> (r: bool)
        ensures
            r == self.github_url.is_some(),
    {
        self.github_url.is_some()
    }

    /// Whether the project links to a running instance.
    pub fn has_live_url(&self) -> (r: bool)
        ensures
            r == self.live_url.is_some(),
    {
        self.live_url.is_some()
    }

    /// The link to the source, or the empty text where there is none.
    pub fn github_url_or_empty(&self) -> (url: &str)
        ensures
            url@ == match self.github_url {
                Some(u) => u@,
                None => Seq::<char>::empty(),
            },
    {
        match &self.github_url {
            Some(u) => u.as_str(),
            None => {
                proof {
                    reveal_strlit("");
                }
                assert(""@ =~= Seq::<char>::empty());
                ""
            },
        }
    }

    /// The link to the running instance, or the empty text where there is none.
    pub fn live_url_or_empty(&self) -> (url: &str)
        ensures
            url@ == match self.live_url {
                Some(u) => u@,
                None => Seq::<char>::empty(),
            },
    {
        match &self.live_url {
            Some(u) => u.as_str(),
            None => {
                proof {
                    reveal_strlit("");
                }
                assert(""@ =~= Seq::<char>::empty());
                ""
            },
        }
    }
}

impl ProjectQuery {
    /// The limit, where there is one, is not negative.
    pub open spec fn well_formed(self) -> bool {
        self.limit matches Some(n) ==> n >= 0
    }

    /// The project meets the category and the featured constraint.
    pub open spec fn selects(self, project: Project) -> bool {
        &&& self.category matches Some(c) ==> project.category@ == c@
        &&& self.featured matches Some(f) ==> project.featured == f
    }
}

} // verus!
