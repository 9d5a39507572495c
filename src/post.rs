use vstd::prelude::*;
use crate::date::{Date, dmy_date, parse_dmy};
use crate::text::{count_lines, line_count};

verus! {

/// One document of the catalog.
#[derive(Clone, Debug)]
pub struct Post {
    pub title: String,
    pub created_at: Date,
    pub modified_at: Date,
    pub content: String,
}

/// The front matter of a document, as written in it.
#[derive(Debug)]
pub struct MetaData {
    pub title: String,
    pub created_at: String,
    pub modified_at: String,
}

/// Why a document cannot join the catalog.
#[derive(Clone, Copy, Debug, PartialEq, Eq, Structural)]
pub enum PostError {
    /// The creation date is not in the form day/month/year.
    BadCreatedAt,
    /// The modification date is not in the form day/month/year.
    BadModifiedAt,
}

/// `d` is the date that a text in the form day/month/year names.
pub open spec fn names_date(s: Seq<char>, d: Date) -> bool {
    dmy_date(s) == Some((d.year as int, d.month as int, d.day as int))
}

impl Post {
    /// Builds a document from its title, its two dates as read from its front matter
    /// (`None` where the text named no date), and its body.
    pub fn from_dates(
        title: &String,
        created_at: Option<Date>,
        modified_at: Option<Date>,
        content: &str,
    ) -> (r: Result<Post, PostError>)
        ensures
            created_at is None ==> r == Err::<Post, PostError>(PostError::BadCreatedAt),
            created_at is Some && modified_at is None ==> r == Err::<Post, PostError>(
                PostError::BadModifiedAt,
            ),
            r is Ok <==> (created_at is Some && modified_at is Some),
            r matches Ok(p) ==> {
                &&& p.title@ == title@
                &&& p.content@ == content@
                &&& Some(p.created_at) == created_at
                &&& Some(p.modified_at) == modified_at
            },
    {
        let created_at = match created_at {
            Some(d) => d,
            None => {
                return Err(PostError::BadCreatedAt);
            },
        };
        let modified_at = match modified_at {
            Some(d) => d,
            None => {
                return Err(PostError::BadModifiedAt);
            },
        };
        Ok(Post { title: title.clone(), created_at, modified_at, content: content.to_owned() })
    }

    /// Builds a document from its front matter and its body.
    pub fn from_metadata(meta: &MetaData, content: &str) -> (r: Result<Post, PostError>)
        ensures
            dmy_date(meta.created_at@) is None ==> r == Err::<Post, PostError>(
                PostError::BadCreatedAt,
            ),
            dmy_date(meta.created_at@) is Some && dmy_date(meta.modified_at@) is None ==> r
                == Err::<Post, PostError>(PostError::BadModifiedAt),
            r is Ok <==> (dmy_date(meta.created_at@) is Some && dmy_date(meta.modified_at@) is Some),
            r matches Ok(p) ==> {
                &&& p.title@ == meta.title@
                &&& p.content@ == content@
                &&& p.created_at.wf() && names_date(meta.created_at@, p.created_at)
                &&& p.modified_at.wf() && names_date(meta.modified_at@, p.modified_at)
            },
    {
        let created_at = parse_dmy(meta.created_at.as_str());
        let modified_at = parse_dmy(meta.modified_at.as_str());
        Post::from_dates(&meta.title, created_at, modified_at, content)
    }

    /// How many lines the body shows.
    pub fn height(&self) -> (r: usize)
        ensures
            r == line_count(self.content@),
    {
        count_lines(self.content.as_str())
    }
}

} // verus!
