use vstd::prelude::*;
use crate::date::{Date, date_lt, is_before, long_date};
use crate::post::Post;

verus! {

/// A line of the table of contents: a document's creation date and its title.
#[derive(Clone, Debug)]
pub struct TocEntry {
    pub date: Date,
    pub title: String,
}

pub open spec fn toc_entry(p: Post) -> TocEntry {
    TocEntry { date: p.created_at, title: p.title }
}

/// Puts `e` into `s` after every entry that is not older than it.
pub open spec fn insert_desc(s: Seq<TocEntry>, e: TocEntry) -> Seq<TocEntry>
    decreases s.len(),
{
    if s.len() == 0 {
        seq![e]
    } else if date_lt(s[0].date, e.date) {
        seq![e] + s
    } else {
        seq![s[0]] + insert_desc(s.drop_first(), e)
    }
}

/// The table of contents of a list of documents: newest first, and documents of the
/// same day in the order of the list.
pub open spec fn toc_of(posts: Seq<Post>) -> Seq<TocEntry>
    decreases posts.len(),
{
    if posts.len() == 0 {
        seq![]
    } else {
        insert_desc(toc_of(posts.drop_last()), toc_entry(posts.last()))
    }
}

pub open spec fn newest_first(s: Seq<TocEntry>) -> bool {
    forall|i: int, j: int| 0 <= i < j < s.len() ==> !date_lt(#[trigger] s[i].date, #[trigger] s[j].date)
}

proof fn lemma_insert_desc_at(s: Seq<TocEntry>, e: TocEntry, k: int)
    requires
        0 <= k <= s.len(),
        forall|j: int| 0 <= j < k ==> !date_lt(#[trigger] s[j].date, e.date),
        k == s.len() || date_lt(s[k].date, e.date),
    ensures
        insert_desc(s, e) == s.insert(k, e),
    decreases k,
{
    if k == 0 {
        assert(insert_desc(s, e) =~= s.insert(k, e));
    } else {
        let t = s.drop_first();
        assert forall|j: int| 0 <= j < k - 1 implies !date_lt(#[trigger] t[j].date, e.date) by {
            assert(t[j] == s[j + 1]);
        }
        lemma_insert_desc_at(t, e, k - 1);
        assert(insert_desc(s, e) =~= s.insert(k, e));
    }
}

proof fn lemma_insert_desc_sorted(s: Seq<TocEntry>, e: TocEntry)
    requires
        newest_first(s),
    ensures
        newest_first(insert_desc(s, e)),
        insert_desc(s, e).len() == s.len() + 1,
        forall|i: int| 0 <= i < s.len() + 1 ==> (#[trigger] insert_desc(s, e)[i] == e
            || s.contains(insert_desc(s, e)[i])),
    decreases s.len(),
{
    if s.len() > 0 && !date_lt(s[0].date, e.date) {
        let t = s.drop_first();
        lemma_insert_desc_sorted(t, e);
        let r = insert_desc(s, e);
        assert forall|i: int| 0 <= i < s.len() + 1 implies (#[trigger] r[i] == e || s.contains(r[i])) by {
            if i > 0 {
                let x = insert_desc(t, e)[i - 1];
                if x != e {
                    let m = choose|m: int| 0 <= m < t.len() && t[m] == x;
                    assert(s[m + 1] == x);
                }
            } else {
                assert(s[0] == r[0]);
            }
        }
        assert forall|i: int, j: int| 0 <= i < j < r.len() implies !date_lt(#[trigger] r[i].date, #[trigger] r[j].date) by {
            if i == 0 {
                let x = insert_desc(t, e)[j - 1];
                if x != e {
                    let m = choose|m: int| 0 <= m < t.len() && t[m] == x;
                    assert(s[m + 1] == x);
                }
            } else {
                assert(r[i] == insert_desc(t, e)[i - 1]);
                assert(r[j] == insert_desc(t, e)[j - 1]);
            }
        }
    } else if s.len() > 0 {
        let r = insert_desc(s, e);
        assert forall|i: int, j: int| 0 <= i < j < r.len() implies !date_lt(#[trigger] r[i].date, #[trigger] r[j].date) by {
            if i == 0 {
                assert(r[j] == s[j - 1]);
                assert(!date_lt(s[0].date, s[j - 1].date));
            } else {
                assert(r[i] == s[i - 1]);
                assert(r[j] == s[j - 1]);
            }
        }
        assert forall|i: int| 0 <= i < s.len() + 1 implies (#[trigger] r[i] == e || s.contains(r[i])) by {
            if i > 0 {
                assert(r[i] == s[i - 1]);
            }
        }
    }
}

/// The table of contents lists the newest documents first.
pub proof fn lemma_toc_newest_first(posts: Seq<Post>)
    ensures
        newest_first(toc_of(posts)),
        toc_of(posts).len() == posts.len(),
    decreases posts.len(),
{
    if posts.len() > 0 {
        lemma_toc_newest_first(posts.drop_last());
        lemma_insert_desc_sorted(toc_of(posts.drop_last()), toc_entry(posts.last()));
    }
}

/// A row of the table of contents as it is shown: the long form of the date, and the title.
#[derive(Clone, Debug)]
pub struct TocRow {
    pub date: String,
    pub title: String,
}

proof fn lemma_insert_desc_is_insert(s: Seq<TocEntry>, e: TocEntry) -> (k: int)
    ensures
        0 <= k <= s.len(),
        insert_desc(s, e) == s.insert(k, e),
    decreases s.len(),
{
    if s.len() == 0 || date_lt(s[0].date, e.date) {
        assert(insert_desc(s, e) =~= s.insert(0, e));
        0
    } else {
        let k = lemma_insert_desc_is_insert(s.drop_first(), e);
        assert(insert_desc(s, e) =~= s.insert(k + 1, e));
        k + 1
    }
}

/// The table of contents holds one entry for each document, and nothing else.
pub proof fn lemma_toc_lists_every_post(posts: Seq<Post>)
    ensures
        toc_of(posts).to_multiset() == posts.map_values(|p: Post| toc_entry(p)).to_multiset(),
    decreases posts.len(),
{
    broadcast use vstd::seq_lib::group_to_multiset_ensures;

    if posts.len() == 0 {
        assert(posts.map_values(|p: Post| toc_entry(p)) =~= Seq::<TocEntry>::empty());
    } else {
        let pre = posts.drop_last();
        lemma_toc_lists_every_post(pre);
        let k = lemma_insert_desc_is_insert(toc_of(pre), toc_entry(posts.last()));
        assert(posts.map_values(|p: Post| toc_entry(p)) =~= pre.map_values(|p: Post| toc_entry(p)).push(
            toc_entry(posts.last()),
        ));
    }
}

/// The documents and their table of contents, shared read-only by every session.
#[derive(Clone, Debug)]
pub struct Catalog {
    pub posts: Vec<Post>,
    pub toc: Vec<TocEntry>,
}

/// The table of contents of `posts`.
pub fn build_toc(posts: &Vec<Post>) -> (r: Vec<TocEntry>)
    ensures
        r@ == toc_of(posts@),
{
    let mut toc: Vec<TocEntry> = Vec::new();
    let mut i: usize = 0;
    while i < posts.len()
        invariant
            i <= posts@.len(),
            toc@ == toc_of(posts@.take(i as int)),
        decreases posts@.len() - i,
    {
        let e = TocEntry { date: posts[i].created_at, title: posts[i].title.clone() };
        let mut k: usize = 0;
        while k < toc.len() && !is_before(&toc[k].date, &e.date)
            invariant
                k <= toc@.len(),
                forall|j: int| 0 <= j < k ==> !date_lt(#[trigger] toc@[j].date, e.date),
            decreases toc@.len() - k,
        {
            k = k + 1;
        }
        proof {
            lemma_insert_desc_at(toc@, e, k as int);
            assert(posts@.take(i + 1).drop_last() =~= posts@.take(i as int));
            assert(e == toc_entry(posts@[i as int]));
        }
        toc.insert(k, e);
        i = i + 1;
    }
    assert(posts@.take(i as int) =~= posts@);
    toc
}

impl Catalog {
    /// A catalog of `posts`, with its table of contents.
    pub fn new(posts: Vec<Post>) -> (r: Catalog)
        ensures
            r.posts@ == posts@,
            r.toc@ == toc_of(posts@),
    {
        let toc = build_toc(&posts);
        Catalog { posts, toc }
    }

    /// Every date of the table of contents is a real day.
    pub open spec fn dates_wf(&self) -> bool {
        forall|i: int| 0 <= i < self.toc@.len() ==> (#[trigger] self.toc@[i]).date.wf()
    }

    pub fn dates_valid(&self) -> (r: bool)
        ensures
            r == self.dates_wf(),
    {
        let mut i: usize = 0;
        while i < self.toc.len()
            invariant
                i <= self.toc@.len(),
                forall|j: int| 0 <= j < i ==> (#[trigger] self.toc@[j]).date.wf(),
            decreases self.toc@.len() - i,
        {
            let d = self.toc[i].date;
            if Date::new(d.year, d.month, d.day).is_none() {
                return false;
            }
            i = i + 1;
        }
        true
    }

    /// The rows of the table of contents, in its order.
    pub fn toc_rows(&self) -> (r: Vec<TocRow>)
        requires
            self.dates_wf(),
        ensures
            r@.len() == self.toc@.len(),
            forall|i: int|
                0 <= i < r@.len() ==> (#[trigger] r@[i]).date@ == long_date(self.toc@[i].date)
                    && r@[i].title@ == self.toc@[i].title@,
    {
        let mut r: Vec<TocRow> = Vec::new();
        let mut i: usize = 0;
        while i < self.toc.len()
            invariant
                i <= self.toc@.len(),
                self.dates_wf(),
                r@.len() == i,
                forall|j: int|
                    0 <= j < i ==> (#[trigger] r@[j]).date@ == long_date(self.toc@[j].date)
                        && r@[j].title@ == self.toc@[j].title@,
            decreases self.toc@.len() - i,
        {
            let e = &self.toc[i];
            r.push(TocRow { date: e.date.long_form(), title: e.title.clone() });
            i = i + 1;
        }
        r
    }
}

} // verus!
