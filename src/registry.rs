use vstd::prelude::*;
use crate::app::{App, Effect, Key, Screen, is_fresh, key_of, stepped, view_of};
use crate::catalog::{Catalog, toc_of};
use crate::post::Post;

verus! {

/// A live session and the number it is known by.
#[derive(Debug)]
pub struct Session {
    pub id: usize,
    pub app: App,
}

/// What became of an input event handed to the registry.
#[derive(Clone, Copy, Debug, PartialEq, Eq, Structural)]
pub enum Dispatch {
    /// No session has that number.
    Missing,
    /// The session took the input and stays open.
    Continued,
    /// The session asked to end and was removed.
    Closed,
}

pub open spec fn has_id(s: Seq<Session>, id: usize) -> bool {
    exists|i: int| 0 <= i < s.len() && s[i].id == id
}

pub open spec fn index_of(s: Seq<Session>, id: usize) -> int {
    choose|i: int| 0 <= i < s.len() && s[i].id == id
}

/// The state of the session numbered `id`.
pub open spec fn app_of(s: Seq<Session>, id: usize) -> App {
    s[index_of(s, id)].app
}

pub open spec fn ids_unique(s: Seq<Session>) -> bool {
    forall|i: int, j: int| 0 <= i < s.len() && 0 <= j < s.len() && i != j ==> s[i].id != s[j].id
}

proof fn lemma_index_of(s: Seq<Session>, id: usize, i: int)
    requires
        ids_unique(s),
        0 <= i < s.len(),
        s[i].id == id,
    ensures
        has_id(s, id),
        index_of(s, id) == i,
{
}

/// Removing one session leaves every other session as it was, under its number.
proof fn lemma_remove_keeps_others(s: Seq<Session>, i: int)
    requires
        ids_unique(s),
        0 <= i < s.len(),
    ensures
        ids_unique(s.remove(i)),
        !has_id(s.remove(i), s[i].id),
        forall|b: usize|
            b != s[i].id && has_id(s, b) ==> has_id(s.remove(i), b) && app_of(s.remove(i), b)
                == app_of(s, b),
{
    let r = s.remove(i);
    assert forall|b: usize| b != s[i].id && has_id(s, b) implies has_id(r, b) && app_of(r, b)
        == app_of(s, b) by {
        let k = index_of(s, b);
        let m = if k < i { k } else { k - 1 };
        assert(r[m] == s[k]);
        lemma_index_of(r, b, m);
    }
    if has_id(r, s[i].id) {
        let m = index_of(r, s[i].id);
        if m < i {
            assert(r[m] == s[m]);
        } else {
            assert(r[m] == s[m + 1]);
        }
    }
}

/// Replacing one session's state leaves every other session as it was, under its number.
proof fn lemma_update_keeps_others(s: Seq<Session>, i: int, t: Seq<Session>)
    requires
        ids_unique(s),
        0 <= i < s.len(),
        t.len() == s.len(),
        t[i].id == s[i].id,
        forall|j: int| 0 <= j < s.len() && j != i ==> t[j] == s[j],
    ensures
        ids_unique(t),
        has_id(t, s[i].id),
        index_of(t, s[i].id) == i,
        forall|b: usize|
            b != s[i].id && has_id(s, b) ==> has_id(t, b) && app_of(t, b) == app_of(s, b),
{
    lemma_index_of(t, s[i].id, i);
    assert forall|b: usize| b != s[i].id && has_id(s, b) implies has_id(t, b) && app_of(t, b)
        == app_of(s, b) by {
        let k = index_of(s, b);
        lemma_index_of(t, b, k);
    }
}

/// What each session's screen shows, with its number, in the order of `s`.
pub open spec fn screens_of(s: Seq<Session>, c: Catalog) -> Seq<(usize, Screen)> {
    Seq::new(
        s.len(),
        |i: int| (s[i].id, view_of(s[i].app.focused_block, s[i].app.selection, s[i].app.scroll, c)),
    )
}

/// The live sessions, all browsing one catalog.
pub struct Registry {
    catalog: Catalog,
    sessions: Vec<Session>,
    next_id: usize,
}

impl Registry {
    /// The live sessions, in the order they opened.
    pub closed spec fn sessions(&self) -> Seq<Session> {
        self.sessions@
    }

    /// The catalog that every session browses.
    pub closed spec fn shared_catalog(&self) -> Catalog {
        self.catalog
    }

    /// The catalog that every session browses.
    pub fn catalog(&self) -> (r: &Catalog)
        ensures
            *r == self.shared_catalog(),
    {
        &self.catalog
    }

    /// The number the next session will get, if numbers are left.
    pub closed spec fn next_id(&self) -> usize {
        self.next_id
    }

    /// Numbers are unique, and every number in use was handed out before.
    pub closed spec fn wf(&self) -> bool {
        &&& ids_unique(self.sessions@)
        &&& forall|i: int| 0 <= i < self.sessions@.len() ==> #[trigger] self.sessions@[i].id < self.next_id
    }

    /// A registry with no session, over the catalog of `posts`.
    pub fn new(posts: Vec<Post>) -> (r: Registry)
        ensures
            r.wf(),
            r.sessions().len() == 0,
            r.next_id() == 0,
            r.shared_catalog().posts@ == posts@,
            r.shared_catalog().toc@ == toc_of(posts@),
    {
        Registry { catalog: Catalog::new(posts), sessions: Vec::new(), next_id: 0 }
    }

    /// How many sessions are live.
    pub fn len(&self) -> (r: usize)
        ensures
            r == self.sessions().len(),
    {
        self.sessions.len()
    }

    fn find(&self, id: usize) -> (r: Option<usize>)
        requires
            self.wf(),
        ensures
            r is Some == has_id(self.sessions(), id),
            r matches Some(i) ==> i < self.sessions().len() && i == index_of(self.sessions(), id),
    {
        let mut i: usize = 0;
        while i < self.sessions.len()
            invariant
                i <= self.sessions@.len(),
                ids_unique(self.sessions@),
                forall|j: int| 0 <= j < i ==> self.sessions@[j].id != id,
            decreases self.sessions@.len() - i,
        {
            if self.sessions[i].id == id {
                proof {
                    lemma_index_of(self.sessions@, id, i as int);
                }
                return Some(i);
            }
            i = i + 1;
        }
        None
    }

    /// Opens a session on a new number; `None` once every number has been handed out.
    pub fn open(&mut self) -> (r: Option<usize>)
        requires
            old(self).wf(),
        ensures
            final(self).wf(),
            final(self).shared_catalog() == old(self).shared_catalog(),
            old(self).next_id() == usize::MAX ==> r is None && final(self).sessions()
                == old(self).sessions(),
            old(self).next_id() == usize::MAX ==> final(self).next_id() == old(self).next_id(),
            old(self).next_id() < usize::MAX ==> r == Some(old(self).next_id()) && final(self).next_id()
                == old(self).next_id() + 1,
            r matches Some(id) ==> {
                &&& !has_id(old(self).sessions(), id)
                &&& final(self).sessions().len() == old(self).sessions().len() + 1
                &&& final(self).sessions().drop_last() == old(self).sessions()
                &&& final(self).sessions().last().id == id
                &&& is_fresh(final(self).sessions().last().app, final(self).shared_catalog())
            },
    {
        if self.next_id == usize::MAX {
            return None;
        }
        let id = self.next_id;
        let app = App::new(&self.catalog);
        self.sessions.push(Session { id, app });
        self.next_id = self.next_id + 1;
        proof {
            assert(self.sessions@.drop_last() =~= old(self).sessions@);
        }
        Some(id)
    }

    /// Removes the session numbered `id`; says whether there was one.
    pub fn close(&mut self, id: usize) -> (r: bool)
        requires
            old(self).wf(),
        ensures
            final(self).wf(),
            final(self).next_id() == old(self).next_id(),
            final(self).shared_catalog() == old(self).shared_catalog(),
            r == has_id(old(self).sessions(), id),
            r ==> final(self).sessions() == old(self).sessions().remove(
                index_of(old(self).sessions(), id),
            ),
            !r ==> final(self).sessions() == old(self).sessions(),
            !has_id(final(self).sessions(), id),
            forall|b: usize|
                b != id && has_id(old(self).sessions(), b) ==> has_id(final(self).sessions(), b)
                    && app_of(final(self).sessions(), b) == app_of(old(self).sessions(), b),
    {
        match self.find(id) {
            Some(i) => {
                proof {
                    lemma_remove_keeps_others(self.sessions@, i as int);
                }
                self.sessions.remove(i);
                true
            },
            None => false,
        }
    }

    /// Hands an input event to the session numbered `id`, and removes the session when
    /// the input ends it. No other session changes.
    pub fn dispatch(&mut self, id: usize, data: &[u8]) -> (r: Dispatch)
        requires
            old(self).wf(),
        ensures
            final(self).wf(),
            final(self).next_id() == old(self).next_id(),
            final(self).shared_catalog() == old(self).shared_catalog(),
            !has_id(old(self).sessions(), id) ==> r == Dispatch::Missing && final(self).sessions()
                == old(self).sessions(),
            has_id(old(self).sessions(), id) && key_of(data@) == Key::Quit ==> r
                == Dispatch::Closed && final(self).sessions() == old(self).sessions().remove(
                index_of(old(self).sessions(), id),
            ),
            has_id(old(self).sessions(), id) && key_of(data@) != Key::Quit ==> {
                &&& r == Dispatch::Continued
                &&& has_id(final(self).sessions(), id)
                &&& stepped(
                    app_of(old(self).sessions(), id),
                    app_of(final(self).sessions(), id),
                    old(self).shared_catalog(),
                    data@,
                )
            },
            forall|b: usize|
                b != id && has_id(old(self).sessions(), b) ==> has_id(final(self).sessions(), b)
                    && app_of(final(self).sessions(), b) == app_of(old(self).sessions(), b),
            forall|b: usize| b != id ==> has_id(final(self).sessions(), b) == has_id(old(self).sessions(), b),
    {
        let i = match self.find(id) {
            Some(i) => i,
            None => {
                return Dispatch::Missing;
            },
        };
        let mut s = self.sessions.remove(i);
        let effect = s.app.on_input(&self.catalog, data);
        if effect == Effect::Terminate {
            proof {
                lemma_remove_keeps_others(old(self).sessions@, i as int);
                assert(self.sessions@ == old(self).sessions@.remove(i as int));
            }
            return Dispatch::Closed;
        }
        self.sessions.insert(i, s);
        proof {
            let t = self.sessions@;
            let o = old(self).sessions@;
            assert forall|j: int| 0 <= j < o.len() && j != i implies t[j] == o[j] by {
                assert(t[j] == o[j]);
            }
            lemma_update_keeps_others(o, i as int, t);
            assert forall|b: usize| b != id implies has_id(t, b) == has_id(o, b) by {
                if has_id(t, b) {
                    let k = index_of(t, b);
                    if k != i {
                        assert(o[k] == t[k]);
                    }
                }
            }
            assert forall|k: int| 0 <= k < t.len() implies #[trigger] t[k].id < self.next_id by {
                if k != i {
                    assert(t[k] == o[k]);
                }
            }
        }
        Dispatch::Continued
    }

    /// Records the terminal size that the session numbered `id` reports; says whether
    /// there was such a session.
    pub fn resize(&mut self, id: usize, width: u32, height: u32) -> (r: bool)
        requires
            old(self).wf(),
        ensures
            final(self).wf(),
            final(self).next_id() == old(self).next_id(),
            final(self).shared_catalog() == old(self).shared_catalog(),
            r == has_id(old(self).sessions(), id),
            forall|b: usize| has_id(final(self).sessions(), b) == has_id(old(self).sessions(), b),
            forall|b: usize|
                b != id && has_id(old(self).sessions(), b) ==> app_of(final(self).sessions(), b)
                    == app_of(old(self).sessions(), b),
            r ==> {
                let a = app_of(old(self).sessions(), id);
                let n = app_of(final(self).sessions(), id);
                &&& n.area_width == (width % 0x10000) as u16
                &&& n.area_height == (height % 0x10000) as u16
                &&& n.running == a.running
                &&& n.focused_block == a.focused_block
                &&& n.selection == a.selection
                &&& n.scroll == a.scroll
                &&& n.previous_key@ == a.previous_key@
            },
    {
        let i = match self.find(id) {
            Some(i) => i,
            None => {
                return false;
            },
        };
        let mut s = self.sessions.remove(i);
        s.app.resize(width, height);
        self.sessions.insert(i, s);
        proof {
            let t = self.sessions@;
            let o = old(self).sessions@;
            assert forall|j: int| 0 <= j < o.len() && j != i implies t[j] == o[j] by {
                assert(t[j] == o[j]);
            }
            lemma_update_keeps_others(o, i as int, t);
            assert forall|b: usize| has_id(t, b) == has_id(o, b) by {
                if has_id(t, b) {
                    let k = index_of(t, b);
                    if k != i {
                        assert(o[k] == t[k]);
                    }
                }
            }
            assert forall|k: int| 0 <= k < t.len() implies #[trigger] t[k].id < self.next_id by {
                if k != i {
                    assert(t[k] == o[k]);
                }
            }
        }
        true
    }

    /// The state of the session numbered `id`, if it is live.
    pub fn app(&self, id: usize) -> (r: Option<&App>)
        requires
            self.wf(),
        ensures
            r is Some == has_id(self.sessions(), id),
            r matches Some(a) ==> *a == app_of(self.sessions(), id),
    {
        match self.find(id) {
            Some(i) => Some(&self.sessions[i].app),
            None => None,
        }
    }

    /// What every live session's screen shows, with its number, in the order they opened.
    pub fn redraw_all(&self) -> (r: Vec<(usize, Screen)>)
        ensures
            r@ == screens_of(self.sessions(), self.shared_catalog()),
    {
        let mut r: Vec<(usize, Screen)> = Vec::new();
        let mut i: usize = 0;
        while i < self.sessions.len()
            invariant
                i <= self.sessions@.len(),
                r@.len() == i,
                forall|j: int|
                    0 <= j < i ==> #[trigger] r@[j] == (
                        self.sessions@[j].id,
                        view_of(
                            self.sessions@[j].app.focused_block,
                            self.sessions@[j].app.selection,
                            self.sessions@[j].app.scroll,
                            self.catalog,
                        ),
                    ),
            decreases self.sessions@.len() - i,
        {
            let s = &self.sessions[i];
            r.push((s.id, s.app.compose(&self.catalog)));
            i = i + 1;
        }
        assert(r@ =~= screens_of(self.sessions(), self.shared_catalog()));
        r
    }
}

} // verus!
