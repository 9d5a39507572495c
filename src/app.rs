use vstd::prelude::*;
use crate::catalog::Catalog;
use crate::post::Post;
use crate::text::line_count;

verus! {

/// The screen a session shows.
#[derive(Clone, Copy, Debug, PartialEq, Eq, Structural)]
pub enum FocusedBlock {
    Toc,
    Post,
}

/// A logical input token, as read from the bytes of one input event.
#[derive(Clone, Copy, Debug, PartialEq, Eq, Structural)]
pub enum Key {
    /// `q` or the interrupt byte.
    Quit,
    /// `j`.
    Down,
    /// `k`.
    Up,
    /// Enter.
    Enter,
    /// Escape or Backspace.
    Back,
    /// `G`.
    Bottom,
    /// `g`.
    Top,
    /// Anything else.
    Other,
}

/// What the session asks of its connection after an input.
#[derive(Clone, Copy, Debug, PartialEq, Eq, Structural)]
pub enum Effect {
    Continue,
    Terminate,
}

/// What a session's screen shows.
#[derive(Clone, Copy, Debug, PartialEq, Eq, Structural)]
pub enum Screen {
    /// The table of contents, with the highlighted row if any.
    Toc { highlighted: Option<usize> },
    /// The body of the document at this index of the catalog, from this line on.
    Post { post: usize, scroll: u16 },
    /// Nothing: the selection names no document.
    Empty,
}

/// The size a session draws at until its terminal reports one.
pub const FALLBACK_WIDTH: u16 = 80;

pub const FALLBACK_HEIGHT: u16 = 24;

pub open spec fn key_of(data: Seq<u8>) -> Key {
    if data == seq![113u8] || data == seq![3u8] {
        Key::Quit
    } else if data == seq![106u8] {
        Key::Down
    } else if data == seq![107u8] {
        Key::Up
    } else if data == seq![13u8] {
        Key::Enter
    } else if data == seq![27u8] || data == seq![127u8] {
        Key::Back
    } else if data == seq![71u8] {
        Key::Bottom
    } else if data == seq![103u8] {
        Key::Top
    } else {
        Key::Other
    }
}

/// Reads the token of one input event.
pub fn classify(data: &[u8]) -> (r: Key)
    ensures
        r == key_of(data@),
{
    if data.len() != 1 {
        proof {
            assert(data@.len() != 1);
            assert(data@ != seq![113u8] && data@ != seq![3u8] && data@ != seq![106u8]);
            assert(data@ != seq![107u8] && data@ != seq![13u8] && data@ != seq![27u8]);
            assert(data@ != seq![127u8] && data@ != seq![71u8] && data@ != seq![103u8]);
        }
        return Key::Other;
    }
    let b = data[0];
    proof {
        assert(data@ =~= seq![b]);
    }
    if b == 113 || b == 3 {
        Key::Quit
    } else if b == 106 {
        Key::Down
    } else if b == 107 {
        Key::Up
    } else if b == 13 {
        Key::Enter
    } else if b == 27 || b == 127 {
        Key::Back
    } else if b == 71 {
        Key::Bottom
    } else if b == 103 {
        Key::Top
    } else {
        proof {
            assert(seq![b][0] == b);
            assert(seq![113u8][0] == 113u8);
        }
        Key::Other
    }
}

/// The first document, from index `from` on, whose title is `t`.
pub open spec fn first_titled(posts: Seq<Post>, t: Seq<char>, from: int) -> Option<int>
    decreases posts.len() - from,
{
    if from < 0 || from >= posts.len() {
        None
    } else if posts[from].title@ == t {
        Some(from)
    } else {
        first_titled(posts, t, from + 1)
    }
}

/// The document that a selection names: the first whose title is that of the selected
/// table-of-contents entry.
pub open spec fn selected_post(c: Catalog, sel: Option<usize>) -> Option<int> {
    match sel {
        Some(i) => if i < c.toc@.len() {
            first_titled(c.posts@, c.toc@[i as int].title@, 0)
        } else {
            None
        },
        None => None,
    }
}

pub open spec fn next_focus(f: FocusedBlock, k: Key) -> FocusedBlock {
    match k {
        Key::Enter => FocusedBlock::Post,
        Key::Back => FocusedBlock::Toc,
        _ => f,
    }
}

pub open spec fn next_selection(
    f: FocusedBlock,
    sel: Option<usize>,
    k: Key,
    after_g: bool,
    toc_len: nat,
) -> Option<usize> {
    match f {
        FocusedBlock::Post => sel,
        FocusedBlock::Toc => match k {
            Key::Down => match sel {
                Some(i) => if i + 1 < toc_len { Some((i + 1) as usize) } else { Some(i) },
                None => if toc_len == 0 { None } else { Some(0) },
            },
            Key::Up => match sel {
                Some(i) => if i > 1 { Some((i - 1) as usize) } else { Some(0) },
                None => if toc_len == 0 { None } else { Some(0) },
            },
            Key::Bottom => Some(toc_len as usize),
            Key::Top => if after_g && toc_len > 0 { Some(0) } else { sel },
            _ => sel,
        },
    }
}

pub open spec fn next_scroll(
    f: FocusedBlock,
    scroll: u16,
    k: Key,
    after_g: bool,
    bottom: Option<nat>,
) -> u16 {
    match f {
        FocusedBlock::Toc => scroll,
        FocusedBlock::Post => match k {
            Key::Down => if scroll < u16::MAX { (scroll + 1) as u16 } else { scroll },
            Key::Up => if scroll > 0 { (scroll - 1) as u16 } else { 0 },
            Key::Bottom => match bottom {
                Some(h) => (h % 0x10000) as u16,
                None => scroll,
            },
            Key::Top => if after_g { 0 } else { scroll },
            _ => scroll,
        },
    }
}

/// The line count of the selected document's body, if the selection names one.
pub open spec fn selected_height(c: Catalog, sel: Option<usize>) -> Option<nat> {
    match selected_post(c, sel) {
        Some(p) => Some(line_count(c.posts@[p].content@)),
        None => None,
    }
}

pub open spec fn view_of(f: FocusedBlock, sel: Option<usize>, scroll: u16, c: Catalog) -> Screen {
    match f {
        FocusedBlock::Toc => Screen::Toc {
            highlighted: match sel {
                Some(i) => if i < c.toc@.len() { Some(i) } else { None },
                None => None,
            },
        },
        FocusedBlock::Post => match selected_post(c, sel) {
            Some(p) => Screen::Post { post: p as usize, scroll },
            None => Screen::Empty,
        },
    }
}

/// `new` is what `old` becomes on the input event `data`.
pub open spec fn stepped(old: App, new: App, c: Catalog, data: Seq<u8>) -> bool {
    let after_g = old.previous_key@ == seq![103u8];
    &&& new.focused_block == next_focus(old.focused_block, key_of(data))
    &&& new.selection == next_selection(
        old.focused_block,
        old.selection,
        key_of(data),
        after_g,
        c.toc@.len(),
    )
    &&& new.scroll == next_scroll(
        old.focused_block,
        old.scroll,
        key_of(data),
        after_g,
        selected_height(c, old.selection),
    )
    &&& new.previous_key@ == data
    &&& new.running == (old.running && key_of(data) != Key::Quit)
    &&& new.area_width == old.area_width
    &&& new.area_height == old.area_height
}

/// `a` is the state of a session that has just opened.
pub open spec fn is_fresh(a: App, c: Catalog) -> bool {
    &&& a.running
    &&& a.focused_block == FocusedBlock::Toc
    &&& a.selection == (if c.toc@.len() == 0 { None::<usize> } else { Some(0usize) })
    &&& a.scroll == 0
    &&& a.area_width == 0
    &&& a.area_height == 0
    &&& a.previous_key@ == seq![0u8]
}

/// The state of one session.
#[derive(Clone, Debug)]
pub struct App {
    pub running: bool,
    pub focused_block: FocusedBlock,
    pub selection: Option<usize>,
    pub scroll: u16,
    pub area_width: u16,
    pub area_height: u16,
    pub previous_key: Vec<u8>,
}

proof fn lemma_first_titled_in_range(posts: Seq<Post>, t: Seq<char>, from: int)
    ensures
        first_titled(posts, t, from) matches Some(p) ==> from <= p < posts.len(),
    decreases posts.len() - from,
{
    if 0 <= from < posts.len() && posts[from].title@ != t {
        lemma_first_titled_in_range(posts, t, from + 1);
    }
}

fn find_titled(posts: &Vec<Post>, t: &String) -> (r: Option<usize>)
    ensures
        r matches Some(p) ==> p < posts@.len() && first_titled(posts@, t@, 0) == Some(p as int),
        r is None ==> first_titled(posts@, t@, 0) is None,
{
    proof {
        lemma_first_titled_in_range(posts@, t@, 0);
    }
    let mut i: usize = 0;
    while i < posts.len()
        invariant
            i <= posts@.len(),
            first_titled(posts@, t@, 0) == first_titled(posts@, t@, i as int),
        decreases posts@.len() - i,
    {
        if posts[i].title == *t {
            return Some(i);
        }
        i = i + 1;
    }
    None
}

impl App {
    /// A fresh session: the table of contents, its first row selected.
    pub fn new(catalog: &Catalog) -> (r: App)
        ensures
            is_fresh(r, *catalog),
    {
        let selection = if catalog.toc.len() == 0 { None } else { Some(0) };
        let previous_key = vec![0u8];
        assert(previous_key@ =~= seq![0u8]);
        App {
            running: true,
            focused_block: FocusedBlock::Toc,
            selection,
            scroll: 0,
            area_width: 0,
            area_height: 0,
            previous_key,
        }
    }

    /// The document the selection names, if any.
    pub fn selected_post(&self, catalog: &Catalog) -> (r: Option<usize>)
        ensures
            r matches Some(p) ==> p < catalog.posts@.len() && selected_post(
                *catalog,
                self.selection,
            ) == Some(p as int),
            r is None ==> selected_post(*catalog, self.selection) is None,
    {
        match self.selection {
            Some(i) => if i < catalog.toc.len() {
                find_titled(&catalog.posts, &catalog.toc[i].title)
            } else {
                None
            },
            None => None,
        }
    }

    /// Applies one input event to the session.
    pub fn on_input(&mut self, catalog: &Catalog, data: &[u8]) -> (r: Effect)
        ensures
            stepped(*old(self), *final(self), *catalog, data@),
            r == (if key_of(data@) == Key::Quit { Effect::Terminate } else { Effect::Continue }),
    {
        let key = classify(data);
        let after_g = self.previous_key.len() == 1 && self.previous_key[0] == 103;
        proof {
            if self.previous_key@ == seq![103u8] {
                assert(self.previous_key@[0] == 103u8);
            }
            if after_g {
                assert(self.previous_key@ =~= seq![103u8]);
            }
        }
        let mut effect = Effect::Continue;
        match key {
            Key::Quit => {
                self.running = false;
                effect = Effect::Terminate;
            },
            Key::Down => match self.focused_block {
                FocusedBlock::Toc => {
                    self.selection = match self.selection {
                        Some(i) => if i < catalog.toc.len() && catalog.toc.len() - i > 1 {
                            Some(i + 1)
                        } else {
                            Some(i)
                        },
                        None => if catalog.toc.len() == 0 { None } else { Some(0) },
                    };
                },
                FocusedBlock::Post => {
                    self.scroll = self.scroll.saturating_add(1);
                },
            },
            Key::Up => match self.focused_block {
                FocusedBlock::Toc => {
                    self.selection = match self.selection {
                        Some(i) => if i > 1 { Some(i - 1) } else { Some(0) },
                        None => if catalog.toc.len() == 0 { None } else { Some(0) },
                    };
                },
                FocusedBlock::Post => {
                    self.scroll = self.scroll.saturating_sub(1);
                },
            },
            Key::Enter => {
                self.focused_block = FocusedBlock::Post;
            },
            Key::Back => {
                self.focused_block = FocusedBlock::Toc;
            },
            Key::Bottom => match self.focused_block {
                FocusedBlock::Post => {
                    if let Some(p) = self.selected_post(catalog) {
                        let h = catalog.posts[p].height();
                        self.scroll = (h % 0x10000) as u16;
                    }
                },
                FocusedBlock::Toc => {
                    self.selection = Some(catalog.toc.len());
                },
            },
            Key::Top => {
                if after_g {
                    match self.focused_block {
                        FocusedBlock::Post => {
                            self.scroll = 0;
                        },
                        FocusedBlock::Toc => {
                            if catalog.toc.len() > 0 {
                                self.selection = Some(0);
                            }
                        },
                    }
                }
            },
            Key::Other => {},
        }
        self.previous_key = vstd::slice::slice_to_vec(data);
        effect
    }

    /// What the session's screen shows.
    pub fn compose(&self, catalog: &Catalog) -> (r: Screen)
        ensures
            r == view_of(self.focused_block, self.selection, self.scroll, *catalog),
    {
        match self.focused_block {
            FocusedBlock::Toc => {
                let highlighted = match self.selection {
                    Some(i) => if i < catalog.toc.len() { Some(i) } else { None },
                    None => None,
                };
                Screen::Toc { highlighted }
            },
            FocusedBlock::Post => match self.selected_post(catalog) {
                Some(p) => Screen::Post { post: p, scroll: self.scroll },
                None => Screen::Empty,
            },
        }
    }

    /// Records the size the session's terminal reports.
    pub fn resize(&mut self, width: u32, height: u32)
        ensures
            final(self).area_width == (width % 0x10000) as u16,
            final(self).area_height == (height % 0x10000) as u16,
            final(self).running == old(self).running,
            final(self).focused_block == old(self).focused_block,
            final(self).selection == old(self).selection,
            final(self).scroll == old(self).scroll,
            final(self).previous_key@ == old(self).previous_key@,
    {
        self.area_width = (width % 0x10000) as u16;
        self.area_height = (height % 0x10000) as u16;
    }

    /// The size to draw at: the last one reported, or a fallback before any report.
    pub fn viewport(&self) -> (r: (u16, u16))
        ensures
            r == (if self.area_width == 0 || self.area_height == 0 {
                (FALLBACK_WIDTH, FALLBACK_HEIGHT)
            } else {
                (self.area_width, self.area_height)
            }),
    {
        if self.area_width == 0 || self.area_height == 0 {
            (FALLBACK_WIDTH, FALLBACK_HEIGHT)
        } else {
            (self.area_width, self.area_height)
        }
    }
}

} // verus!
