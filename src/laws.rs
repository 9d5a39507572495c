use vstd::prelude::*;
use crate::app::{
    App, FocusedBlock, Key, Screen, key_of, next_scroll, next_selection, selected_height, stepped,
    view_of,
};
use crate::catalog::Catalog;

verus! {

/// The selection after `n` presses of the key `k` in the table of contents.
pub open spec fn repeat_key(sel: Option<usize>, k: Key, n: nat, toc_len: nat) -> Option<usize>
    decreases n,
{
    if n == 0 {
        sel
    } else {
        next_selection(FocusedBlock::Toc, repeat_key(sel, k, (n - 1) as nat, toc_len), k, false, toc_len)
    }
}

/// Pressing `j` again and again from the first row climbs one row per press and stops at
/// the last row.
pub proof fn lemma_down_saturates(n: nat, toc_len: nat)
    requires
        toc_len > 0,
        toc_len <= usize::MAX,
    ensures
        repeat_key(Some(0usize), Key::Down, n, toc_len) == Some(
            (if n < toc_len { n } else { (toc_len - 1) as nat }) as usize,
        ),
    decreases n,
{
    if n > 0 {
        lemma_down_saturates((n - 1) as nat, toc_len);
    }
}

/// Pressing `j` never moves the selection past the last row, nor past where it was.
pub proof fn lemma_down_bounded(i: usize, n: nat, toc_len: nat)
    requires
        toc_len <= usize::MAX,
    ensures
        repeat_key(Some(i), Key::Down, n, toc_len) matches Some(j) && i <= j && (j < toc_len || j
            == i),
    decreases n,
{
    if n > 0 {
        lemma_down_bounded(i, (n - 1) as nat, toc_len);
    }
}

/// A selection that fits a table of contents of `toc_len` rows: none only when the table is
/// empty, and otherwise a row or, after `G`, one past the last row.
pub open spec fn selection_fits(sel: Option<usize>, toc_len: nat) -> bool {
    match sel {
        Some(i) => i <= toc_len,
        None => toc_len == 0,
    }
}

/// Every input keeps the selection fitting the table of contents; an empty table keeps no
/// selection under `j`, `k` and `g`; and only `G` moves a selection that names a row past
/// the last row.
pub proof fn lemma_selection_stays_in_bounds(
    f: FocusedBlock,
    sel: Option<usize>,
    k: Key,
    after_g: bool,
    toc_len: nat,
)
    requires
        toc_len <= usize::MAX,
        selection_fits(sel, toc_len),
    ensures
        selection_fits(next_selection(f, sel, k, after_g, toc_len), toc_len),
        toc_len == 0 && sel is None && k != Key::Bottom ==> next_selection(
            f,
            sel,
            k,
            after_g,
            toc_len,
        ) is None,
        sel matches Some(i) && i < toc_len && k != Key::Bottom ==> (next_selection(
            f,
            sel,
            k,
            after_g,
            toc_len,
        ) matches Some(j) && j < toc_len),
{
}

/// `G` in the table of contents selects one past the last row, and then no row is
/// highlighted.
pub proof fn lemma_bottom_not_highlighted(sel: Option<usize>, after_g: bool, scroll: u16, c: Catalog)
    requires
        c.toc@.len() <= usize::MAX,
    ensures
        next_selection(FocusedBlock::Toc, sel, Key::Bottom, after_g, c.toc@.len()) == Some(
            c.toc@.len() as usize,
        ),
        view_of(
            FocusedBlock::Toc,
            next_selection(FocusedBlock::Toc, sel, Key::Bottom, after_g, c.toc@.len()),
            scroll,
            c,
        ) == (Screen::Toc { highlighted: None }),
{
}

/// Pressing `k` again and again climbs down one row per press and stops at the first row.
pub proof fn lemma_up_floors(i: usize, n: nat, toc_len: nat)
    ensures
        repeat_key(Some(i), Key::Up, n, toc_len) == Some(
            (if n < i { i - n } else { 0 }) as usize,
        ),
    decreases n,
{
    if n > 0 {
        lemma_up_floors(i, (n - 1) as nat, toc_len);
    }
}

/// Enter then Escape from the table of contents comes back to it with the same selection,
/// scroll and size.
pub proof fn lemma_enter_escape(a: App, b: App, d: App, c: Catalog)
    requires
        a.focused_block == FocusedBlock::Toc,
        stepped(a, b, c, seq![13u8]),
        stepped(b, d, c, seq![27u8]),
    ensures
        d.focused_block == FocusedBlock::Toc,
        d.selection == a.selection,
        d.scroll == a.scroll,
        d.running == a.running,
        d.area_width == a.area_width,
        d.area_height == a.area_height,
{
    lemma_one_byte_ne(13, 113);
    lemma_one_byte_ne(13, 3);
    lemma_one_byte_ne(13, 106);
    lemma_one_byte_ne(13, 107);
    lemma_one_byte_ne(27, 113);
    lemma_one_byte_ne(27, 3);
    lemma_one_byte_ne(27, 106);
    lemma_one_byte_ne(27, 107);
    lemma_one_byte_ne(27, 13);
    assert(key_of(seq![13u8]) == Key::Enter);
    assert(key_of(seq![27u8]) == Key::Back);
}

/// In a document, `g` twice brings the view back to the first line, wherever it was.
pub proof fn lemma_gg_resets_scroll(a: App, b: App, d: App, c: Catalog)
    requires
        a.focused_block == FocusedBlock::Post,
        stepped(a, b, c, seq![103u8]),
        stepped(b, d, c, seq![103u8]),
    ensures
        d.scroll == 0,
        d.focused_block == FocusedBlock::Post,
{
    lemma_key_g();
}

/// In a document, `g` followed by another input acts as that input alone would: no
/// return to the first line.
pub proof fn lemma_g_then_other(a: App, b: App, d: App, c: Catalog, x: Seq<u8>)
    requires
        a.focused_block == FocusedBlock::Post,
        x != seq![103u8],
        stepped(a, b, c, seq![103u8]),
        stepped(b, d, c, x),
    ensures
        d.scroll == next_scroll(
            FocusedBlock::Post,
            b.scroll,
            key_of(x),
            false,
            selected_height(c, b.selection),
        ),
        key_of(x) == Key::Other ==> d.scroll == b.scroll,
{
    lemma_key_g();
}

proof fn lemma_one_byte_ne(b: u8, c: u8)
    requires
        b != c,
    ensures
        seq![b] != seq![c],
{
    assert(seq![b][0] != seq![c][0]);
}

proof fn lemma_key_g()
    ensures
        key_of(seq![103u8]) == Key::Top,
{
    lemma_one_byte_ne(103, 113);
    lemma_one_byte_ne(103, 3);
    lemma_one_byte_ne(103, 106);
    lemma_one_byte_ne(103, 107);
    lemma_one_byte_ne(103, 13);
    lemma_one_byte_ne(103, 27);
    lemma_one_byte_ne(103, 127);
    lemma_one_byte_ne(103, 71);
}

} // verus!
