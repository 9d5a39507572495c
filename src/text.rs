use vstd::prelude::*;
use vstd::std_specs::iter::IteratorSpec;
use vstd::string::*;

verus! {

/// The characters of `s`, in order.
pub fn chars_of(s: &str) -> (r: Vec<char>)
    ensures
        r@ == s@,
{
    broadcast use vstd::string::group_string_axioms;

    let mut r: Vec<char> = Vec::new();
    let mut it = s.chars();
    loop
        invariant
            s@ == r@ + it.remaining(),
            it.decrease() is Some,
        ensures
            s@ == r@,
        decreases it.decrease()->0,
    {
        match it.next() {
            Some(c) => {
                r.push(c);
            },
            None => {
                break;
            },
        }
    }
    r
}


/// The line that opens and closes a front-matter block.
pub open spec fn fence() -> Seq<char> {
    seq!['-', '-', '-', '\n']
}

pub open spec fn fence_at(s: Seq<char>, k: int) -> bool {
    0 <= k && k + 4 <= s.len() && s.subrange(k, k + 4) == fence()
}

/// The text opens with a fence and has a closing fence after it.
pub open spec fn has_front_matter(s: Seq<char>) -> bool {
    fence_at(s, 0) && exists|k: int| k >= 4 && fence_at(s, k)
}

/// `k` is the first closing fence of `s`.
pub open spec fn closing_fence(s: Seq<char>, k: int) -> bool {
    k >= 4 && fence_at(s, k) && forall|j: int| 4 <= j < k ==> !fence_at(s, j)
}

/// Where the body starts after a closing fence at `k`: past the fence and one more
/// character, or at the end of the text.
pub open spec fn body_start(s: Seq<char>, k: int) -> int {
    if k + 5 <= s.len() { k + 5 } else { s.len() as int }
}

fn fence_here(cs: &Vec<char>, k: usize) -> (r: bool)
    requires
        k + 4 <= cs.len(),
    ensures
        r == fence_at(cs@, k as int),
{
    let r = cs[k] == '-' && cs[k + 1] == '-' && cs[k + 2] == '-' && cs[k + 3] == '\n';
    if r {
        assert(cs@.subrange(k as int, k + 4) =~= fence());
    } else {
        assert(cs@.subrange(k as int, k + 4)[0] == cs@[k as int]);
        assert(cs@.subrange(k as int, k + 4)[1] == cs@[k + 1]);
        assert(cs@.subrange(k as int, k + 4)[2] == cs@[k + 2]);
        assert(cs@.subrange(k as int, k + 4)[3] == cs@[k + 3]);
    }
    r
}

/// Splits a document into its front matter and its body. The document must open with a
/// `---` line; the front matter runs up to the next `---` line, and the body starts one
/// character after that line.
pub fn split_front_matter(text: &str) -> (r: Option<(String, String)>)
    ensures
        r.is_some() == has_front_matter(text@),
        r matches Some((meta, body)) ==> exists|k: int|
            closing_fence(text@, k) && meta@ == text@.subrange(4, k) && body@ == text@.subrange(
                body_start(text@, k),
                text@.len() as int,
            ),
{
    let cs = chars_of(text);
    let n = cs.len();
    if n < 4 || !fence_here(&cs, 0) {
        return None;
    }
    let mut k: usize = 4;
    while k <= n - 4
        invariant
            n == cs@.len(),
            n >= 4,
            cs@ == text@,
            4 <= k,
            fence_at(text@, 0),
            forall|j: int| 4 <= j < k ==> !fence_at(text@, j),
        decreases n - k,
    {
        if fence_here(&cs, k) {
            let start: usize = if n - k >= 5 { k + 5 } else { n };
            let meta = text.substring_char(4, k).to_owned();
            let body = text.substring_char(start, n).to_owned();
            assert(closing_fence(text@, k as int));
            assert(start == body_start(text@, k as int));
            return Some((meta, body));
        }
        k = k + 1;
    }
    assert forall|j: int| j >= 4 implies !fence_at(text@, j) by {
        if j >= k {
            assert(j + 4 > n);
        }
    }
    None
}

/// The number of line breaks in `s`.
pub open spec fn newline_count(s: Seq<char>) -> nat
    decreases s.len(),
{
    if s.len() == 0 {
        0
    } else {
        newline_count(s.drop_last()) + if s.last() == '\n' { 1nat } else { 0nat }
    }
}

/// How many lines a text shows: an empty text is one empty line, and a final line break
/// does not open another line.
pub open spec fn line_count(s: Seq<char>) -> nat {
    if s.len() == 0 {
        1
    } else if s.last() == '\n' {
        newline_count(s)
    } else {
        newline_count(s) + 1
    }
}

pub fn count_lines(s: &str) -> (r: usize)
    ensures
        r == line_count(s@),
{
    let cs = chars_of(s);
    let n = cs.len();
    if n == 0 {
        return 1;
    }
    let mut count: usize = 0;
    let mut i: usize = 0;
    while i < n - 1
        invariant
            n == cs@.len(),
            n >= 1,
            cs@ == s@,
            i <= n - 1,
            count == newline_count(cs@.take(i as int)),
            count <= i,
        decreases n - 1 - i,
    {
        assert(cs@.take(i + 1).drop_last() =~= cs@.take(i as int));
        if cs[i] == '\n' {
            count = count + 1;
        }
        i = i + 1;
    }
    assert(s@.drop_last() =~= cs@.take(i as int));
    count + 1
}

} // verus!
