use vstd::prelude::*;

verus! {

/// A byte that ends a line: carriage return or line feed.
pub open spec fn is_line_sep(b: u8) -> bool {
    b == 0x0d || b == 0x0a
}

/// A match found by a search: the bytes `beg..end` of the searched buffer.
pub struct Match {
    pub beg: usize,
    pub end: usize,
}

impl Match {
    /// The span lies inside a buffer of `len` bytes.
    pub open spec fn within(&self, len: nat) -> bool {
        self.beg <= self.end && self.end <= len
    }
}

/// Where the line around offset `i` begins, scanning backward from `i`.
/// The byte at `i` itself is tested first, so a separator there gives `i + 1`;
/// offset 0 is never tested, and an offset past the buffer holds no byte.
pub open spec fn line_begin(src: Seq<u8>, i: int) -> int
    decreases i,
{
    if i <= 0 {
        0
    } else if i < src.len() && is_line_sep(src[i]) {
        i + 1
    } else {
        line_begin(src, i - 1)
    }
}

/// Where the line around offset `i` ends: the first separator at or after `i`,
/// or the end of the buffer where there is none.
pub open spec fn line_end(src: Seq<u8>, i: int) -> int
    decreases src.len() - i,
{
    if i >= src.len() {
        src.len() as int
    } else if is_line_sep(src[i]) {
        i
    } else {
        line_end(src, i + 1)
    }
}

fn scan_line_begin(src: &[u8], from: usize) -> (r: usize)
    requires
        from <= src@.len(),
    ensures
        r == line_begin(src@, from as int),
{
    let mut i: usize = from;
    while i > 0
        invariant
            i <= from,
            from <= src@.len(),
            line_begin(src@, i as int) == line_begin(src@, from as int),
        decreases i,
    {
        if i < src.len() && (src[i] == 0x0d || src[i] == 0x0a) {
            return i + 1;
        }
        i = i - 1;
    }
    0
}

fn scan_line_end(src: &[u8], from: usize) -> (r: usize)
    requires
        from <= src@.len(),
    ensures
        r == line_end(src@, from as int),
{
    let mut i: usize = from;
    while i < src.len()
        invariant
            from <= i <= src@.len(),
            line_end(src@, i as int) == line_end(src@, from as int),
        decreases src@.len() - i,
    {
        if src[i] == 0x0d || src[i] == 0x0a {
            return i;
        }
        i = i + 1;
    }
    src.len()
}

/// Widens a match to the bounds of the line that holds it.
pub fn expand_to_line(src: &[u8], m: &Match) -> (r: (usize, usize))
    requires
        m.within(src@.len()),
    ensures
        r.0 == line_begin(src@, m.beg as int),
        r.1 == line_end(src@, m.end as int),
{
    (scan_line_begin(src, m.beg), scan_line_end(src, m.end))
}

/// The backward scan stays at or before its start, except where the start
/// itself is a separator inside the buffer; then the line begins just after it.
pub proof fn lemma_line_begin_bounds(src: Seq<u8>, i: int)
    requires
        0 <= i,
    ensures
        0 <= line_begin(src, i) <= i + 1,
        line_begin(src, i) == i + 1 <==> (0 < i < src.len() && is_line_sep(src[i])),
    decreases i,
{
    if i > 0 && !(i < src.len() && is_line_sep(src[i])) {
        lemma_line_begin_bounds(src, i - 1);
    }
}

/// The forward scan ends within the buffer, at or after its start, passes no
/// separator, and stops at one unless it reached the end of the buffer.
pub proof fn lemma_line_end_bounds(src: Seq<u8>, i: int)
    requires
        0 <= i <= src.len(),
    ensures
        i <= line_end(src, i) <= src.len(),
        forall|k: int| i <= k < line_end(src, i) ==> !is_line_sep(#[trigger] src[k]),
        line_end(src, i) < src.len() ==> is_line_sep(src[line_end(src, i)]),
    decreases src.len() - i,
{
    if i < src.len() && !is_line_sep(src[i]) {
        lemma_line_end_bounds(src, i + 1);
    }
}

/// A line reaches back to the start of the buffer when the match starts there,
/// or when no separator lies between the buffer's second byte and the match.
pub proof fn lemma_line_begin_at_start(src: Seq<u8>, beg: int)
    requires
        0 <= beg <= src.len(),
        forall|k: int| 0 < k <= beg && k < src.len() ==> !is_line_sep(#[trigger] src[k]),
    ensures
        line_begin(src, beg) == 0,
    decreases beg,
{
    if beg > 0 {
        lemma_line_begin_at_start(src, beg - 1);
    }
}

} // verus!
