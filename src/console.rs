use vstd::prelude::*;
use crate::line::{
    expand_to_line, is_line_sep, lemma_line_begin_bounds, lemma_line_end_bounds, line_begin, line_end,
    Match,
};

verus! {

/// What a piece of console text is; each kind has one colour and one stream.
#[derive(Clone, Copy, PartialEq, Eq, Structural, Debug)]
pub enum ConsoleTextKind {
    Filename,
    Text,
    MatchText,
    Other,
    Error,
}

/// One of the two output streams.
#[derive(Clone, Copy, PartialEq, Eq, Structural, Debug)]
pub enum Stream {
    Stdout,
    Stderr,
}

/// Terminal colour numbers, as the usual 16-colour palette numbers them.
pub const WHITE: u32 = 7;
pub const BRIGHT_RED: u32 = 9;
pub const BRIGHT_GREEN: u32 = 10;
pub const BRIGHT_YELLOW: u32 = 11;
pub const BRIGHT_CYAN: u32 = 14;

/// The foreground colour of each kind of text.
pub open spec fn kind_color(kind: ConsoleTextKind) -> u32 {
    match kind {
        ConsoleTextKind::Filename => BRIGHT_GREEN,
        ConsoleTextKind::Text => WHITE,
        ConsoleTextKind::MatchText => BRIGHT_YELLOW,
        ConsoleTextKind::Other => BRIGHT_CYAN,
        ConsoleTextKind::Error => BRIGHT_RED,
    }
}

/// The stream that text of each kind goes to: errors to stderr, the rest to stdout.
pub open spec fn kind_stream(kind: ConsoleTextKind) -> Stream {
    match kind {
        ConsoleTextKind::Error => Stream::Stderr,
        _ => Stream::Stdout,
    }
}

pub fn color_of(kind: ConsoleTextKind) -> (r: u32)
    ensures
        r == kind_color(kind),
{
    match kind {
        ConsoleTextKind::Filename => BRIGHT_GREEN,
        ConsoleTextKind::Text => WHITE,
        ConsoleTextKind::MatchText => BRIGHT_YELLOW,
        ConsoleTextKind::Other => BRIGHT_CYAN,
        ConsoleTextKind::Error => BRIGHT_RED,
    }
}

pub fn stream_of(kind: ConsoleTextKind) -> (r: Stream)
    ensures
        r == kind_stream(kind),
{
    match kind {
        ConsoleTextKind::Error => Stream::Stderr,
        _ => Stream::Stdout,
    }
}

/// A terminal operation, to be carried out by whoever owns the terminals.
/// Setting a colour, writing and resetting must succeed or the process ends;
/// the cursor operations are cosmetic and their failure is ignored.
#[derive(PartialEq, Eq, Debug)]
pub enum ConsoleOp {
    Fg(Stream, u32),
    Write(Stream, String),
    Reset(Stream),
    Flush(Stream),
    CarriageReturn,
    CursorUp,
    DeleteLine,
}

/// The meaning of a `ConsoleOp`, with its text as characters.
pub enum Effect {
    Fg(Stream, u32),
    Write(Stream, Seq<char>),
    Reset(Stream),
    Flush(Stream),
    CarriageReturn,
    CursorUp,
    DeleteLine,
}

impl View for ConsoleOp {
    type V = Effect;

    open spec fn view(&self) -> Effect {
        match self {
            ConsoleOp::Fg(s, c) => Effect::Fg(*s, *c),
            ConsoleOp::Write(s, t) => Effect::Write(*s, t@),
            ConsoleOp::Reset(s) => Effect::Reset(*s),
            ConsoleOp::Flush(s) => Effect::Flush(*s),
            ConsoleOp::CarriageReturn => Effect::CarriageReturn,
            ConsoleOp::CursorUp => Effect::CursorUp,
            ConsoleOp::DeleteLine => Effect::DeleteLine,
        }
    }
}

pub open spec fn effects_of(ops: Seq<ConsoleOp>) -> Seq<Effect> {
    ops.map_values(|o: ConsoleOp| o@)
}

/// What writing `text` of `kind` does: with colour, the kind's colour is set on
/// both streams around the write and reset after it; both streams are flushed.
pub open spec fn emit_effects(is_color: bool, kind: ConsoleTextKind, text: Seq<char>) -> Seq<Effect> {
    let write = seq![Effect::Write(kind_stream(kind), text)];
    let flush = seq![Effect::Flush(Stream::Stdout), Effect::Flush(Stream::Stderr)];
    if is_color {
        let c = kind_color(kind);
        seq![Effect::Fg(Stream::Stdout, c), Effect::Fg(Stream::Stderr, c)] + write + seq![
            Effect::Reset(Stream::Stdout),
            Effect::Reset(Stream::Stderr),
        ] + flush
    } else {
        write + flush
    }
}

/// The text that `String::from_utf8_lossy` makes of some bytes.
pub uninterp spec fn lossy_text(b: Seq<u8>) -> Seq<char>;

/// The text that some bytes decode to, invalid sequences replaced; no bytes
/// give no text.
pub open spec fn decoded(b: Seq<u8>) -> Seq<char> {
    if b.len() == 0 {
        Seq::empty()
    } else {
        lossy_text(b)
    }
}

/// Relies on `String::from_utf8_lossy`: the text depends on the bytes alone,
/// and no bytes give no text.
#[verifier::external_body]
fn decode_lossy(b: &[u8]) -> (r: String)
    ensures
        b@.len() > 0 ==> r@ == lossy_text(b@),
        b@.len() == 0 ==> r@ == Seq::<char>::empty(),
{
    String::from_utf8_lossy(b).into_owned()
}

/// What writing each segment in turn does.
pub open spec fn emit_all(is_color: bool, parts: Seq<(ConsoleTextKind, Seq<char>)>) -> Seq<Effect>
    decreases parts.len(),
{
    if parts.len() == 0 {
        Seq::empty()
    } else {
        emit_all(is_color, parts.drop_last()) + emit_effects(is_color, parts.last().0, parts.last().1)
    }
}

/// The segments that show a match within its line: the text before the match
/// on its line (when there is any), the match, the text after it on its line
/// (when there is any), and a newline.
pub open spec fn match_line_parts(src: Seq<u8>, beg: int, end: int) -> Seq<(ConsoleTextKind, Seq<char>)> {
    let lb = line_begin(src, beg);
    let le = line_end(src, end);
    let before = if lb < beg {
        seq![(ConsoleTextKind::Text, decoded(src.subrange(lb, beg)))]
    } else {
        Seq::empty()
    };
    let after = if end < le {
        seq![(ConsoleTextKind::Text, decoded(src.subrange(end, le)))]
    } else {
        Seq::empty()
    };
    before + seq![(ConsoleTextKind::MatchText, decoded(src.subrange(beg, end)))] + after + seq![
        (ConsoleTextKind::Other, seq!['\n']),
    ]
}

proof fn lemma_emit_all_push(is_color: bool, parts: Seq<(ConsoleTextKind, Seq<char>)>, kind: ConsoleTextKind, text: Seq<char>)
    ensures
        emit_all(is_color, parts.push((kind, text))) == emit_all(is_color, parts) + emit_effects(is_color, kind, text),
{
    assert(parts.push((kind, text)).drop_last() =~= parts);
}

/// A console: whether colour is on, and the operations it has asked for and
/// that were not yet taken out.
pub struct Console {
    pub is_color: bool,
    ops: Vec<ConsoleOp>,
}

impl Console {
    /// Whether colour is on.
    pub closed spec fn color_enabled(&self) -> bool {
        self.is_color
    }

    /// The operations asked for and not yet taken out.
    pub closed spec fn pending(&self) -> Seq<Effect> {
        effects_of(self.ops@)
    }

    fn push_op(&mut self, op: ConsoleOp)
        ensures
            final(self).color_enabled() == old(self).color_enabled(),
            final(self).pending() == old(self).pending().push(op@),
    {
        self.ops.push(op);
        assert(effects_of(self.ops@) =~= effects_of(old(self).ops@).push(op@));
    }

    /// A console with colour on and nothing asked for.
    pub fn new() -> (r: Console)
        ensures
            r.color_enabled(),
            r.pending() == Seq::<Effect>::empty(),
    {
        let r = Console { is_color: true, ops: Vec::new() };
        assert(effects_of(r.ops@) =~= Seq::<Effect>::empty());
        r
    }

    /// Takes out the operations asked for so far, oldest first.
    pub fn take_ops(&mut self) -> (r: Vec<ConsoleOp>)
        ensures
            final(self).color_enabled() == old(self).color_enabled(),
            effects_of(r@) == old(self).pending(),
            final(self).pending() == Seq::<Effect>::empty(),
    {
        let mut r: Vec<ConsoleOp> = Vec::new();
        std::mem::swap(&mut r, &mut self.ops);
        assert(effects_of(self.ops@) =~= Seq::<Effect>::empty());
        r
    }

    /// Moves the cursor to the start of the line.
    pub fn carriage_return(&mut self)
        ensures
            final(self).color_enabled() == old(self).color_enabled(),
            final(self).pending() == old(self).pending().push(Effect::CarriageReturn),
    {
        self.push_op(ConsoleOp::CarriageReturn);
    }

    /// Moves the cursor up one row.
    pub fn cursor_up(&mut self)
        ensures
            final(self).color_enabled() == old(self).color_enabled(),
            final(self).pending() == old(self).pending().push(Effect::CursorUp),
    {
        self.push_op(ConsoleOp::CursorUp);
    }

    /// Erases the current line.
    pub fn delete_line(&mut self)
        ensures
            final(self).color_enabled() == old(self).color_enabled(),
            final(self).pending() == old(self).pending().push(Effect::DeleteLine),
    {
        self.push_op(ConsoleOp::DeleteLine);
    }

    /// Writes `val` as text of `kind`.
    pub fn write(&mut self, kind: ConsoleTextKind, val: &str)
        ensures
            final(self).color_enabled() == old(self).color_enabled(),
            final(self).pending() == old(self).pending() + emit_effects(old(self).color_enabled(), kind, val@),
    {
        let color = color_of(kind);
        let target = stream_of(kind);
        if self.is_color {
            self.push_op(ConsoleOp::Fg(Stream::Stdout, color));
            self.push_op(ConsoleOp::Fg(Stream::Stderr, color));
        }
        self.push_op(ConsoleOp::Write(target, val.to_owned()));
        if self.is_color {
            self.push_op(ConsoleOp::Reset(Stream::Stdout));
            self.push_op(ConsoleOp::Reset(Stream::Stderr));
        }
        self.push_op(ConsoleOp::Flush(Stream::Stdout));
        self.push_op(ConsoleOp::Flush(Stream::Stderr));
        assert(self.pending() =~= old(self).pending() + emit_effects(old(self).color_enabled(), kind, val@));
    }

    /// Clears the current line, then writes `val` as text of `kind` in its place.
    pub fn write_with_clear(&mut self, kind: ConsoleTextKind, val: &str)
        ensures
            final(self).color_enabled() == old(self).color_enabled(),
            final(self).pending() == old(self).pending() + seq![Effect::CarriageReturn, Effect::DeleteLine]
                + emit_effects(old(self).color_enabled(), kind, val@),
    {
        self.carriage_return();
        self.delete_line();
        self.write(kind, val);
        assert(self.pending() =~= old(self).pending() + seq![Effect::CarriageReturn, Effect::DeleteLine]
            + emit_effects(old(self).color_enabled(), kind, val@));
    }

    /// Writes the line of `src` that holds the match `m`, with the match
    /// set apart from the rest of the line, and ends it with a newline.
    pub fn write_match_line(&mut self, src: &[u8], m: &Match)
        requires
            m.within(src@.len()),
        ensures
            final(self).color_enabled() == old(self).color_enabled(),
            final(self).pending() == old(self).pending() + emit_all(
                old(self).color_enabled(),
                match_line_parts(src@, m.beg as int, m.end as int),
            ),
    {
        let ghost c = self.is_color;
        let ghost parts: Seq<(ConsoleTextKind, Seq<char>)> = Seq::empty();
        let (beg, end) = expand_to_line(src, m);
        proof {
            lemma_line_end_bounds(src@, m.end as int);
        }
        if beg < m.beg {
            let t = decode_lossy(vstd::slice::slice_subrange(src, beg, m.beg));
            proof {
                lemma_emit_all_push(c, parts, ConsoleTextKind::Text, t@);
            }
            self.write(ConsoleTextKind::Text, t.as_str());
            proof {
                parts = parts.push((ConsoleTextKind::Text, t@));
            }
        }
        assert(self.pending() =~= old(self).pending() + emit_all(c, parts));
        let t = decode_lossy(vstd::slice::slice_subrange(src, m.beg, m.end));
        proof {
            lemma_emit_all_push(c, parts, ConsoleTextKind::MatchText, t@);
        }
        self.write(ConsoleTextKind::MatchText, t.as_str());
        proof {
            parts = parts.push((ConsoleTextKind::MatchText, t@));
        }
        assert(self.pending() =~= old(self).pending() + emit_all(c, parts));
        if m.end < end {
            let t = decode_lossy(vstd::slice::slice_subrange(src, m.end, end));
            proof {
                lemma_emit_all_push(c, parts, ConsoleTextKind::Text, t@);
            }
            self.write(ConsoleTextKind::Text, t.as_str());
            proof {
                parts = parts.push((ConsoleTextKind::Text, t@));
            }
        }
        assert(self.pending() =~= old(self).pending() + emit_all(c, parts));
        let nl = "\n";
        proof {
            reveal_strlit("\n");
            assert(nl@ =~= seq!['\n']);
            lemma_emit_all_push(c, parts, ConsoleTextKind::Other, nl@);
        }
        self.write(ConsoleTextKind::Other, nl);
        proof {
            parts = parts.push((ConsoleTextKind::Other, nl@));
        }
        assert(self.pending() =~= old(self).pending() + emit_all(c, parts));
        assert(parts =~= match_line_parts(src@, m.beg as int, m.end as int));
    }
}

} // verus!

verus! {

/// An operation that sets or resets a colour.
pub open spec fn is_color_op(e: Effect) -> bool {
    e is Fg || e is Reset
}

/// The text that a run of operations writes to one stream, in order.
pub open spec fn stream_text(es: Seq<Effect>, s: Stream) -> Seq<char>
    decreases es.len(),
{
    if es.len() == 0 {
        Seq::empty()
    } else {
        stream_text(es.drop_last(), s) + match es.last() {
            Effect::Write(t, x) => if t == s {
                x
            } else {
                Seq::empty()
            },
            _ => Seq::empty(),
        }
    }
}

proof fn lemma_stream_text_concat(a: Seq<Effect>, b: Seq<Effect>, s: Stream)
    ensures
        stream_text(a + b, s) == stream_text(a, s) + stream_text(b, s),
    decreases b.len(),
{
    if b.len() == 0 {
        assert(a + b =~= a);
        assert(stream_text(a, s) + stream_text(b, s) =~= stream_text(a, s));
    } else {
        lemma_stream_text_concat(a, b.drop_last(), s);
        assert((a + b).drop_last() =~= a + b.drop_last());
        assert(stream_text(a + b, s) =~= stream_text(a, s) + stream_text(b, s));
    }
}

proof fn lemma_stream_text_one(e: Effect, s: Stream)
    ensures
        stream_text(seq![e], s) == match e {
            Effect::Write(t, x) => if t == s {
                x
            } else {
                Seq::empty()
            },
            _ => Seq::empty(),
        },
{
    assert(seq![e].drop_last() =~= Seq::<Effect>::empty());
    assert(stream_text(seq![e], s) =~= stream_text(Seq::<Effect>::empty(), s) + match e {
        Effect::Write(t, x) => if t == s {
            x
        } else {
            Seq::empty()
        },
        _ => Seq::empty(),
    });
}

proof fn lemma_emit_text(is_color: bool, kind: ConsoleTextKind, text: Seq<char>, s: Stream)
    ensures
        stream_text(emit_effects(is_color, kind, text), s) == if kind_stream(kind) == s {
            text
        } else {
            Seq::<char>::empty()
        },
{
    let c = kind_color(kind);
    let w = seq![Effect::Write(kind_stream(kind), text)];
    let f1 = seq![Effect::Flush(Stream::Stdout)];
    let f2 = seq![Effect::Flush(Stream::Stderr)];
    let g1 = seq![Effect::Fg(Stream::Stdout, c)];
    let g2 = seq![Effect::Fg(Stream::Stderr, c)];
    let r1 = seq![Effect::Reset(Stream::Stdout)];
    let r2 = seq![Effect::Reset(Stream::Stderr)];
    lemma_stream_text_one(w[0], s);
    lemma_stream_text_one(f1[0], s);
    lemma_stream_text_one(f2[0], s);
    lemma_stream_text_one(g1[0], s);
    lemma_stream_text_one(g2[0], s);
    lemma_stream_text_one(r1[0], s);
    lemma_stream_text_one(r2[0], s);
    assert(seq![w[0]] =~= w);
    assert(seq![f1[0]] =~= f1);
    assert(seq![f2[0]] =~= f2);
    assert(seq![g1[0]] =~= g1);
    assert(seq![g2[0]] =~= g2);
    assert(seq![r1[0]] =~= r1);
    assert(seq![r2[0]] =~= r2);
    lemma_stream_text_concat(f1, f2, s);
    assert(f1 + f2 =~= seq![Effect::Flush(Stream::Stdout), Effect::Flush(Stream::Stderr)]);
    lemma_stream_text_concat(w, f1 + f2, s);
    if is_color {
        lemma_stream_text_concat(g1, g2, s);
        lemma_stream_text_concat(r1, r2, s);
        lemma_stream_text_concat(g1 + g2, w, s);
        lemma_stream_text_concat(g1 + g2 + w, r1 + r2, s);
        lemma_stream_text_concat(g1 + g2 + w + (r1 + r2), f1 + f2, s);
        assert(g1 + g2 + w + (r1 + r2) + (f1 + f2) =~= emit_effects(is_color, kind, text));
    } else {
        assert(w + (f1 + f2) =~= emit_effects(is_color, kind, text));
    }
    assert(stream_text(emit_effects(is_color, kind, text), s) =~= if kind_stream(kind) == s {
        text
    } else {
        Seq::<char>::empty()
    });
}

/// With colour off, writing segments sets and resets no colour; with colour on,
/// each stream receives the same text as with colour off, and each segment is
/// written between setting its colour on both streams and resetting both.
pub proof fn lemma_color_changes_no_text(parts: Seq<(ConsoleTextKind, Seq<char>)>)
    ensures
        forall|i: int|
            0 <= i < emit_all(false, parts).len() ==> !is_color_op(#[trigger] emit_all(false, parts)[i]),
        forall|s: Stream| #[trigger]
            stream_text(emit_all(true, parts), s) == stream_text(emit_all(false, parts), s),
        forall|kind: ConsoleTextKind, text: Seq<char>| #[trigger]
            emit_effects(true, kind, text) == seq![
                Effect::Fg(Stream::Stdout, kind_color(kind)),
                Effect::Fg(Stream::Stderr, kind_color(kind)),
            ] + seq![Effect::Write(kind_stream(kind), text)] + seq![
                Effect::Reset(Stream::Stdout),
                Effect::Reset(Stream::Stderr),
            ] + seq![Effect::Flush(Stream::Stdout), Effect::Flush(Stream::Stderr)],
    decreases parts.len(),
{
    if parts.len() > 0 {
        let init = parts.drop_last();
        let (k, t) = parts.last();
        lemma_color_changes_no_text(init);
        assert forall|s: Stream| #[trigger]
            stream_text(emit_all(true, parts), s) == stream_text(emit_all(false, parts), s) by {
            lemma_stream_text_concat(emit_all(true, init), emit_effects(true, k, t), s);
            lemma_stream_text_concat(emit_all(false, init), emit_effects(false, k, t), s);
            lemma_emit_text(true, k, t, s);
            lemma_emit_text(false, k, t, s);
        }
        let a = emit_all(false, init);
        let b = emit_effects(false, k, t);
        assert(emit_all(false, parts) == a + b);
        assert forall|i: int| 0 <= i < (a + b).len() implies !is_color_op(#[trigger] (a + b)[i]) by {
            if i >= a.len() {
                assert((a + b)[i] == b[i - a.len()]);
            } else {
                assert((a + b)[i] == a[i]);
            }
        }
    }
}

/// The output for a match line ends with the writing of a single newline to
/// stdout, followed only by resetting colours and flushing; the text on stdout
/// then ends with that newline, and stderr receives no text from it.
pub proof fn lemma_match_line_ends_with_newline(is_color: bool, src: Seq<u8>, beg: int, end: int)
    requires
        0 <= beg <= end <= src.len(),
    ensures
        ({
            let parts = match_line_parts(src, beg, end);
            let es = emit_all(is_color, parts);
            let body = emit_all(is_color, parts.drop_last());
            &&& es == body + emit_effects(is_color, ConsoleTextKind::Other, seq!['\n'])
            &&& stream_text(es, Stream::Stdout) == stream_text(body, Stream::Stdout).push('\n')
            &&& stream_text(es, Stream::Stderr) == stream_text(body, Stream::Stderr)
        }),
{
    let parts = match_line_parts(src, beg, end);
    let body = emit_all(is_color, parts.drop_last());
    let tail = emit_effects(is_color, ConsoleTextKind::Other, seq!['\n']);
    assert(parts.last() == (ConsoleTextKind::Other, seq!['\n']));
    lemma_stream_text_concat(body, tail, Stream::Stdout);
    lemma_stream_text_concat(body, tail, Stream::Stderr);
    lemma_emit_text(is_color, ConsoleTextKind::Other, seq!['\n'], Stream::Stdout);
    lemma_emit_text(is_color, ConsoleTextKind::Other, seq!['\n'], Stream::Stderr);
    assert(stream_text(body, Stream::Stdout) + seq!['\n'] =~= stream_text(body, Stream::Stdout).push('\n'));
    assert(stream_text(body, Stream::Stderr) + Seq::<char>::empty() =~= stream_text(body, Stream::Stderr));
}

/// An empty match lies inside its line and is shown as empty text, unless it
/// stands on a separator that is not the buffer's first byte: then the line
/// is taken to begin just after the match.
pub proof fn lemma_empty_match(src: Seq<u8>, at: int)
    requires
        0 <= at <= src.len(),
        !(0 < at < src.len() && is_line_sep(src[at])),
    ensures
        line_begin(src, at) <= at,
        at <= line_end(src, at),
        ({
            let parts = match_line_parts(src, at, at);
            let i = if line_begin(src, at) < at {
                1int
            } else {
                0int
            };
            parts[i] == (ConsoleTextKind::MatchText, Seq::<char>::empty())
        }),
{
    lemma_line_begin_bounds(src, at);
    lemma_line_end_bounds(src, at);
    assert(src.subrange(at, at).len() == 0);
}

} // verus!
