//! Newline-delimited messages read from a socket whose read timeout fires
//! regularly, without losing bytes when a timeout lands mid-message.
//!
//! The reader holds the bytes received so far; the caller performs the reads
//! and hands each outcome to [`LineReader::read`], which says whether a
//! message is ready or another read is wanted.

use vstd::prelude::*;

use crate::text::{chars_of, from_utf8_lossy, string_from, trim, trimmed, utf8_lossy};

verus! {

pub enum Incoming {
    Line(String),
    Idle,
    Closed,
}

/// What one read of the source gave.
pub enum ReadEvent {
    /// Nothing read yet: the first step of a `read`.
    Start,
    /// Bytes arrived.
    Data(Vec<u8>),
    /// The source reported end of stream.
    Closed,
    /// The read timed out.
    TimedOut,
    /// The read was interrupted by a signal and may be retried.
    Interrupted,
}

pub enum ReadAction {
    /// The read is over with this result.
    Deliver(Incoming),
    /// No complete line yet: read the source again.
    ReadMore,
}

/// `Incoming` and `ReadAction` with their text as characters.
pub enum Outcome {
    Line(Seq<char>),
    Idle,
    Closed,
    ReadMore,
}

pub open spec fn outcome_of(a: ReadAction) -> Outcome {
    match a {
        ReadAction::Deliver(Incoming::Line(l)) => Outcome::Line(l@),
        ReadAction::Deliver(Incoming::Idle) => Outcome::Idle,
        ReadAction::Deliver(Incoming::Closed) => Outcome::Closed,
        ReadAction::ReadMore => Outcome::ReadMore,
    }
}

/// `k` is where the first newline of `p` stands.
pub open spec fn is_line_end(p: Seq<u8>, k: int) -> bool {
    &&& 0 <= k < p.len()
    &&& p[k] == 10
    &&& forall|j: int| 0 <= j < k ==> p[j] != 10
}

/// Where the first newline of `p` stands, if there is one.
pub open spec fn line_end(p: Seq<u8>) -> Option<int> {
    if exists|k: int| is_line_end(p, k) {
        Some(choose|k: int| is_line_end(p, k))
    } else {
        None
    }
}

/// A line as delivered: the bytes before its newline, decoded leniently and
/// trimmed.
pub open spec fn line_text(raw: Seq<u8>) -> Seq<char> {
    trim(utf8_lossy(raw))
}

/// The pending bytes after a complete line is taken out, and the line.
pub open spec fn take_line_spec(p: Seq<u8>) -> (Seq<u8>, Option<Seq<char>>) {
    match line_end(p) {
        Some(k) => (p.skip(k + 1), Some(line_text(p.take(k)))),
        None => (p, None),
    }
}

/// The events with their bytes as a sequence.
pub enum EventView {
    Start,
    Data(Seq<u8>),
    Closed,
    TimedOut,
    Interrupted,
}

pub open spec fn event_view(e: ReadEvent) -> EventView {
    match e {
        ReadEvent::Start => EventView::Start,
        ReadEvent::Data(d) => EventView::Data(d@),
        ReadEvent::Closed => EventView::Closed,
        ReadEvent::TimedOut => EventView::TimedOut,
        ReadEvent::Interrupted => EventView::Interrupted,
    }
}

/// One step of a read: the pending bytes afterwards and what the step gives.
pub open spec fn read_spec(p: Seq<u8>, e: EventView) -> (Seq<u8>, Outcome) {
    match e {
        EventView::Closed => (p, Outcome::Closed),
        EventView::TimedOut => (p, Outcome::Idle),
        _ => {
            let q = match e {
                EventView::Data(d) => p + d,
                _ => p,
            };
            let (rest, line) = take_line_spec(q);
            match line {
                Some(l) => (rest, Outcome::Line(l)),
                None => (rest, Outcome::ReadMore),
            }
        },
    }
}

proof fn lemma_line_end(p: Seq<u8>, k: int)
    requires
        is_line_end(p, k),
    ensures
        line_end(p) == Some(k),
{
    let c = choose|c: int| is_line_end(p, c);
    assert(is_line_end(p, c));
    if c < k {
        assert(p[c] != 10);
    } else if k < c {
        assert(p[k] != 10);
    }
}

proof fn lemma_no_line_end(p: Seq<u8>)
    requires
        forall|j: int| 0 <= j < p.len() ==> p[j] != 10,
    ensures
        line_end(p) is None,
{
}

pub struct LineReader {
    pending: Vec<u8>,
}

impl LineReader {
    /// The bytes received and not yet delivered as part of a line.
    pub closed spec fn pending(self) -> Seq<u8> {
        self.pending@
    }

    pub fn new() -> (r: Self)
        ensures
            r.pending() == Seq::<u8>::empty(),
    {
        LineReader { pending: Vec::new() }
    }

    /// Takes the first complete line out of the pending bytes. The bytes in
    /// front of its newline, the newline and the bytes left behind make up
    /// exactly what was pending.
    pub fn take_line(&mut self) -> (r: Option<String>)
        ensures
            (final(self).pending(), match r {
                Some(l) => Some(l@),
                None => None,
            }) == take_line_spec(old(self).pending()),
            match line_end(old(self).pending()) {
                Some(k) => old(self).pending() == old(self).pending().take(k) + seq![10u8]
                    + final(self).pending(),
                None => final(self).pending() == old(self).pending(),
            },
    {
        let mut k: usize = 0;
        while k < self.pending.len() && self.pending[k] != 10
            invariant
                k <= self.pending@.len(),
                forall|j: int| 0 <= j < k ==> self.pending@[j] != 10,
            decreases self.pending@.len() - k,
        {
            k += 1;
        }
        if k == self.pending.len() {
            proof {
                lemma_no_line_end(self.pending@);
            }
            return None;
        }
        let ghost before = self.pending@;
        proof {
            lemma_line_end(before, k as int);
        }
        let mut raw: Vec<u8> = Vec::new();
        let mut rest: Vec<u8> = Vec::new();
        let mut i: usize = 0;
        while i < self.pending.len()
            invariant
                self.pending@ == before,
                k < before.len(),
                i <= before.len(),
                raw@ == before.take(if i <= k { i as int } else { k as int }),
                rest@ == (if i <= k + 1 { Seq::<u8>::empty() } else { before.subrange(k + 1, i as int) }),
            decreases before.len() - i,
        {
            let b = self.pending[i];
            if i < k {
                raw.push(b);
                assert(before.take(i + 1) =~= before.take(i as int).push(b));
            } else if i > k {
                rest.push(b);
                if i == k + 1 {
                    assert(rest@ =~= before.subrange(k + 1, i + 1));
                } else {
                    assert(before.subrange(k + 1, i + 1) =~= before.subrange(k + 1, i as int).push(b));
                }
            }
            i += 1;
        }
        assert(rest@ =~= before.skip(k + 1));
        assert(before =~= before.take(k as int) + seq![10u8] + before.skip(k + 1));
        self.pending = rest;
        let decoded = from_utf8_lossy(raw.as_slice());
        let cs = chars_of(decoded.as_str());
        let kept = trimmed(cs.as_slice());
        Some(string_from(kept.as_slice()))
    }

    /// One step of reading a message: hands over the outcome of the last read
    /// of the source, and learns whether the read is over or the source should
    /// be read again. A read starts with `ReadEvent::Start`.
    pub fn read(&mut self, event: ReadEvent) -> (a: ReadAction)
        ensures
            (final(self).pending(), outcome_of(a)) == read_spec(old(self).pending(), event_view(event)),
    {
        match event {
            ReadEvent::Closed => ReadAction::Deliver(Incoming::Closed),
            ReadEvent::TimedOut => ReadAction::Deliver(Incoming::Idle),
            ReadEvent::Data(data) => {
                let ghost p = self.pending@;
                let mut i: usize = 0;
                while i < data.len()
                    invariant
                        i <= data@.len(),
                        self.pending@ == p + data@.take(i as int),
                    decreases data@.len() - i,
                {
                    self.pending.push(data[i]);
                    assert(data@.take(i + 1) =~= data@.take(i as int).push(data@[i as int]));
                    i += 1;
                }
                assert(data@.take(data@.len() as int) =~= data@);
                match self.take_line() {
                    Some(l) => ReadAction::Deliver(Incoming::Line(l)),
                    None => ReadAction::ReadMore,
                }
            },
            _ => match self.take_line() {
                Some(l) => ReadAction::Deliver(Incoming::Line(l)),
                None => ReadAction::ReadMore,
            },
        }
    }
}

/// A read timeout that lands in the middle of a message loses nothing: when
/// the first part of a line leaves the reader asking for more, a timeout then
/// reports idle and keeps the bytes, and the rest of the line completes it
/// exactly as if both parts had arrived in one read.
pub proof fn lemma_timeout_keeps_partial_line(p: Seq<u8>, first: Seq<u8>, second: Seq<u8>)
    requires
        read_spec(p, EventView::Data(first)).1 == Outcome::ReadMore,
    ensures
        ({
            let held = read_spec(p, EventView::Data(first)).0;
            &&& read_spec(held, EventView::TimedOut) == (held, Outcome::Idle)
            &&& read_spec(held, EventView::Data(second)) == read_spec(p, EventView::Data(first + second))
        }),
{
    let q = p + first;
    assert(line_end(q) is None);
    assert(q + second =~= p + (first + second));
}

/// Data events handed over one after another, each while the one before
/// left the reader asking for more: the pending bytes and outcome at the end.
pub open spec fn read_pieces(p: Seq<u8>, pieces: Seq<Seq<u8>>) -> (Seq<u8>, Outcome)
    decreases pieces.len(),
{
    if pieces.len() == 0 {
        (p, Outcome::ReadMore)
    } else {
        let (q, o) = read_spec(p, EventView::Data(pieces[0]));
        if pieces.len() == 1 || o != Outcome::ReadMore {
            (q, o)
        } else {
            read_pieces(q, pieces.drop_first())
        }
    }
}

/// However a message is cut across reads, it is delivered as if it had come
/// in one: when nothing pending and no piece but the last holds a newline,
/// reading the pieces one by one ends where one read of them all would.
pub proof fn lemma_pieces_read_as_one(p: Seq<u8>, pieces: Seq<Seq<u8>>)
    requires
        pieces.len() > 0,
        forall|j: int| 0 <= j < p.len() ==> p[j] != 10,
        forall|i: int, j: int|
            0 <= i < pieces.len() - 1 && 0 <= j < pieces[i].len() ==> #[trigger] pieces[i][j] != 10,
    ensures
        read_pieces(p, pieces) == read_spec(p, EventView::Data(pieces.flatten())),
    decreases pieces.len(),
{
    let first = pieces[0];
    let rest = pieces.drop_first();
    if pieces.len() == 1 {
        assert(rest.flatten() =~= Seq::<u8>::empty());
        assert(pieces.flatten() =~= first);
    } else {
        let q = p + first;
        assert forall|j: int| 0 <= j < q.len() implies q[j] != 10 by {
            if j >= p.len() {
                assert(q[j] == pieces[0][j - p.len()]);
            }
        }
        lemma_no_line_end(q);
        assert(read_spec(p, EventView::Data(first)) == (q, Outcome::ReadMore));
        assert forall|i: int, j: int|
            0 <= i < rest.len() - 1 && 0 <= j < rest[i].len() implies #[trigger] rest[i][j] != 10 by {
            assert(rest[i] == pieces[i + 1]);
        }
        lemma_pieces_read_as_one(q, rest);
        assert(q + rest.flatten() =~= p + pieces.flatten());
    }
}

/// Two messages that arrive in one read are both delivered, in order: the
/// first by that read, the second by the next step without reading again,
/// and whatever followed them stays pending.
pub proof fn lemma_lines_in_one_read_come_in_turn(a: Seq<u8>, b: Seq<u8>, tail: Seq<u8>)
    requires
        forall|j: int| 0 <= j < a.len() ==> a[j] != 10,
        forall|j: int| 0 <= j < b.len() ==> b[j] != 10,
    ensures
        ({
            let data = a + seq![10u8] + b + seq![10u8] + tail;
            let (held, first) = read_spec(Seq::empty(), EventView::Data(data));
            &&& first == Outcome::Line(line_text(a))
            &&& held == b + seq![10u8] + tail
            &&& read_spec(held, EventView::Start) == (tail, Outcome::Line(line_text(b)))
        }),
{
    let data = a + seq![10u8] + b + seq![10u8] + tail;
    let q = Seq::<u8>::empty() + data;
    assert(q =~= data);
    assert(is_line_end(data, a.len() as int));
    lemma_line_end(data, a.len() as int);
    assert(data.take(a.len() as int) =~= a);
    let held = b + seq![10u8] + tail;
    assert(data.skip(a.len() as int + 1) =~= held);
    assert(is_line_end(held, b.len() as int));
    lemma_line_end(held, b.len() as int);
    assert(held.take(b.len() as int) =~= b);
    assert(held.skip(b.len() as int + 1) =~= tail);
}

} // verus!
