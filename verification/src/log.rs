//! Per-instance log capture: an append-only record of complete output lines
//! and the stepping rule that each capture task follows.

use vstd::prelude::*;

verus! {

/// One instance's captured output: an ordered, append-only sequence of
/// complete text lines. Lines already appended are never mutated or
/// reordered, and a line is only ever stored whole.
pub struct LogRecord {
    lines: Vec<String>,
}

impl View for LogRecord {
    type V = Seq<Seq<char>>;

    closed spec fn view(&self) -> Seq<Seq<char>> {
        self.lines@.map_values(|l: String| l@)
    }
}

/// The outcome of one blocking line read against a captured stream.
pub enum ReadEvent {
    /// A complete line was read, terminator included.
    Line(String),
    /// The read returned zero bytes: the stream is closed.
    EndOfStream,
    /// The read itself failed.
    ReadFailed,
}

impl LogRecord {
    pub fn new() -> (r: LogRecord)
        ensures
            r@ == Seq::<Seq<char>>::empty(),
    {
        let r = LogRecord { lines: Vec::new() };
        proof {
            assert(r@ =~= Seq::<Seq<char>>::empty());
        }
        r
    }

    pub fn len(&self) -> (r: usize)
        ensures
            r == self@.len(),
    {
        self.lines.len()
    }

    /// Appends one complete line; the lines already present keep their
    /// places and their contents.
    pub fn append(&mut self, line: String)
        ensures
            final(self)@ == old(self)@.push(line@),
    {
        self.lines.push(line);
        proof {
            assert(self@ =~= old(self)@.push(line@));
        }
    }

    /// A copy of every captured line, whole and in append order.
    pub fn lines(&self) -> (r: Vec<String>)
        ensures
            r@.len() == self@.len(),
            forall|i: int| 0 <= i < self@.len() ==> r@[i]@ == self@[i],
    {
        let mut out: Vec<String> = Vec::new();
        let mut i: usize = 0;
        while i < self.lines.len()
            invariant
                i <= self.lines@.len(),
                out@.len() == i,
                forall|j: int| 0 <= j < i ==> out@[j]@ == self@[j],
            decreases self.lines@.len() - i,
        {
            out.push(self.lines[i].clone());
            i = i + 1;
        }
        out
    }

    /// One step of a capture task. A complete line is appended and the task
    /// carries on. A read of zero bytes means the stream is closed — not
    /// "no data yet" — and ends the task, as does a failed read.
    pub fn apply_event(&mut self, event: ReadEvent) -> (cont: bool)
        ensures
            (match event {
                ReadEvent::Line(l) => cont && final(self)@ == old(self)@.push(l@),
                ReadEvent::EndOfStream => !cont && final(self)@ == old(self)@,
                ReadEvent::ReadFailed => !cont && final(self)@ == old(self)@,
            }),
    {
        match event {
            ReadEvent::Line(l) => {
                self.append(l);
                true
            }
            ReadEvent::EndOfStream => false,
            ReadEvent::ReadFailed => false,
        }
    }
}

/// Holds when `log` is an interleaving of the two streams `a` and `b`:
/// every line of `log` comes from exactly one of the streams, and each
/// stream's lines stand in `log` in their emission order. Nothing is said
/// about how the two streams interleave with one another.
pub open spec fn is_interleaving(log: Seq<Seq<char>>, a: Seq<Seq<char>>, b: Seq<Seq<char>>) -> bool
    decreases log.len(),
{
    if log.len() == 0 {
        a.len() == 0 && b.len() == 0
    } else {
        ||| (a.len() > 0 && a.last() == log.last() && is_interleaving(
            log.drop_last(),
            a.drop_last(),
            b,
        ))
        ||| (b.len() > 0 && b.last() == log.last() && is_interleaving(
            log.drop_last(),
            a,
            b.drop_last(),
        ))
    }
}

/// An empty record is an interleaving of two streams that have emitted
/// nothing yet.
pub proof fn lemma_interleaving_empty()
    ensures
        is_interleaving(
            Seq::<Seq<char>>::empty(),
            Seq::<Seq<char>>::empty(),
            Seq::<Seq<char>>::empty(),
        ),
{
}

/// Appending a line just emitted by the first stream keeps the record an
/// interleaving: earlier lines keep their order, and the new line lands at
/// the end.
pub proof fn lemma_interleaving_push_first(
    log: Seq<Seq<char>>,
    a: Seq<Seq<char>>,
    b: Seq<Seq<char>>,
    line: Seq<char>,
)
    requires
        is_interleaving(log, a, b),
    ensures
        is_interleaving(log.push(line), a.push(line), b),
{
    assert(log.push(line).drop_last() =~= log);
    assert(a.push(line).drop_last() =~= a);
}

/// Appending a line just emitted by the second stream keeps the record an
/// interleaving, symmetrically.
pub proof fn lemma_interleaving_push_second(
    log: Seq<Seq<char>>,
    a: Seq<Seq<char>>,
    b: Seq<Seq<char>>,
    line: Seq<char>,
)
    requires
        is_interleaving(log, a, b),
    ensures
        is_interleaving(log.push(line), a, b.push(line)),
{
    assert(log.push(line).drop_last() =~= log);
    assert(b.push(line).drop_last() =~= b);
}

/// A record interleaving two streams holds exactly as many lines as the two
/// streams emitted together: after a process writes N lines to one stream
/// and M to the other, the record holds N + M lines.
pub proof fn lemma_interleaving_len(log: Seq<Seq<char>>, a: Seq<Seq<char>>, b: Seq<Seq<char>>)
    requires
        is_interleaving(log, a, b),
    ensures
        log.len() == a.len() + b.len(),
    decreases log.len(),
{
    if log.len() > 0 {
        if a.len() > 0 && a.last() == log.last() && is_interleaving(
            log.drop_last(),
            a.drop_last(),
            b,
        ) {
            lemma_interleaving_len(log.drop_last(), a.drop_last(), b);
        } else {
            lemma_interleaving_len(log.drop_last(), a, b.drop_last());
        }
    }
}

/// A record fed by only one stream repeats that stream exactly, line for
/// line and in order.
pub proof fn lemma_interleaving_single_stream(log: Seq<Seq<char>>, a: Seq<Seq<char>>)
    requires
        is_interleaving(log, a, Seq::<Seq<char>>::empty()),
    ensures
        log == a,
    decreases log.len(),
{
    if log.len() == 0 {
        assert(log =~= a);
    } else {
        assert(a.len() > 0 && a.last() == log.last() && is_interleaving(
            log.drop_last(),
            a.drop_last(),
            Seq::<Seq<char>>::empty(),
        ));
        lemma_interleaving_single_stream(log.drop_last(), a.drop_last());
        assert forall|i: int| 0 <= i < log.len() implies log[i] == a[i] by {
            if i < log.len() - 1 {
                assert(log[i] == log.drop_last()[i]);
                assert(a[i] == a.drop_last()[i]);
            } else {
                assert(log[i] == log.last());
                assert(a[i] == a.last());
            }
        }
        assert(log =~= a);
    }
}

} // verus!
