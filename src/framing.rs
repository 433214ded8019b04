//! Splitting a byte stream into newline-terminated lines.
use vstd::prelude::*;

verus! {

/// The line delimiter, `b'\n'`.
pub const NEWLINE: u8 = 10;

/// The lines that `s` completes, in order, each without its newline.
pub open spec fn complete_lines(s: Seq<u8>) -> Seq<Seq<u8>>
    decreases s.len(),
{
    if s.len() == 0 {
        seq![]
    } else if s.last() == NEWLINE {
        complete_lines(s.drop_last()).push(unterminated_tail(s.drop_last()))
    } else {
        complete_lines(s.drop_last())
    }
}

/// The bytes of `s` after its last newline: a line still waiting for its end.
pub open spec fn unterminated_tail(s: Seq<u8>) -> Seq<u8>
    decreases s.len(),
{
    if s.len() == 0 {
        seq![]
    } else if s.last() == NEWLINE {
        seq![]
    } else {
        unterminated_tail(s.drop_last()).push(s.last())
    }
}

/// The stream in which each of `lines` is followed by a newline.
pub open spec fn terminated(lines: Seq<Seq<u8>>) -> Seq<u8>
    decreases lines.len(),
{
    if lines.len() == 0 {
        seq![]
    } else {
        terminated(lines.drop_last()) + lines.last().push(NEWLINE)
    }
}

/// None of `lines` holds a newline.
pub open spec fn newline_free(lines: Seq<Seq<u8>>) -> bool {
    forall|i: int| 0 <= i < lines.len() ==> !(#[trigger] lines[i]).contains(NEWLINE)
}

/// The tail after the last newline holds no newline.
pub proof fn lemma_tail_newline_free(s: Seq<u8>)
    ensures
        !unterminated_tail(s).contains(NEWLINE),
    decreases s.len(),
{
    if s.len() > 0 && s.last() != NEWLINE {
        lemma_tail_newline_free(s.drop_last());
        let t = unterminated_tail(s.drop_last());
        assert forall|i: int| 0 <= i < t.push(s.last()).len() implies t.push(s.last())[i]
            != NEWLINE by {
            if i < t.len() {
                assert(!t.contains(NEWLINE));
                assert(t.push(s.last())[i] == t[i]);
            }
        }
    }
}

/// Bytes without a newline complete no line and are all tail.
pub proof fn lemma_newline_free_stream(s: Seq<u8>)
    requires
        !s.contains(NEWLINE),
    ensures
        complete_lines(s) == Seq::<Seq<u8>>::empty(),
        unterminated_tail(s) == s,
    decreases s.len(),
{
    if s.len() > 0 {
        let init = s.drop_last();
        assert(s.last() == s[s.len() - 1]);
        assert forall|i: int| 0 <= i < init.len() implies init[i] != NEWLINE by {
            assert(init[i] == s[i]);
        }
        lemma_newline_free_stream(init);
        assert(init.push(s.last()) =~= s);
    }
}

/// However a stream is cut into reads, the lines come out the same: what `a`
/// completes, then what its tail completes together with `b`.
pub proof fn lemma_split_reads(a: Seq<u8>, b: Seq<u8>)
    ensures
        complete_lines(a + b) == complete_lines(a) + complete_lines(unterminated_tail(a) + b),
        unterminated_tail(a + b) == unterminated_tail(unterminated_tail(a) + b),
    decreases b.len(),
{
    let t = unterminated_tail(a);
    if b.len() == 0 {
        assert(a + b =~= a);
        assert(t + b =~= t);
        lemma_tail_newline_free(a);
        lemma_newline_free_stream(t);
        assert(complete_lines(a) + Seq::<Seq<u8>>::empty() =~= complete_lines(a));
    } else {
        let b0 = b.drop_last();
        lemma_split_reads(a, b0);
        assert((a + b).drop_last() =~= a + b0);
        assert((t + b).drop_last() =~= t + b0);
        assert((a + b).last() == b.last());
        assert((t + b).last() == b.last());
        if b.last() == NEWLINE {
            assert(complete_lines(a + b) =~= complete_lines(a) + complete_lines(t + b));
        }
    }
}

/// Lines sent each with its newline are received as exactly those lines, with
/// nothing left over.
pub proof fn lemma_terminated_lines(lines: Seq<Seq<u8>>)
    requires
        newline_free(lines),
    ensures
        complete_lines(terminated(lines)) == lines,
        unterminated_tail(terminated(lines)) == Seq::<u8>::empty(),
    decreases lines.len(),
{
    if lines.len() > 0 {
        let init = lines.drop_last();
        let l = lines.last();
        assert(newline_free(init)) by {
            assert forall|i: int| 0 <= i < init.len() implies !(#[trigger] init[i]).contains(
                NEWLINE,
            ) by {
                assert(init[i] == lines[i]);
            }
        }
        lemma_terminated_lines(init);
        assert(!lines[lines.len() - 1].contains(NEWLINE));
        let s = terminated(init);
        let closed = l.push(NEWLINE);
        lemma_split_reads(s, closed);
        assert(Seq::<u8>::empty() + closed =~= closed);
        assert(closed.drop_last() =~= l);
        lemma_newline_free_stream(l);
        assert(complete_lines(closed) =~= seq![l]);
        assert(init + seq![l] =~= lines);
    }
}

/// Holds the bytes of a line that has begun but not yet ended.
pub struct LineDecoder {
    pending: Vec<u8>,
}

impl View for LineDecoder {
    type V = Seq<u8>;

    closed spec fn view(&self) -> Seq<u8> {
        self.pending@
    }
}

impl LineDecoder {
    /// What is held never contains a newline.
    pub open spec fn wf(&self) -> bool {
        !self@.contains(NEWLINE)
    }

    /// A decoder that holds nothing.
    pub fn new() -> (d: LineDecoder)
        ensures
            d.wf(),
            d@ == Seq::<u8>::empty(),
    {
        LineDecoder { pending: Vec::new() }
    }

    /// Takes the next bytes of the stream and returns the lines that they
    /// complete, in order and without their newlines; the bytes after the
    /// last newline are kept for the next call.
    pub fn feed(&mut self, data: &[u8]) -> (lines: Vec<Vec<u8>>)
        requires
            old(self).wf(),
        ensures
            final(self).wf(),
            lines.deep_view() == complete_lines(old(self)@ + data@),
            final(self)@ == unterminated_tail(old(self)@ + data@),
    {
        let ghost start = self@;
        proof {
            lemma_newline_free_stream(start);
            assert(start + data@.take(0) =~= start);
        }
        let mut lines: Vec<Vec<u8>> = Vec::new();
        let mut i: usize = 0;
        while i < data.len()
            invariant
                i <= data@.len(),
                !self@.contains(NEWLINE),
                lines.deep_view() == complete_lines(start + data@.take(i as int)),
                self@ == unterminated_tail(start + data@.take(i as int)),
            decreases data@.len() - i,
        {
            let b = data[i];
            let ghost before = start + data@.take(i as int);
            let ghost after = start + data@.take(i as int + 1);
            proof {
                assert(after.drop_last() =~= before);
                assert(after.last() == b);
            }
            if b == NEWLINE {
                let mut line: Vec<u8> = Vec::new();
                std::mem::swap(&mut line, &mut self.pending);
                let ghost prev = lines.deep_view();
                proof {
                    assert(line.deep_view() =~= line@);
                }
                lines.push(line);
                proof {
                    assert(lines.deep_view() =~= prev.push(line@));
                }
            } else {
                self.pending.push(b);
                proof {
                    assert forall|k: int| 0 <= k < self@.len() implies self@[k] != NEWLINE by {
                        if k < self@.len() - 1 {
                            assert(self@[k] == self@.drop_last()[k]);
                        }
                    }
                }
            }
            i = i + 1;
        }
        proof {
            assert(data@.take(data@.len() as int) =~= data@);
        }
        lines
    }

    /// Ends the stream: returns the unterminated line held, if there is one,
    /// and holds nothing after.
    pub fn finish(&mut self) -> (last: Option<Vec<u8>>)
        ensures
            final(self).wf(),
            final(self)@ == Seq::<u8>::empty(),
            old(self)@.len() == 0 ==> last is None,
            old(self)@.len() > 0 ==> (last matches Some(l) && l@ == old(self)@),
    {
        let mut line: Vec<u8> = Vec::new();
        std::mem::swap(&mut line, &mut self.pending);
        if line.len() == 0 {
            None
        } else {
            Some(line)
        }
    }

    /// Forgets the unterminated line held.
    pub fn discard(&mut self)
        ensures
            final(self).wf(),
            final(self)@ == Seq::<u8>::empty(),
    {
        self.pending.clear();
    }
}

} // verus!
