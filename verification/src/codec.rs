//! Framing: the stream carries one document per line, each line ended by a
//! newline.
use vstd::prelude::*;

verus! {

/// The byte that ends a line.
pub const NEWLINE: u8 = 10;

/// Whether `bytes` holds no newline.
pub open spec fn newline_free(bytes: Seq<u8>) -> bool {
    forall|i: int| 0 <= i < bytes.len() ==> bytes[i] != NEWLINE
}

/// The bytes of `lines` on the wire: every line, in order, each followed by
/// a newline.
pub open spec fn wire(lines: Seq<Seq<u8>>) -> Seq<u8>
    decreases lines.len(),
{
    if lines.len() == 0 {
        Seq::empty()
    } else {
        wire(lines.drop_last()) + lines.last() + seq![NEWLINE]
    }
}

/// The bytes of a stream take apart into whole lines and an unfinished rest
/// in one way only.
pub proof fn lemma_wire_unique(
    lines: Seq<Seq<u8>>,
    rest: Seq<u8>,
    other_lines: Seq<Seq<u8>>,
    other_rest: Seq<u8>,
)
    requires
        forall|i: int| 0 <= i < lines.len() ==> newline_free(#[trigger] lines[i]),
        forall|i: int| 0 <= i < other_lines.len() ==> newline_free(#[trigger] other_lines[i]),
        newline_free(rest),
        newline_free(other_rest),
        wire(lines) + rest == wire(other_lines) + other_rest,
    ensures
        lines == other_lines,
        rest == other_rest,
    decreases lines.len(),
{
    let stream = wire(lines) + rest;
    if lines.len() == 0 {
        if other_lines.len() > 0 {
            let at = wire(other_lines).len() - 1;
            assert((wire(other_lines) + other_rest)[at] == NEWLINE);
            assert(stream[at] == rest[at]);
        }
        assert(lines =~= other_lines);
        assert(rest =~= stream);
        assert(other_rest =~= wire(other_lines) + other_rest);
    } else {
        let end = wire(lines).len() - 1;
        assert(stream[end] == NEWLINE);
        assert(stream.len() == wire(other_lines).len() + other_rest.len());
        if other_lines.len() == 0 {
            assert((wire(other_lines) + other_rest)[end] == other_rest[end]);
        }
        let other_end = wire(other_lines).len() - 1;
        assert((wire(other_lines) + other_rest)[other_end] == NEWLINE);
        if end < other_end {
            assert(stream[other_end] == rest[other_end - end - 1]);
        }
        if other_end < end {
            assert((wire(other_lines) + other_rest)[end] == other_rest[end - other_end - 1]);
        }
        assert(rest =~= stream.skip(end + 1));
        assert(other_rest =~= stream.skip(end + 1));
        let front = wire(lines.drop_last()) + lines.last();
        let other_front = wire(other_lines.drop_last()) + other_lines.last();
        assert(front =~= stream.take(end));
        assert(other_front =~= stream.take(end));
        assert forall|i: int| 0 <= i < lines.drop_last().len() implies newline_free(
            #[trigger] lines.drop_last()[i],
        ) by {
            assert(lines.drop_last()[i] == lines[i]);
        }
        assert forall|i: int| 0 <= i < other_lines.drop_last().len() implies newline_free(
            #[trigger] other_lines.drop_last()[i],
        ) by {
            assert(other_lines.drop_last()[i] == other_lines[i]);
        }
        lemma_wire_unique(
            lines.drop_last(),
            lines.last(),
            other_lines.drop_last(),
            other_lines.last(),
        );
        assert(lines =~= lines.drop_last().push(lines.last()));
        assert(other_lines =~= other_lines.drop_last().push(other_lines.last()));
    }
}

/// The bytes of a stream that wait for their newline.
#[derive(Debug)]
pub struct LineBuffer {
    pending: Vec<u8>,
}

impl View for LineBuffer {
    type V = Seq<u8>;

    closed spec fn view(&self) -> Seq<u8> {
        self.pending@
    }
}

impl LineBuffer {
    /// What waits in the buffer holds no newline.
    pub open spec fn wf(&self) -> bool {
        newline_free(self@)
    }

    /// A buffer in which nothing waits.
    pub fn new() -> (buffer: LineBuffer)
        ensures
            buffer@ == Seq::<u8>::empty(),
            buffer.wf(),
    {
        LineBuffer { pending: Vec::new() }
    }

    /// Takes the next bytes of the stream and returns the lines that they
    /// complete, without their newlines. What was waiting and what came,
    /// put together, is what the lines are on the wire and what waits now.
    pub fn push(&mut self, chunk: &[u8]) -> (lines: Vec<Vec<u8>>)
        requires
            old(self).wf(),
        ensures
            final(self).wf(),
            forall|i: int| 0 <= i < lines.len() ==> newline_free(#[trigger] lines.deep_view()[i]),
            wire(lines.deep_view()) + final(self)@ == old(self)@ + chunk@,
    {
        let mut lines: Vec<Vec<u8>> = Vec::new();
        let mut i: usize = 0;
        assert(lines.deep_view() =~= Seq::empty());
        assert(chunk@.take(0) =~= Seq::empty());
        assert(wire(lines.deep_view()) + self@ =~= old(self)@ + chunk@.take(0));
        while i < chunk.len()
            invariant
                i <= chunk.len(),
                newline_free(self@),
                forall|j: int|
                    0 <= j < lines.len() ==> newline_free(#[trigger] lines.deep_view()[j]),
                wire(lines.deep_view()) + self@ == old(self)@ + chunk@.take(i as int),
            decreases chunk.len() - i,
        {
            let byte = chunk[i];
            let ghost before = lines.deep_view();
            let ghost waiting = self@;
            assert(chunk@.take(i + 1) =~= chunk@.take(i as int).push(byte));
            if byte == NEWLINE {
                let mut line: Vec<u8> = Vec::new();
                std::mem::swap(&mut line, &mut self.pending);
                assert(line.deep_view() =~= waiting);
                lines.push(line);
                assert(lines.deep_view() =~= before.push(waiting));
                assert(lines.deep_view().drop_last() =~= before);
                assert(wire(lines.deep_view()) =~= wire(before) + waiting + seq![NEWLINE]);
                assert(wire(lines.deep_view()) + self@ =~= (wire(before) + waiting).push(byte));
            } else {
                self.pending.push(byte);
                assert(lines.deep_view() =~= before);
                assert(wire(lines.deep_view()) + self@ =~= (wire(before) + waiting).push(byte));
            }
            i += 1;
        }
        assert(chunk@.take(i as int) =~= chunk@);
        lines
    }

    /// Ends the stream: returns what was still waiting as a last line, or
    /// `None` if nothing was. Nothing waits afterwards.
    pub fn finish(&mut self) -> (last: Option<Vec<u8>>)
        ensures
            final(self)@ == Seq::<u8>::empty(),
            final(self).wf(),
            match last {
                Some(line) => line@ == old(self)@ && line@.len() > 0,
                None => old(self)@.len() == 0,
            },
    {
        if self.pending.len() == 0 {
            None
        } else {
            let mut line: Vec<u8> = Vec::new();
            std::mem::swap(&mut line, &mut self.pending);
            Some(line)
        }
    }
}

/// One document as it goes out on the wire: its bytes and a newline.
pub fn frame(document: &[u8]) -> (line: Vec<u8>)
    ensures
        line@ == document@ + seq![NEWLINE],
{
    let mut line: Vec<u8> = Vec::new();
    let mut i: usize = 0;
    while i < document.len()
        invariant
            i <= document.len(),
            line@ == document@.take(i as int),
        decreases document.len() - i,
    {
        line.push(document[i]);
        assert(document@.take(i + 1) =~= document@.take(i as int).push(document@[i as int]));
        i += 1;
    }
    assert(document@.take(i as int) =~= document@);
    line.push(NEWLINE);
    line
}

} // verus!
