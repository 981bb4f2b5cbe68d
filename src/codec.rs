use vstd::prelude::*;

verus! {

/// The line delimiter of the wire protocol.
pub const NEWLINE: u8 = 10;

/// A carriage return, stripped from the trailing edge of a frame.
pub const CARRIAGE_RETURN: u8 = 13;

/// No byte of `s` is a line delimiter.
pub open spec fn no_newline(s: Seq<u8>) -> bool {
    forall|i: int| 0 <= i < s.len() ==> s[i] != NEWLINE
}

/// The bytes of `lines`, each followed by a delimiter.
pub open spec fn joined(lines: Seq<Seq<u8>>) -> Seq<u8>
    decreases lines.len(),
{
    if lines.len() == 0 {
        Seq::empty()
    } else {
        joined(lines.drop_last()) + lines.last().push(NEWLINE)
    }
}

/// `lines` and `rest` are the complete lines of `stream` in order, and the partial
/// line that follows the last delimiter.
pub open spec fn splits_into(stream: Seq<u8>, lines: Seq<Seq<u8>>, rest: Seq<u8>) -> bool {
    &&& stream == joined(lines) + rest
    &&& no_newline(rest)
    &&& forall|k: int| 0 <= k < lines.len() ==> no_newline(#[trigger] lines[k])
}

/// A frame's bytes without one trailing carriage return.
pub open spec fn trim_cr(line: Seq<u8>) -> Seq<u8> {
    if line.len() > 0 && line.last() == CARRIAGE_RETURN {
        line.drop_last()
    } else {
        line
    }
}

/// `texts` are the completed lines of `stream`, each decoded after one trailing
/// carriage return is stripped, and `rest` the partial line after them.
pub open spec fn decodes_to(stream: Seq<u8>, texts: Seq<String>, rest: Seq<u8>) -> bool {
    exists|lines: Seq<Seq<u8>>|
        {
            &&& splits_into(stream, lines, rest)
            &&& texts.len() == lines.len()
            &&& forall|k: int|
                0 <= k < lines.len() ==> (#[trigger] texts[k])@ == lossy_text(trim_cr(lines[k]))
            &&& forall|k: int|
                0 <= k < lines.len() && vstd::utf8::valid_utf8(trim_cr(lines[k]))
                    ==> (#[trigger] texts[k])@ == vstd::utf8::decode_utf8(trim_cr(lines[k]))
        }
}

/// The text that lossy UTF-8 decoding makes of `bytes`.
pub uninterp spec fn lossy_text(bytes: Seq<u8>) -> Seq<char>;

/// Relies on `String::from_utf8_lossy`: the text depends on the bytes alone, valid
/// UTF-8 is decoded as it stands, and invalid sequences become a replacement
/// character instead of failing.
#[verifier::external_body]
fn decode_lossy(bytes: &[u8]) -> (r: String)
    ensures
        r@ == lossy_text(bytes@),
        vstd::utf8::valid_utf8(bytes@) ==> r@ == vstd::utf8::decode_utf8(bytes@),
{
    String::from_utf8_lossy(bytes).into_owned()
}

proof fn lemma_joined_push(lines: Seq<Seq<u8>>, line: Seq<u8>)
    ensures
        joined(lines.push(line)) == joined(lines) + line.push(NEWLINE),
{
    assert(lines.push(line).drop_last() =~= lines);
}

/// `a` is empty or ends with a delimiter.
pub open spec fn line_bounded(a: Seq<u8>) -> bool {
    a.len() == 0 || a.last() == NEWLINE
}

proof fn lemma_joined_bounded(lines: Seq<Seq<u8>>)
    ensures
        line_bounded(joined(lines)),
        lines.len() == 0 <==> joined(lines).len() == 0,
{
    if lines.len() > 0 {
        let j = joined(lines);
        assert(j.last() == lines.last().push(NEWLINE).last());
    }
}

/// The newline-free tail after the last delimiter of a stream is determined.
proof fn lemma_tail_unique(a1: Seq<u8>, r1: Seq<u8>, a2: Seq<u8>, r2: Seq<u8>)
    requires
        a1 + r1 == a2 + r2,
        no_newline(r1),
        no_newline(r2),
        line_bounded(a1),
        line_bounded(a2),
    ensures
        r1 == r2,
        a1 == a2,
{
    let s = a1 + r1;
    assert(s.len() == a1.len() + r1.len() && s.len() == a2.len() + r2.len());
    if r1.len() < r2.len() {
        let k = a1.len() - 1;
        assert(a1[k] == NEWLINE);
        assert(s[k] == a1[k]);
        assert((a2 + r2)[k] == r2[k - a2.len()]);
        assert(false);
    } else if r2.len() < r1.len() {
        let k = a2.len() - 1;
        assert(a2[k] == NEWLINE);
        assert((a2 + r2)[k] == a2[k]);
        assert(s[k] == r1[k - a1.len()]);
        assert(false);
    }
    assert(a1.len() == a2.len());
    assert(a1 =~= s.subrange(0, a1.len() as int));
    assert(a2 =~= (a2 + r2).subrange(0, a2.len() as int));
    assert(r1 =~= s.subrange(a1.len() as int, s.len() as int));
    assert(r2 =~= (a2 + r2).subrange(a2.len() as int, s.len() as int));
}

proof fn lemma_joined_unique(l1: Seq<Seq<u8>>, l2: Seq<Seq<u8>>)
    requires
        joined(l1) == joined(l2),
        forall|k: int| 0 <= k < l1.len() ==> no_newline(#[trigger] l1[k]),
        forall|k: int| 0 <= k < l2.len() ==> no_newline(#[trigger] l2[k]),
    ensures
        l1 == l2,
    decreases l1.len(),
{
    lemma_joined_bounded(l1);
    lemma_joined_bounded(l2);
    if l1.len() > 0 && l2.len() > 0 {
        let i1 = l1.drop_last();
        let i2 = l2.drop_last();
        lemma_joined_bounded(i1);
        lemma_joined_bounded(i2);
        assert(l1.last() == l1[l1.len() - 1]);
        assert(l2.last() == l2[l2.len() - 1]);
        let j = joined(l1);
        assert(j.drop_last() =~= joined(i1) + l1.last());
        assert(joined(l2).drop_last() =~= joined(i2) + l2.last());
        lemma_tail_unique(joined(i1), l1.last(), joined(i2), l2.last());
        assert forall|k: int| 0 <= k < i1.len() implies no_newline(#[trigger] i1[k]) by {
            assert(i1[k] == l1[k]);
        }
        assert forall|k: int| 0 <= k < i2.len() implies no_newline(#[trigger] i2[k]) by {
            assert(i2[k] == l2[k]);
        }
        lemma_joined_unique(i1, i2);
        assert(l1 =~= i1.push(l1.last()));
        assert(l2 =~= i2.push(l2.last()));
    } else if l1.len() == 0 && l2.len() == 0 {
        assert(l1 =~= l2);
    }
}

proof fn lemma_joined_concat(l1: Seq<Seq<u8>>, l2: Seq<Seq<u8>>)
    ensures
        joined(l1 + l2) == joined(l1) + joined(l2),
    decreases l2.len(),
{
    if l2.len() == 0 {
        assert(l1 + l2 =~= l1);
        assert(joined(l1) + joined(l2) =~= joined(l1));
    } else {
        lemma_joined_concat(l1, l2.drop_last());
        assert((l1 + l2).drop_last() =~= l1 + l2.drop_last());
        assert((l1 + l2).last() == l2.last());
        assert(joined(l1) + (joined(l2.drop_last()) + l2.last().push(NEWLINE)) =~= (joined(l1)
            + joined(l2.drop_last())) + l2.last().push(NEWLINE));
    }
}

/// The frames of a byte stream are determined by it: there is one way to
/// split it into complete lines and a trailing partial line.
pub proof fn lemma_frames_determined(
    stream: Seq<u8>,
    l1: Seq<Seq<u8>>,
    r1: Seq<u8>,
    l2: Seq<Seq<u8>>,
    r2: Seq<u8>,
)
    requires
        splits_into(stream, l1, r1),
        splits_into(stream, l2, r2),
    ensures
        l1 == l2,
        r1 == r2,
{
    lemma_joined_bounded(l1);
    lemma_joined_bounded(l2);
    lemma_tail_unique(joined(l1), r1, joined(l2), r2);
    lemma_joined_unique(l1, l2);
}

/// Feeding a stream in two pieces gives the frames of feeding it at once: the
/// lines completed by the first piece followed by those completed by the
/// second, and the same partial line left over.
pub proof fn lemma_feed_in_pieces(
    buffered: Seq<u8>,
    a: Seq<u8>,
    b: Seq<u8>,
    la: Seq<Seq<u8>>,
    ra: Seq<u8>,
    lb: Seq<Seq<u8>>,
    rb: Seq<u8>,
)
    requires
        splits_into(buffered + a, la, ra),
        splits_into(ra + b, lb, rb),
    ensures
        splits_into(buffered + (a + b), la + lb, rb),
{
    lemma_joined_concat(la, lb);
    assert(buffered + (a + b) =~= (buffered + a) + b);
    assert((joined(la) + ra) + b =~= joined(la) + (ra + b));
    assert(joined(la) + (joined(lb) + rb) =~= (joined(la) + joined(lb)) + rb);
    assert forall|k: int| 0 <= k < (la + lb).len() implies no_newline(#[trigger] (la + lb)[k]) by {
        if k < la.len() {
            assert((la + lb)[k] == la[k]);
        } else {
            assert((la + lb)[k] == lb[k - la.len()]);
        }
    }
}

/// Splits a byte stream into newline-delimited frames across partial reads.
pub struct FrameCodec {
    buffer: Vec<u8>,
}

impl FrameCodec {
    /// The bytes received after the last delimiter, held until the line completes.
    pub closed spec fn pending(&self) -> Seq<u8> {
        self.buffer@
    }

    pub open spec fn wf(&self) -> bool {
        no_newline(self.pending())
    }

    pub fn new() -> (r: FrameCodec)
        ensures
            r.wf(),
            r.pending() == Seq::<u8>::empty(),
    {
        FrameCodec { buffer: Vec::new() }
    }

    /// The bytes held back as an incomplete line.
    pub fn buffered(&self) -> (r: Vec<u8>)
        ensures
            r@ == self.pending(),
    {
        self.buffer.clone()
    }

    /// Appends `bytes` to the buffer and takes out every completed line, in
    /// arrival order, without its delimiter; an empty line is a frame too.
    pub fn feed_raw(&mut self, bytes: &[u8]) -> (r: Vec<Vec<u8>>)
        requires
            old(self).wf(),
        ensures
            final(self).wf(),
            splits_into(
                old(self).pending() + bytes@,
                r@.map_values(|v: Vec<u8>| v@),
                final(self).pending(),
            ),
    {
        let mut out: Vec<Vec<u8>> = Vec::new();
        let mut cur: Vec<u8> = Vec::new();
        std::mem::swap(&mut cur, &mut self.buffer);
        let ghost start = cur@;
        let mut i: usize = 0;
        while i < bytes.len()
            invariant
                0 <= i <= bytes@.len(),
                splits_into(
                    start + bytes@.subrange(0, i as int),
                    out@.map_values(|v: Vec<u8>| v@),
                    cur@,
                ),
            decreases bytes@.len() - i,
        {
            let b = bytes[i];
            let ghost lines = out@.map_values(|v: Vec<u8>| v@);
            let ghost before = cur@;
            assert(bytes@.subrange(0, i + 1) =~= bytes@.subrange(0, i as int).push(b));
            assert(start + bytes@.subrange(0, i + 1) =~= (joined(lines) + before).push(b));
            if b == NEWLINE {
                let line = cur;
                cur = Vec::new();
                proof {
                    lemma_joined_push(lines, line@);
                }
                out.push(line);
                assert(out@.map_values(|v: Vec<u8>| v@) =~= lines.push(line@));
                assert((joined(lines) + before).push(b) =~= joined(lines) + line@.push(NEWLINE));
            } else {
                cur.push(b);
                assert((joined(lines) + before).push(b) =~= joined(lines) + cur@);
            }
            i = i + 1;
        }
        assert(bytes@.subrange(0, i as int) =~= bytes@);
        self.buffer = cur;
        out
    }

    /// Like `feed_raw`, with each completed line decoded as text after one
    /// trailing carriage return is stripped; decoding never fails.
    pub fn feed(&mut self, bytes: &[u8]) -> (r: Vec<String>)
        requires
            old(self).wf(),
        ensures
            final(self).wf(),
            decodes_to(old(self).pending() + bytes@, r@, final(self).pending()),
    {
        let raw = self.feed_raw(bytes);
        let ghost lines = raw@.map_values(|v: Vec<u8>| v@);
        let mut out: Vec<String> = Vec::new();
        let mut k: usize = 0;
        while k < raw.len()
            invariant
                0 <= k <= raw@.len(),
                lines == raw@.map_values(|v: Vec<u8>| v@),
                out@.len() == k,
                forall|j: int| 0 <= j < k ==> (#[trigger] out@[j])@ == lossy_text(trim_cr(lines[j])),
                forall|j: int|
                    0 <= j < k && vstd::utf8::valid_utf8(trim_cr(lines[j])) ==> (#[trigger] out@[j])@
                        == vstd::utf8::decode_utf8(trim_cr(lines[j])),
            decreases raw@.len() - k,
        {
            let line = &raw[k];
            let n = line.len();
            let text = if n > 0 && line[n - 1] == CARRIAGE_RETURN {
                proof {
                    assert(line@.subrange(0, n - 1) =~= line@.drop_last());
                }
                decode_lossy(&line.as_slice()[0..n - 1])
            } else {
                decode_lossy(line.as_slice())
            };
            out.push(text);
            k = k + 1;
        }
        assert(splits_into(old(self).pending() + bytes@, lines, self.pending()));
        out
    }
}

} // verus!
