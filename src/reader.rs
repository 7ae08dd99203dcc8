//! Cutting a byte stream into lines.
//!
//! Both `\n` and `\r` end a line (progress lines are rewritten in place with
//! `\r`); empty lines are dropped; what is left when the stream ends is a
//! last line. Bytes are decoded lossily, so a malformed sequence never stops
//! a line from coming out.
use vstd::prelude::*;

verus! {

pub open spec fn is_terminator(b: u8) -> bool {
    b == 10 || b == 13
}

/// The lines that `bytes` complete, and the bytes of the line still open.
pub open spec fn split_state(bytes: Seq<u8>) -> (Seq<Seq<u8>>, Seq<u8>)
    decreases bytes.len(),
{
    if bytes.len() == 0 {
        (Seq::empty(), Seq::empty())
    } else {
        let prev = split_state(bytes.drop_last());
        let b = bytes.last();
        if is_terminator(b) {
            if prev.1.len() == 0 {
                prev
            } else {
                (prev.0.push(prev.1), Seq::empty())
            }
        } else {
            (prev.0, prev.1.push(b))
        }
    }
}

/// The lines of a stream that ended after `bytes`.
pub open spec fn lines_of(bytes: Seq<u8>) -> Seq<Seq<u8>> {
    let st = split_state(bytes);
    if st.1.len() > 0 {
        st.0.push(st.1)
    } else {
        st.0
    }
}

/// The decoded text of a line's bytes, invalid sequences replaced by U+FFFD.
pub uninterp spec fn lossy_utf8(b: Seq<u8>) -> Seq<char>;

/// Relies on `String::from_utf8_lossy`: the result depends on the bytes
/// alone, and each byte yields at least one character or a part of one, so
/// bytes give a non-empty text.
#[verifier::external_body]
fn decode_line(bytes: &[u8]) -> (r: String)
    ensures
        r@ == lossy_utf8(bytes@),
        bytes@.len() > 0 ==> r@.len() > 0,
{
    String::from_utf8_lossy(bytes).into_owned()
}

/// Gathers the bytes of the line that is open.
pub struct LineSplitter {
    buf: Vec<u8>,
}

impl View for LineSplitter {
    type V = Seq<u8>;

    closed spec fn view(&self) -> Seq<u8> {
        self.buf@
    }
}

impl LineSplitter {
    pub fn new() -> (r: LineSplitter)
        ensures
            r@ == Seq::<u8>::empty(),
    {
        LineSplitter { buf: Vec::new() }
    }

    /// Takes one byte; hands out the line, decoded, that a terminator completes.
    pub fn push_byte(&mut self, b: u8) -> (r: Option<String>)
        ensures
            is_terminator(b) && old(self)@.len() > 0 ==> (r matches Some(l) && l@ == lossy_utf8(
                old(self)@,
            ) && l@.len() > 0 && final(self)@.len() == 0),
            is_terminator(b) && old(self)@.len() == 0 ==> r is None && final(self)@ == old(self)@,
            !is_terminator(b) ==> r is None && final(self)@ == old(self)@.push(b),
    {
        if b == 10 || b == 13 {
            if self.buf.len() == 0 {
                None
            } else {
                let line = decode_line(self.buf.as_slice());
                self.buf = Vec::new();
                Some(line)
            }
        } else {
            self.buf.push(b);
            None
        }
    }

    /// Ends the stream; hands out the last line, decoded, if one is open.
    pub fn finish(self) -> (r: Option<String>)
        ensures
            self@.len() > 0 ==> (r matches Some(l) && l@ == lossy_utf8(self@) && l@.len() > 0),
            self@.len() == 0 ==> r is None,
    {
        if self.buf.len() == 0 {
            None
        } else {
            Some(decode_line(self.buf.as_slice()))
        }
    }
}

pub open spec fn decoded(lines: Seq<Seq<u8>>) -> Seq<Seq<char>> {
    lines.map_values(|l: Seq<u8>| lossy_utf8(l))
}

pub open spec fn text_views(v: Seq<String>) -> Seq<Seq<char>> {
    v.map_values(|t: String| t@)
}

/// The decoded lines of a whole stream, gathered as a reader thread gathers them.
pub fn split_lines(bytes: &[u8]) -> (r: Vec<String>)
    ensures
        text_views(r@) == decoded(lines_of(bytes@)),
{
    let mut sp = LineSplitter::new();
    let mut out: Vec<String> = Vec::new();
    let mut i: usize = 0;
    while i < bytes.len()
        invariant
            i <= bytes.len(),
            text_views(out@) == decoded(split_state(bytes@.subrange(0, i as int)).0),
            sp@ == split_state(bytes@.subrange(0, i as int)).1,
        decreases bytes.len() - i,
    {
        assert(bytes@.subrange(0, i + 1).drop_last() =~= bytes@.subrange(0, i as int));
        let ghost before = text_views(out@);
        let ghost open = sp@;
        let ghost done = split_state(bytes@.subrange(0, i as int)).0;
        if let Some(line) = sp.push_byte(bytes[i]) {
            out.push(line);
            assert(text_views(out@) =~= before.push(lossy_utf8(open)));
            assert(decoded(done.push(open)) =~= decoded(done).push(lossy_utf8(open)));
        }
        i = i + 1;
    }
    assert(bytes@.subrange(0, bytes.len() as int) =~= bytes@);
    let ghost before = text_views(out@);
    let ghost open = sp@;
    let ghost done = split_state(bytes@).0;
    if let Some(line) = sp.finish() {
        out.push(line);
        assert(text_views(out@) =~= before.push(lossy_utf8(open)));
        assert(decoded(done.push(open)) =~= decoded(done).push(lossy_utf8(open)));
    }
    out
}

/// Bytes without a terminator are one line, whatever they hold, once the
/// stream ends or a terminator follows.
pub proof fn lemma_unterminated_bytes_one_line(bytes: Seq<u8>, t: u8)
    requires
        bytes.len() > 0,
        forall|i: int| 0 <= i < bytes.len() ==> !is_terminator(#[trigger] bytes[i]),
        is_terminator(t),
    ensures
        lines_of(bytes) == seq![bytes],
        lines_of(bytes.push(t)) == seq![bytes],
{
    lemma_open_line(bytes);
    assert(bytes.push(t).drop_last() =~= bytes);
    assert(seq![bytes] =~= Seq::<Seq<u8>>::empty().push(bytes));
}

proof fn lemma_open_line(bytes: Seq<u8>)
    requires
        forall|i: int| 0 <= i < bytes.len() ==> !is_terminator(#[trigger] bytes[i]),
    ensures
        split_state(bytes) == (Seq::<Seq<u8>>::empty(), bytes),
    decreases bytes.len(),
{
    if bytes.len() > 0 {
        let p = bytes.drop_last();
        assert forall|i: int| 0 <= i < p.len() implies !is_terminator(#[trigger] p[i]) by {
            assert(p[i] == bytes[i]);
        }
        lemma_open_line(p);
        assert(!is_terminator(bytes[bytes.len() - 1]));
        assert(p.push(bytes.last()) =~= bytes);
    }
}

} // verus!
