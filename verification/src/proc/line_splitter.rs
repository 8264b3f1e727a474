//! Splits a process's byte stream into lines. A line ends at `\n`, at a bare `\r` (the
//! carriage-return progress bars PlatformIO prints), or at `\r\n` taken as one break, and
//! is decoded lossily as UTF-8.
use vstd::prelude::*;

verus! {

/// What `String::from_utf8_lossy` gives for `bytes`: the decoded text, with every invalid
/// sequence replaced by U+FFFD.
pub uninterp spec fn utf8_lossy(bytes: Seq<u8>) -> Seq<char>;

/// `String::from_utf8_lossy(bytes).into_owned()`. Claims the result is [`utf8_lossy`] of
/// the bytes, and, as the documentation states, exactly the decoded text when the bytes are
/// valid UTF-8.
#[verifier::external_body]
fn lossy_string(bytes: &[u8]) -> (s: String)
    ensures
        s@ == utf8_lossy(bytes@),
        vstd::utf8::valid_utf8(bytes@) ==> s@ == vstd::utf8::decode_utf8(bytes@),
{
    String::from_utf8_lossy(bytes).into_owned()
}

pub struct LineSplitter {
    buf: Vec<u8>,
    pending_cr: bool,
}

/// The splitter's state: the bytes of the unfinished line, and whether the last byte seen
/// was a `\r` (so that a following `\n` is not a second break).
pub struct SplitState {
    pub buf: Seq<u8>,
    pub pending_cr: bool,
}

/// One byte: returns the new state and the finished line, if the byte ends one.
pub open spec fn split_step(st: SplitState, b: u8) -> (SplitState, Option<Seq<u8>>) {
    if b == 10u8 {
        if st.pending_cr {
            (SplitState { buf: st.buf, pending_cr: false }, None)
        } else {
            (SplitState { buf: Seq::empty(), pending_cr: false }, Some(st.buf))
        }
    } else if b == 13u8 {
        (SplitState { buf: Seq::empty(), pending_cr: true }, Some(st.buf))
    } else {
        (SplitState { buf: st.buf.push(b), pending_cr: false }, None)
    }
}

/// The state after `chunk`, and the raw lines it finished, in order.
pub open spec fn split_feed(st: SplitState, chunk: Seq<u8>) -> (SplitState, Seq<Seq<u8>>)
    decreases chunk.len(),
{
    if chunk.len() == 0 {
        (st, Seq::empty())
    } else {
        let (mid, lines) = split_feed(st, chunk.drop_last());
        let (last, out) = split_step(mid, chunk.last());
        (last, match out {
            Some(l) => lines.push(l),
            None => lines,
        })
    }
}

pub open spec fn lossy_lines(ls: Seq<Seq<u8>>) -> Seq<Seq<char>> {
    ls.map_values(|l: Seq<u8>| utf8_lossy(l))
}

/// Every line whose bytes are valid UTF-8 decodes plainly, with nothing replaced.
pub open spec fn valid_lines_decode_plainly(ls: Seq<Seq<u8>>) -> bool {
    forall|k: int|
        0 <= k < ls.len() && vstd::utf8::valid_utf8(#[trigger] ls[k]) ==> utf8_lossy(ls[k])
            == vstd::utf8::decode_utf8(ls[k])
}

impl LineSplitter {
    pub closed spec fn view(&self) -> SplitState {
        SplitState { buf: self.buf@, pending_cr: self.pending_cr }
    }

    pub fn new() -> (r: Self)
        ensures
            r.view() == (SplitState { buf: Seq::empty(), pending_cr: false }),
    {
        LineSplitter { buf: Vec::new(), pending_cr: false }
    }

    fn take_line(&mut self) -> (r: String)
        ensures
            r@ == utf8_lossy(old(self).buf@),
            vstd::utf8::valid_utf8(old(self).buf@) ==> r@ == vstd::utf8::decode_utf8(old(self).buf@),
            final(self).buf@ == Seq::<u8>::empty(),
            final(self).pending_cr == old(self).pending_cr,
    {
        let line = lossy_string(self.buf.as_slice());
        self.buf.clear();
        line
    }

    /// Feeds a chunk of bytes and returns the lines it completed.
    pub fn feed(&mut self, chunk: &[u8]) -> (lines: Vec<String>)
        ensures
            final(self).view() == split_feed(old(self).view(), chunk@).0,
            lines@.map_values(|s: String| s@) == lossy_lines(split_feed(old(self).view(), chunk@).1),
            valid_lines_decode_plainly(split_feed(old(self).view(), chunk@).1),
    {
        let mut lines: Vec<String> = Vec::new();
        let ghost st0 = self.view();
        let mut i: usize = 0;
        assert(chunk@.take(0) == Seq::<u8>::empty());
        while i < chunk.len()
            invariant
                i <= chunk.len(),
                self.view() == split_feed(st0, chunk@.take(i as int)).0,
                lines@.map_values(|s: String| s@) == lossy_lines(split_feed(st0, chunk@.take(i as int)).1),
                valid_lines_decode_plainly(split_feed(st0, chunk@.take(i as int)).1),
            decreases chunk.len() - i,
        {
            let byte = chunk[i];
            let ghost prev_lines = lines@.map_values(|s: String| s@);
            proof {
                assert(chunk@.take(i + 1).drop_last() == chunk@.take(i as int));
                assert(chunk@.take(i + 1).last() == byte);
            }
            if byte == 10u8 {
                if self.pending_cr {
                    self.pending_cr = false;
                } else {
                    let l = self.take_line();
                    lines.push(l);
                    assert(lines@.map_values(|s: String| s@) =~= prev_lines.push(l@));
                }
            } else if byte == 13u8 {
                let l = self.take_line();
                lines.push(l);
                assert(lines@.map_values(|s: String| s@) =~= prev_lines.push(l@));
                self.pending_cr = true;
            } else {
                self.buf.push(byte);
                self.pending_cr = false;
            }
            proof {
                let ls = split_feed(st0, chunk@.take(i as int)).1;
                let ls2 = split_feed(st0, chunk@.take(i + 1)).1;
                assert(lossy_lines(ls2) =~= (if ls2.len() > ls.len() {
                    lossy_lines(ls).push(utf8_lossy(ls2.last()))
                } else {
                    lossy_lines(ls)
                }));
            }
            i += 1;
        }
        assert(chunk@.take(chunk.len() as int) == chunk@);
        lines
    }

    /// The unfinished line at end of stream, if it holds any bytes.
    pub fn finish(self) -> (r: Option<String>)
        ensures
            match r {
                Some(s) => self.view().buf.len() > 0 && s@ == utf8_lossy(self.view().buf) && (vstd::utf8::valid_utf8(
                    self.view().buf,
                ) ==> s@ == vstd::utf8::decode_utf8(self.view().buf)),
                None => self.view().buf.len() == 0,
            },
    {
        let mut me = self;
        if me.buf.len() == 0 {
            None
        } else {
            Some(me.take_line())
        }
    }
}

/// Feeding two chunks one after the other gives the same lines, and the same state, as
/// feeding their concatenation: where a chunk boundary falls never changes the output.
pub proof fn law_feed_split_anywhere(st: SplitState, a: Seq<u8>, b: Seq<u8>)
    ensures
        split_feed(st, a + b).0 == split_feed(split_feed(st, a).0, b).0,
        split_feed(st, a + b).1 == split_feed(st, a).1 + split_feed(split_feed(st, a).0, b).1,
    decreases b.len(),
{
    if b.len() == 0 {
        assert(a + b == a);
        assert(split_feed(st, a).1 + Seq::<Seq<u8>>::empty() == split_feed(st, a).1);
    } else {
        law_feed_split_anywhere(st, a, b.drop_last());
        assert((a + b).drop_last() == a + b.drop_last());
        assert((a + b).last() == b.last());
        let mid = split_feed(st, a).0;
        let (m2, l2) = split_feed(mid, b.drop_last());
        let (_, out) = split_step(m2, b.last());
        match out {
            Some(l) => {
                assert(split_feed(st, a).1 + l2.push(l) == (split_feed(st, a).1 + l2).push(l));
            },
            None => {},
        }
    }
}

/// Whether byte `i` of `chunk` breaks a line: every `\r` does, and so does every `\n`
/// that does not directly follow a `\r` (for the first byte, `cr_before` says whether the
/// byte before the chunk was a `\r`).
pub open spec fn is_break(cr_before: bool, chunk: Seq<u8>, i: int) -> bool {
    chunk[i] == 13u8 || (chunk[i] == 10u8 && !(if i == 0 {
        cr_before
    } else {
        chunk[i - 1] == 13u8
    }))
}

/// The number of line breaks in `chunk`.
pub open spec fn break_count(cr_before: bool, chunk: Seq<u8>) -> nat
    decreases chunk.len(),
{
    if chunk.len() == 0 {
        0
    } else {
        break_count(cr_before, chunk.drop_last()) + if is_break(cr_before, chunk, chunk.len() - 1) {
            1nat
        } else {
            0nat
        }
    }
}

/// The bytes of `chunk` that are neither `\n` nor `\r`, in order.
pub open spec fn data_bytes(chunk: Seq<u8>) -> Seq<u8>
    decreases chunk.len(),
{
    if chunk.len() == 0 {
        Seq::empty()
    } else if chunk.last() == 10u8 || chunk.last() == 13u8 {
        data_bytes(chunk.drop_last())
    } else {
        data_bytes(chunk.drop_last()).push(chunk.last())
    }
}

/// Every break ends exactly one line, so a chunk gives as many lines as it holds breaks
/// (two `\n` in a row give an empty line, and `\r\n` counts once); no other byte is lost
/// or added: the lines, joined, followed by the unfinished line, are the unfinished line
/// before the chunk followed by the chunk's bytes without its `\n` and `\r`; and a line
/// never holds a `\n` or `\r` unless the unfinished line it began with did.
pub proof fn law_every_break_ends_one_line(st: SplitState, chunk: Seq<u8>)
    ensures
        split_feed(st, chunk).1.len() == break_count(st.pending_cr, chunk),
        split_feed(st, chunk).1.flatten() + split_feed(st, chunk).0.buf == st.buf + data_bytes(chunk),
        split_feed(st, chunk).0.pending_cr == (if chunk.len() == 0 {
            st.pending_cr
        } else {
            chunk.last() == 13u8
        }),
        (forall|j: int| 0 <= j < st.buf.len() ==> st.buf[j] != 10u8 && st.buf[j] != 13u8) ==> {
            &&& forall|k: int, j: int|
                0 <= k < split_feed(st, chunk).1.len() && 0 <= j < split_feed(st, chunk).1[k].len() ==> {
                    &&& #[trigger] split_feed(st, chunk).1[k][j] != 10u8
                    &&& split_feed(st, chunk).1[k][j] != 13u8
                }
            &&& forall|j: int|
                0 <= j < split_feed(st, chunk).0.buf.len() ==> split_feed(st, chunk).0.buf[j] != 10u8
                    && split_feed(st, chunk).0.buf[j] != 13u8
        },
    decreases chunk.len(),
{
    if chunk.len() > 0 {
        let c0 = chunk.drop_last();
        law_every_break_ends_one_line(st, c0);
        let (mid, lines) = split_feed(st, c0);
        let b = chunk.last();
        assert(chunk[chunk.len() - 1] == b);
        if chunk.len() > 1 {
            assert(chunk[chunk.len() - 2] == c0.last());
        }
        let (last, out) = split_step(mid, b);
        match out {
            Some(l) => {
                lines.lemma_flatten_push(l);
                assert(lines.push(l).flatten() + last.buf =~= lines.flatten() + mid.buf);
                let ls2 = lines.push(l);
                assert forall|k: int, j: int| 0 <= k < ls2.len() && 0 <= j < ls2[k].len() && (forall|
                    j: int,
                | 0 <= j < st.buf.len() ==> st.buf[j] != 10u8 && st.buf[j] != 13u8) implies ls2[k][j] != 10u8
                    && ls2[k][j] != 13u8 by {
                    if k < lines.len() {
                        assert(ls2[k] == lines[k]);
                    } else {
                        assert(ls2[k] == mid.buf);
                    }
                }
            },
            None => {
                if b != 10u8 && b != 13u8 {
                    assert(lines.flatten() + last.buf =~= (lines.flatten() + mid.buf).push(b));
                }
            },
        }
    } else {
        assert(Seq::<Seq<u8>>::empty().flatten() =~= Seq::<u8>::empty());
        assert(st.buf + data_bytes(chunk) =~= st.buf);
    }
}

} // verus!
