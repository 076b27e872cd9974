//! Splitting a dump into length-delimited records.
//!
//! A dump is a concatenation of records, each a 4-byte big-endian signed
//! length followed by exactly that many bytes. The reader hands the records
//! out one at a time as slices of the buffer read, and stops at the end
//! of the buffer or at the first malformed record.
use crate::buffer::{buffer_byte, buffer_len, buffer_slice, bytes_content};
use bytes::Bytes;
use vstd::prelude::*;

verus! {

/// Why a record could not be read.
#[derive(Debug, Clone, Copy, PartialEq, Eq, Structural)]
pub enum FrameError {
    /// Fewer than four bytes remain where a length prefix should start.
    InsufficientLengthBytes { offset: usize, remaining: usize },
    /// The length prefix is negative or larger than the bytes that follow it.
    LengthExceedsBuffer { offset: usize, declared: i64, remaining: usize },
}

/// The value of four bytes read as a big-endian unsigned integer.
pub open spec fn be_value(b: Seq<u8>) -> int {
    ((b[0] as int * 256 + b[1] as int) * 256 + b[2] as int) * 256 + b[3] as int
}

/// The big-endian encoding of `n` in four bytes (for `0 <= n < 2^32`).
pub open spec fn be_bytes(n: int) -> Seq<u8> {
    seq![
        (n / 256 / 256 / 256) as u8,
        (n / 256 / 256 % 256) as u8,
        (n / 256 % 256) as u8,
        (n % 256) as u8,
    ]
}

/// The signed length declared by the four bytes at `off`.
pub open spec fn declared_length(buf: Seq<u8>, off: int) -> int {
    let u = be_value(buf.subrange(off, off + 4));
    if u < 0x8000_0000 {
        u
    } else {
        u - 0x1_0000_0000
    }
}

/// What a reader positioned at `off` in `buf` yields, in order: the records,
/// then possibly one error, after which nothing more.
pub open spec fn frames_from(buf: Seq<u8>, off: nat) -> Seq<Result<Seq<u8>, FrameError>>
    decreases buf.len() - off,
{
    if off >= buf.len() {
        seq![]
    } else if buf.len() - off < 4 {
        seq![
            Err(
                FrameError::InsufficientLengthBytes {
                    offset: off as usize,
                    remaining: (buf.len() - off) as usize,
                },
            ),
        ]
    } else {
        let len = declared_length(buf, off as int);
        let rest = buf.len() - off - 4;
        if len < 0 || len > rest {
            seq![
                Err(
                    FrameError::LengthExceedsBuffer {
                        offset: off as usize,
                        declared: len as i64,
                        remaining: rest as usize,
                    },
                ),
            ]
        } else {
            seq![Ok(buf.subrange(off as int + 4, off as int + 4 + len))] + frames_from(
                buf,
                (off + 4 + len) as nat,
            )
        }
    }
}

/// One record framed with its length prefix.
pub open spec fn encode_frame(p: Seq<u8>) -> Seq<u8> {
    be_bytes(p.len() as int) + p
}

/// Records framed one after another.
pub open spec fn encode_frames(ps: Seq<Seq<u8>>) -> Seq<u8>
    decreases ps.len(),
{
    if ps.len() == 0 {
        seq![]
    } else {
        encode_frame(ps[0]) + encode_frames(ps.drop_first())
    }
}

/// Each record as a successful item.
pub open spec fn all_ok(ps: Seq<Seq<u8>>) -> Seq<Result<Seq<u8>, FrameError>> {
    ps.map_values(|p: Seq<u8>| Ok(p))
}

/// A record as the reader hands it out, with its bytes in place of the buffer.
pub open spec fn record_view(r: Result<Bytes, FrameError>) -> Result<Seq<u8>, FrameError> {
    match r {
        Ok(b) => Ok(bytes_content(b)),
        Err(e) => Err(e),
    }
}

/// Reads the records of a buffer one at a time.
pub struct LengthDelimitedRecords {
    bytes: Bytes,
    current_offset: Option<usize>,
}

impl LengthDelimitedRecords {
    #[verifier::type_invariant]
    spec fn offset_in_buffer(&self) -> bool {
        match self.current_offset {
            Some(off) => off <= bytes_content(self.bytes).len(),
            None => true,
        }
    }

    /// The items that the reader has still to yield.
    pub closed spec fn remaining(&self) -> Seq<Result<Seq<u8>, FrameError>> {
        match self.current_offset {
            Some(off) => frames_from(bytes_content(self.bytes), off as nat),
            None => seq![],
        }
    }

    pub fn new(bytes: Bytes) -> (r: Self)
        ensures
            r.remaining() == frames_from(bytes_content(bytes), 0),
    {
        LengthDelimitedRecords { bytes, current_offset: Some(0) }
    }

    /// The next record, or the error that ends the sequence; `None` once the
    /// sequence is over.
    pub fn next(&mut self) -> (r: Option<Result<Bytes, FrameError>>)
        ensures
            old(self).remaining().len() == 0 ==> r is None && final(self).remaining().len() == 0,
            old(self).remaining().len() > 0 ==> r is Some && record_view(r.unwrap())
                == old(self).remaining()[0] && final(self).remaining()
                == old(self).remaining().drop_first(),
    {
        proof {
            use_type_invariant(&*self);
        }
        let off = match self.current_offset {
            Some(off) => off,
            None => {
                return None;
            },
        };
        let ghost buf = bytes_content(self.bytes);
        self.current_offset = None;
        let total = buffer_len(&self.bytes);
        let remain = total - off;
        if remain == 0 {
            return None;
        }
        if remain < 4 {
            return Some(Err(FrameError::InsufficientLengthBytes { offset: off, remaining: remain }));
        }
        let b0 = buffer_byte(&self.bytes, off);
        let b1 = buffer_byte(&self.bytes, off + 1);
        let b2 = buffer_byte(&self.bytes, off + 2);
        let b3 = buffer_byte(&self.bytes, off + 3);
        let value: u64 = ((b0 as u64 * 256 + b1 as u64) * 256 + b2 as u64) * 256 + b3 as u64;
        let declared: i64 = if value < 0x8000_0000 {
            value as i64
        } else {
            value as i64 - 0x1_0000_0000
        };
        proof {
            assert(buf.subrange(off as int, off + 4) =~= seq![b0, b1, b2, b3]);
            assert(declared == declared_length(buf, off as int));
        }
        let start = off + 4;
        let rest = total - start;
        if declared < 0 || declared as u64 > rest as u64 {
            return Some(
                Err(FrameError::LengthExceedsBuffer { offset: off, declared, remaining: rest }),
            );
        }
        let end = start + declared as usize;
        let record = buffer_slice(&self.bytes, start, end);
        self.current_offset = Some(end);
        Some(Ok(record))
    }
}

proof fn lemma_be_round_trip(n: int)
    requires
        0 <= n < 0x1_0000_0000,
    ensures
        be_bytes(n).len() == 4,
        be_value(be_bytes(n)) == n,
{
    let q1 = n / 256;
    let q2 = q1 / 256;
    let q3 = q2 / 256;
    assert(n == q1 * 256 + n % 256);
    assert(q1 == q2 * 256 + q1 % 256);
    assert(q2 == q3 * 256 + q2 % 256);
    assert(q3 < 256);
}

/// Reading a buffer that holds framed records, then `tail`, yields the
/// records, then whatever `tail` yields on its own at that position.
proof fn lemma_frames_then(buf: Seq<u8>, off: nat, ps: Seq<Seq<u8>>, tail: Seq<u8>)
    requires
        off <= buf.len(),
        buf.subrange(off as int, buf.len() as int) == encode_frames(ps) + tail,
        forall|i: int| 0 <= i < ps.len() ==> ps[i].len() < 0x8000_0000,
    ensures
        frames_from(buf, off) == all_ok(ps) + frames_from(
            buf,
            (off + encode_frames(ps).len()) as nat,
        ),
        off + encode_frames(ps).len() + tail.len() == buf.len(),
    decreases ps.len(),
{
    let enc = encode_frames(ps);
    assert(buf.subrange(off as int, buf.len() as int).len() == enc.len() + tail.len());
    if ps.len() == 0 {
        assert(all_ok(ps) =~= seq![]);
        assert(all_ok(ps) + frames_from(buf, off) =~= frames_from(buf, off));
    } else {
        let p = ps[0];
        let rest_ps = ps.drop_first();
        let rest_enc = encode_frames(rest_ps);
        lemma_be_round_trip(p.len() as int);
        let head = encode_frame(p);
        assert(enc == head + rest_enc);
        let window = buf.subrange(off as int, buf.len() as int);
        assert(window == head + (rest_enc + tail)) by {
            assert(head + rest_enc + tail =~= head + (rest_enc + tail));
        }
        assert(buf.subrange(off as int, off as int + 4) =~= be_bytes(p.len() as int)) by {
            assert forall|i: int| 0 <= i < 4 implies #[trigger] buf.subrange(
                off as int,
                off as int + 4,
            )[i] == be_bytes(p.len() as int)[i] by {
                assert(buf[off + i] == window[i]);
                assert(window[i] == head[i]);
            }
        }
        assert(declared_length(buf, off as int) == p.len());
        let next = (off + 4 + p.len()) as nat;
        assert(buf.subrange(off as int + 4, next as int) =~= p) by {
            assert forall|i: int| 0 <= i < p.len() implies #[trigger] buf.subrange(
                off as int + 4,
                next as int,
            )[i] == p[i] by {
                assert(buf[off + 4 + i] == window[4 + i]);
                assert(window[4 + i] == head[4 + i]);
            }
        }
        assert(buf.subrange(next as int, buf.len() as int) =~= rest_enc + tail) by {
            assert forall|i: int| 0 <= i < buf.len() - next implies #[trigger] buf.subrange(
                next as int,
                buf.len() as int,
            )[i] == (rest_enc + tail)[i] by {
                assert(buf[next + i] == window[4 + p.len() + i]);
                assert(window[4 + p.len() + i] == (rest_enc + tail)[i]);
            }
        }
        assert forall|i: int| 0 <= i < rest_ps.len() implies #[trigger] rest_ps[i].len()
            < 0x8000_0000 by {
            assert(rest_ps[i] == ps[i + 1]);
        }
        lemma_frames_then(buf, next, rest_ps, tail);
        assert(frames_from(buf, off) == seq![Ok(p)] + frames_from(buf, next));
        assert(all_ok(ps) =~= seq![Ok(p)] + all_ok(rest_ps));
        assert(next + rest_enc.len() == off + enc.len());
        assert(frames_from(buf, off) =~= all_ok(ps) + frames_from(
            buf,
            (off + enc.len()) as nat,
        ));
    }
}

/// Framing round trip: reading the concatenation of framed records yields
/// exactly those records, in order, and nothing else.
pub proof fn lemma_round_trip(ps: Seq<Seq<u8>>)
    requires
        forall|i: int| 0 <= i < ps.len() ==> ps[i].len() < 0x8000_0000,
    ensures
        frames_from(encode_frames(ps), 0) == all_ok(ps),
{
    let buf = encode_frames(ps);
    assert(buf.subrange(0, buf.len() as int) == buf + seq![]) by {
        assert(buf.subrange(0, buf.len() as int) =~= buf + seq![]);
    }
    lemma_frames_then(buf, 0, ps, seq![]);
    assert(all_ok(ps) + seq![] =~= all_ok(ps));
}

/// Truncated length prefix: one to three bytes after the last whole record
/// yield the records, then a single error that no bytes remain for a length,
/// and no record for those bytes.
pub proof fn lemma_truncated_length(ps: Seq<Seq<u8>>, tail: Seq<u8>)
    requires
        forall|i: int| 0 <= i < ps.len() ==> ps[i].len() < 0x8000_0000,
        0 < tail.len() < 4,
    ensures
        frames_from(encode_frames(ps) + tail, 0) == all_ok(ps).push(
            Err(
                FrameError::InsufficientLengthBytes {
                    offset: encode_frames(ps).len() as usize,
                    remaining: tail.len() as usize,
                },
            ),
        ),
{
    let buf = encode_frames(ps) + tail;
    assert(buf.subrange(0, buf.len() as int) =~= buf);
    lemma_frames_then(buf, 0, ps, tail);
    assert(all_ok(ps) + frames_from(buf, encode_frames(ps).len()) =~= all_ok(ps).push(
        Err(
            FrameError::InsufficientLengthBytes {
                offset: encode_frames(ps).len() as usize,
                remaining: tail.len() as usize,
            },
        ),
    ));
}

/// Oversized length: a length prefix that is negative or exceeds the bytes
/// after it yields the records before it, then a single error, and ends the
/// sequence.
pub proof fn lemma_oversized_length(ps: Seq<Seq<u8>>, prefix: Seq<u8>, rest: Seq<u8>)
    requires
        forall|i: int| 0 <= i < ps.len() ==> ps[i].len() < 0x8000_0000,
        prefix.len() == 4,
        declared_length(prefix, 0) < 0 || declared_length(prefix, 0) > rest.len(),
    ensures
        frames_from(encode_frames(ps) + prefix + rest, 0) == all_ok(ps).push(
            Err(
                FrameError::LengthExceedsBuffer {
                    offset: encode_frames(ps).len() as usize,
                    declared: declared_length(prefix, 0) as i64,
                    remaining: rest.len() as usize,
                },
            ),
        ),
{
    let enc = encode_frames(ps);
    let buf = enc + prefix + rest;
    let tail = prefix + rest;
    assert(buf.subrange(0, buf.len() as int) =~= enc + tail);
    lemma_frames_then(buf, 0, ps, tail);
    assert(buf.subrange(enc.len() as int, enc.len() as int + 4) =~= prefix.subrange(0, 4));
    assert(declared_length(buf, enc.len() as int) == declared_length(prefix, 0));
    assert(all_ok(ps) + frames_from(buf, enc.len()) =~= all_ok(ps).push(
        Err(
            FrameError::LengthExceedsBuffer {
                offset: enc.len() as usize,
                declared: declared_length(prefix, 0) as i64,
                remaining: rest.len() as usize,
            },
        ),
    ));
}

} // verus!
