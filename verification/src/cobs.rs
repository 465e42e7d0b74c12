//! Byte unstuffer: COBS-style decoding of a stuffed frame body, in place.
//!
//! A stuffed body is a sequence of blocks. Each block starts with a
//! non-zero length code `code`; the `code - 1` bytes after it are copied
//! verbatim, and a zero byte (removed during encoding) is reinserted after
//! the block unless the code was `0xFF` or the input is exhausted.

use vstd::prelude::*;

use crate::frame::SerialFrameError;

verus! {

/// What decoding a stuffed body yields: the decoded bytes, or the first
/// stuffing error met reading left to right.
pub open spec fn cobs_decode_spec(s: Seq<u8>) -> Result<Seq<u8>, SerialFrameError>
    decreases s.len(),
{
    if s.len() == 0 {
        Ok(Seq::empty())
    } else {
        let code = s[0];
        if code == 0 {
            Err(SerialFrameError::CobsZeroByte)
        } else if s.len() < code as int {
            Err(SerialFrameError::CobsUnexpectedEof)
        } else {
            let block = s.subrange(1, code as int);
            let rest = s.subrange(code as int, s.len() as int);
            match cobs_decode_spec(rest) {
                Ok(d) => {
                    if code != 0xFF && rest.len() > 0 {
                        Ok(block + seq![0u8] + d)
                    } else {
                        Ok(block + d)
                    }
                },
                Err(e) => Err(e),
            }
        }
    }
}

/// The stuffed form of a body that holds no zero byte and fits in a single
/// block: a length code followed by the body verbatim.
pub open spec fn cobs_encode_single(body: Seq<u8>) -> Seq<u8> {
    seq![(body.len() + 1) as u8] + body
}

/// Law: decoding the stuffed form of a zero-free body of fewer than 254
/// bytes returns that body unchanged.
pub proof fn lemma_cobs_round_trip(body: Seq<u8>)
    requires
        body.len() < 254,
        forall|i: int| 0 <= i < body.len() ==> body[i] != 0,
    ensures
        cobs_decode_spec(cobs_encode_single(body)) == Ok::<Seq<u8>, SerialFrameError>(body),
{
    let s = cobs_encode_single(body);
    let code = s[0];
    assert(code == (body.len() + 1) as u8);
    assert(s.len() == code as int);
    let block = s.subrange(1, code as int);
    let rest = s.subrange(code as int, s.len() as int);
    assert(rest =~= Seq::<u8>::empty());
    assert(cobs_decode_spec(rest) == Ok::<Seq<u8>, SerialFrameError>(Seq::empty()));
    assert(block + Seq::<u8>::empty() =~= body);
}

/// Law: a length-code byte of zero is refused at once.
pub proof fn lemma_cobs_zero_code(s: Seq<u8>)
    requires
        s.len() > 0,
        s[0] == 0,
    ensures
        cobs_decode_spec(s) == Err::<Seq<u8>, SerialFrameError>(SerialFrameError::CobsZeroByte),
{
}

/// Law: input that ends before a block's promised bytes is refused.
pub proof fn lemma_cobs_truncated(s: Seq<u8>)
    requires
        s.len() > 0,
        s[0] != 0,
        s.len() < s[0] as int,
    ensures
        cobs_decode_spec(s) == Err::<Seq<u8>, SerialFrameError>(
            SerialFrameError::CobsUnexpectedEof,
        ),
{
}

/// Decodes the stuffed body held in `buf`, in place: the decoded bytes end
/// up in `buf[..w]` for the returned length `w`, and the bytes past `w` are
/// left unspecified.
pub fn cobs_decode_in_place(buf: &mut Vec<u8>) -> (r: Result<usize, SerialFrameError>)
    ensures
        final(buf)@.len() == old(buf)@.len(),
        match r {
            Ok(w) => {
                &&& cobs_decode_spec(old(buf)@) matches Ok(d)
                &&& w <= old(buf)@.len()
                &&& d.len() == w
                &&& final(buf)@.subrange(0, w as int) == d
            },
            Err(e) => cobs_decode_spec(old(buf)@) == Err::<Seq<u8>, SerialFrameError>(e),
        },
{
    let ghost s = buf@;
    let n = buf.len();
    let mut read_index: usize = 0;
    let mut write_index: usize = 0;

    proof {
        assert(s.subrange(0, n as int) =~= s);
        let res0 = cobs_decode_spec(s);
        if res0 is Ok {
            assert(buf@.subrange(0, 0) + res0->Ok_0 =~= res0->Ok_0);
        }
    }
    while read_index < n
        invariant
            s == old(buf)@,
            n == s.len(),
            buf@.len() == n,
            write_index <= read_index <= n,
            forall|j: int| read_index <= j < n ==> buf@[j] == s[j],
            cobs_decode_spec(s) == match cobs_decode_spec(
                s.subrange(read_index as int, n as int),
            ) {
                Ok(d) => Ok::<Seq<u8>, SerialFrameError>(buf@.subrange(0, write_index as int) + d),
                Err(e) => Err::<Seq<u8>, SerialFrameError>(e),
            },
        decreases n - read_index,
    {
        let ghost suffix = s.subrange(read_index as int, n as int);
        let code = buf[read_index];
        assert(code == suffix[0]);
        if code == 0 {
            return Err(SerialFrameError::CobsZeroByte);
        }
        if n - read_index < code as usize {
            assert(suffix.len() < code as int);
            return Err(SerialFrameError::CobsUnexpectedEof);
        }
        let ghost w0 = write_index as int;
        let ghost r0 = read_index as int;
        let ghost prefix0 = buf@.subrange(0, w0);
        let end = read_index + code as usize;
        read_index = read_index + 1;
        while read_index < end
            invariant
                s == old(buf)@,
                n == s.len(),
                buf@.len() == n,
                0 <= w0 <= r0,
                r0 + 1 <= read_index as int <= end,
                end == r0 + code,
                end <= n,
                write_index as int == w0 + (read_index as int - r0 - 1),
                prefix0.len() == w0,
                forall|j: int| read_index <= j < n ==> buf@[j] == s[j],
                forall|j: int| 0 <= j < w0 ==> buf@[j] == prefix0[j],
                forall|j: int| w0 <= j < write_index as int ==> buf@[j] == s[r0 + 1 + (j - w0)],
            decreases end - read_index,
        {
            let b = buf[read_index];
            assert(b == s[read_index as int]);
            buf.set(write_index, b);
            write_index = write_index + 1;
            read_index = read_index + 1;
        }
        if code != 0xFF && read_index < n {
            buf.set(write_index, 0);
            write_index = write_index + 1;
        }
        proof {
            let tail = s.subrange(r0, n as int);
            let block = tail.subrange(1, code as int);
            let rest = tail.subrange(code as int, tail.len() as int);
            assert(block =~= s.subrange(r0 + 1, r0 + code));
            assert(rest =~= s.subrange(r0 + code, n as int));
            assert(tail[0] == code);
            let resr = cobs_decode_spec(rest);
            if code != 0xFF && rest.len() > 0 {
                assert(cobs_decode_spec(tail) == match resr {
                    Ok(d) => Ok::<Seq<u8>, SerialFrameError>(block + seq![0u8] + d),
                    Err(e) => Err::<Seq<u8>, SerialFrameError>(e),
                });
                assert(buf@.subrange(0, write_index as int) =~= prefix0 + block + seq![0u8]);
                if resr is Ok {
                    let d = resr->Ok_0;
                    assert((prefix0 + block + seq![0u8]) + d =~= prefix0 + (block + seq![0u8]
                        + d));
                }
            } else {
                assert(cobs_decode_spec(tail) == match resr {
                    Ok(d) => Ok::<Seq<u8>, SerialFrameError>(block + d),
                    Err(e) => Err::<Seq<u8>, SerialFrameError>(e),
                });
                assert(buf@.subrange(0, write_index as int) =~= prefix0 + block);
                if resr is Ok {
                    let d = resr->Ok_0;
                    assert((prefix0 + block) + d =~= prefix0 + (block + d));
                }
            }
        }
    }
    proof {
        assert(s.subrange(n as int, n as int) =~= Seq::<u8>::empty());
        assert(cobs_decode_spec(s.subrange(n as int, n as int)) == Ok::<Seq<u8>, SerialFrameError>(
            Seq::empty(),
        ));
        assert(buf@.subrange(0, write_index as int) + Seq::<u8>::empty() =~= buf@.subrange(
            0,
            write_index as int,
        ));
    }
    Ok(write_index)
}

} // verus!
