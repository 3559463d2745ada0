//! Consistent Overhead Byte Stuffing (COBS).
//!
//! COBS removes all `0x00` bytes from a payload so that `0x00` can be used as
//! an unambiguous frame delimiter on byte-stream transports. These functions
//! write into caller-provided buffers and never allocate or panic;
//! insufficient buffers return [`CobsError`].
use vstd::prelude::*;

verus! {

/// Errors from COBS encode/decode.
#[derive(Debug, Clone, Copy, PartialEq, Eq, Structural)]
pub enum CobsError {
    /// Output buffer is too small for the result.
    OutputTooSmall,
    /// Encoded input ended in the middle of a block.
    Truncated,
    /// A `0x00` byte appeared where a block code was expected.
    UnexpectedZero,
}

/// The bound `n + n / 254 + 1` on the encoded size of `n` bytes.
pub open spec fn spec_max_encoded_len(n: int) -> int {
    n + n / 254 + 1
}

/// Maximum number of bytes [`encode`] can produce for `n` input bytes,
/// excluding the trailing delimiter.
pub fn max_encoded_len(n: usize) -> (r: usize)
    requires
        spec_max_encoded_len(n as int) <= usize::MAX,
    ensures
        r == spec_max_encoded_len(n as int),
{
    n + n / 254 + 1
}

/// Encoding of `s` when the block under construction already holds the
/// non-zero bytes `run` (fewer than 254 of them).
pub open spec fn cobs_enc(s: Seq<u8>, run: Seq<u8>) -> Seq<u8>
    decreases s.len(),
{
    if s.len() == 0 {
        seq![(run.len() + 1) as u8] + run
    } else if s[0] == 0 {
        seq![(run.len() + 1) as u8] + run + cobs_enc(s.drop_first(), Seq::empty())
    } else if run.len() + 1 == 254 {
        seq![0xFFu8] + run.push(s[0]) + cobs_enc(s.drop_first(), Seq::empty())
    } else {
        cobs_enc(s.drop_first(), run.push(s[0]))
    }
}

/// The COBS encoding of `s` (without the trailing delimiter).
pub open spec fn spec_cobs_encode(s: Seq<u8>) -> Seq<u8> {
    cobs_enc(s, Seq::empty())
}

/// What the decoder produces from `s`: the decoded bytes written before it
/// stopped, and the error that stopped it (`None` when all of `s` decoded).
pub open spec fn cobs_scan(s: Seq<u8>) -> (Seq<u8>, Option<CobsError>)
    decreases s.len(),
{
    if s.len() == 0 {
        (Seq::empty(), None)
    } else if s[0] == 0 {
        (Seq::empty(), Some(CobsError::UnexpectedZero))
    } else if s.len() - 1 < s[0] - 1 {
        (s.skip(1), Some(CobsError::Truncated))
    } else {
        let bl = s[0] - 1;
        let block = s.subrange(1, bl + 1);
        let rest = s.skip(bl + 1);
        let sep = if s[0] != 0xFF && rest.len() > 0 {
            seq![0u8]
        } else {
            Seq::<u8>::empty()
        };
        (block + sep + cobs_scan(rest).0, cobs_scan(rest).1)
    }
}

/// Result of decoding `s` into a buffer of `cap` bytes.
pub open spec fn spec_cobs_decode(s: Seq<u8>, cap: int) -> Result<Seq<u8>, CobsError> {
    if cobs_scan(s).0.len() > cap {
        Err(CobsError::OutputTooSmall)
    } else if cobs_scan(s).1 is Some {
        Err(cobs_scan(s).1.unwrap())
    } else {
        Ok(cobs_scan(s).0)
    }
}

/// True when no byte of `s` is zero.
pub open spec fn no_zero(s: Seq<u8>) -> bool {
    forall|j: int| 0 <= j < s.len() ==> s[j] != 0
}

proof fn lemma_enc_len(s: Seq<u8>, run: Seq<u8>)
    requires
        run.len() < 254,
    ensures
        cobs_enc(s, run).len() >= s.len() + run.len() + 1,
        cobs_enc(s, run).len() <= s.len() + run.len() + 1 + (s.len() + run.len()) / 254,
    decreases s.len(),
{
    if s.len() > 0 {
        if s[0] == 0 {
            lemma_enc_len(s.drop_first(), Seq::empty());
        } else if run.len() + 1 == 254 {
            lemma_enc_len(s.drop_first(), Seq::empty());
        } else {
            lemma_enc_len(s.drop_first(), run.push(s[0]));
        }
    }
}

proof fn lemma_enc_no_zero(s: Seq<u8>, run: Seq<u8>)
    requires
        run.len() < 254,
        no_zero(run),
    ensures
        no_zero(cobs_enc(s, run)),
    decreases s.len(),
{
    if s.len() == 0 {
        assert(no_zero(cobs_enc(s, run))) by {
            let e = cobs_enc(s, run);
            assert forall|j: int| 0 <= j < e.len() implies e[j] != 0 by {
                if j > 0 {
                    assert(e[j] == run[j - 1]);
                }
            }
        }
    } else if s[0] == 0 {
        lemma_enc_no_zero(s.drop_first(), Seq::empty());
        let head = seq![(run.len() + 1) as u8] + run;
        let tail = cobs_enc(s.drop_first(), Seq::empty());
        assert(cobs_enc(s, run) == head + tail);
        assert forall|j: int| 0 <= j < head.len() + tail.len() implies (head + tail)[j] != 0 by {
            if j >= head.len() {
                assert((head + tail)[j] == tail[j - head.len()]);
            } else if j > 0 {
                assert(head[j] == run[j - 1]);
            }
        }
    } else if run.len() + 1 == 254 {
        lemma_enc_no_zero(s.drop_first(), Seq::empty());
        let r2 = run.push(s[0]);
        let head = seq![0xFFu8] + r2;
        let tail = cobs_enc(s.drop_first(), Seq::empty());
        assert(cobs_enc(s, run) == head + tail);
        assert forall|j: int| 0 <= j < head.len() + tail.len() implies (head + tail)[j] != 0 by {
            if j >= head.len() {
                assert((head + tail)[j] == tail[j - head.len()]);
            } else if j > 0 {
                assert(head[j] == r2[j - 1]);
            }
        }
    } else {
        let r2 = run.push(s[0]);
        assert(no_zero(r2)) by {
            assert forall|j: int| 0 <= j < r2.len() implies r2[j] != 0 by {
                if j < run.len() {
                    assert(r2[j] == run[j]);
                }
            }
        }
        lemma_enc_no_zero(s.drop_first(), r2);
    }
}

proof fn lemma_scan_enc(s: Seq<u8>, run: Seq<u8>)
    requires
        run.len() < 254,
    ensures
        cobs_scan(cobs_enc(s, run)) == (run + s, Option::<CobsError>::None),
    decreases s.len(),
{
    let e = cobs_enc(s, run);
    let empty = Seq::<u8>::empty();
    if s.len() == 0 {
        let head = seq![(run.len() + 1) as u8] + run;
        assert(e == head);
        assert(e[0] == run.len() + 1);
        assert(e.subrange(1, run.len() + 1 as int) =~= run);
        assert(e.skip(run.len() + 1 as int) =~= empty);
        assert(cobs_scan(empty) == (empty, Option::<CobsError>::None));
        assert(run + empty + empty =~= run);
        assert(run + s =~= run);
    } else if s[0] == 0 {
        let tail = cobs_enc(s.drop_first(), empty);
        lemma_scan_enc(s.drop_first(), empty);
        lemma_enc_len(s.drop_first(), empty);
        let head = seq![(run.len() + 1) as u8] + run;
        assert(e == head + tail);
        assert(e[0] == run.len() + 1);
        assert(e.subrange(1, run.len() + 1 as int) =~= run);
        assert(e.skip(run.len() + 1 as int) =~= tail);
        assert(empty + s.drop_first() =~= s.drop_first());
        assert(cobs_scan(tail) == (s.drop_first(), Option::<CobsError>::None));
        assert(run + seq![0u8] + s.drop_first() =~= run + s);
    } else if run.len() + 1 == 254 {
        let tail = cobs_enc(s.drop_first(), empty);
        lemma_scan_enc(s.drop_first(), empty);
        let r2 = run.push(s[0]);
        let head = seq![0xFFu8] + r2;
        assert(e == head + tail);
        assert(e[0] == 0xFF);
        assert(e.subrange(1, 255) =~= r2);
        assert(e.skip(255) =~= tail);
        assert(empty + s.drop_first() =~= s.drop_first());
        assert(cobs_scan(tail) == (s.drop_first(), Option::<CobsError>::None));
        assert(r2 + empty + s.drop_first() =~= run + s);
    } else {
        lemma_scan_enc(s.drop_first(), run.push(s[0]));
        assert(run.push(s[0]) + s.drop_first() =~= run + s);
    }
}

/// Decoding the encoding of any byte string gives it back, and the encoding
/// holds no zero byte (so the `0x00` delimiter is unambiguous) and is no
/// longer than [`max_encoded_len`].
pub proof fn lemma_cobs_round_trip(data: Seq<u8>)
    ensures
        cobs_scan(spec_cobs_encode(data)) == (data, Option::<CobsError>::None),
        no_zero(spec_cobs_encode(data)),
        spec_cobs_encode(data).len() <= spec_max_encoded_len(data.len() as int),
        spec_cobs_encode(data).len() >= data.len() + 1,
        forall|cap: int|
            cap >= data.len() ==> #[trigger] spec_cobs_decode(spec_cobs_encode(data), cap) == Ok::<
                Seq<u8>,
                CobsError,
            >(data),
{
    lemma_scan_enc(data, Seq::empty());
    assert(Seq::<u8>::empty() + data =~= data);
    lemma_enc_no_zero(data, Seq::empty());
    lemma_enc_len(data, Seq::empty());
}

/// Bounds-checked write that maps an out-of-range index to [`CobsError`].
fn set(buf: &mut [u8], index: usize, value: u8) -> (r: Result<(), CobsError>)
    ensures
        index < old(buf)@.len() ==> r is Ok && final(buf)@ == old(buf)@.update(index as int, value),
        index >= old(buf)@.len() ==> r == Err::<(), CobsError>(CobsError::OutputTooSmall)
            && final(buf)@ == old(buf)@,
{
    if index < buf.len() {
        buf[index] = value;
        Ok(())
    } else {
        Err(CobsError::OutputTooSmall)
    }
}

/// COBS-encode `input` into `output` (delimiter NOT appended).
///
/// Returns the number of bytes written; fails only when `output` is shorter
/// than [`max_encoded_len`] of the input length.
pub fn encode(input: &[u8], output: &mut [u8]) -> (r: Result<usize, CobsError>)
    ensures
        final(output)@.len() == old(output)@.len(),
        old(output)@.len() < spec_max_encoded_len(input@.len() as int) ==> r == Err::<
            usize,
            CobsError,
        >(CobsError::OutputTooSmall) && final(output)@ == old(output)@,
        old(output)@.len() >= spec_max_encoded_len(input@.len() as int) ==> r is Ok,
        r matches Ok(n) ==> {
            &&& n == spec_cobs_encode(input@).len()
            &&& final(output)@.take(n as int) == spec_cobs_encode(input@)
            &&& final(output)@.skip(n as int) == old(output)@.skip(n as int)
        },
{
    if output.len() < 1 || output.len() - 1 < input.len() / 254 || output.len() - 1
        - input.len() / 254 < input.len() {
        return Err(CobsError::OutputTooSmall);
    }
    proof {
        lemma_enc_len(input@, Seq::empty());
        assert(input@.skip(0) =~= input@);
        assert(output@.subrange(1, 1) =~= Seq::<u8>::empty());
        assert(output@.take(0) + cobs_enc(input@, output@.subrange(1, 1)) =~= spec_cobs_encode(
            input@,
        ));
    }
    let ghost total = spec_cobs_encode(input@);
    let out_len = output.len();
    let mut code_index = 0usize;
    let mut write = 1usize;
    let mut code: u8 = 1;
    let mut i: usize = 0;
    while i < input.len()
        invariant
            total == spec_cobs_encode(input@),
            total.len() <= output@.len(),
            output@.len() == old(output)@.len(),
            output@.len() == out_len,
            i <= input.len(),
            code_index < write,
            write <= output@.len(),
            code as int == write - code_index,
            1 <= code < 255,
            forall|j: int| write <= j < output@.len() ==> output@[j] == old(output)@[j],
            total == output@.take(code_index as int) + cobs_enc(
                input@.skip(i as int),
                output@.subrange(code_index + 1, write as int),
            ),
        decreases input.len() - i,
    {
        let ghost run = output@.subrange(code_index + 1, write as int);
        let ghost rest = input@.skip(i as int);
        let byte = input[i];
        proof {
            lemma_enc_len(rest, run);
            assert(rest[0] == byte);
            assert(rest.drop_first() =~= input@.skip(i + 1));
            assert(run.len() == write - code_index - 1);
            assert(total.len() == code_index + cobs_enc(rest, run).len());
            assert(write < output@.len());
        }
        if byte == 0 {
            let ghost before = output@;
            set(output, code_index, code)?;
            proof {
                assert(output@.take(code_index + 1) =~= before.take(code_index as int) + seq![
                    code,
                ]);
                assert(output@.subrange(code_index + 1, write as int) =~= run);
                assert(output@.take(write as int) =~= before.take(code_index as int) + seq![code]
                    + run);
            }
            code_index = write;
            write += 1;
            code = 1;
            proof {
                assert(output@.subrange(code_index + 1, write as int) =~= Seq::<u8>::empty());
                assert(total =~= output@.take(code_index as int) + cobs_enc(
                    input@.skip(i + 1),
                    output@.subrange(code_index + 1, write as int),
                ));
            }
        } else {
            let ghost before = output@;
            set(output, write, byte)?;
            write += 1;
            code += 1;
            proof {
                assert(output@.subrange(code_index + 1, write as int) =~= run.push(byte));
                assert(output@.take(code_index as int) =~= before.take(code_index as int));
            }
            if code == 0xFF {
                proof {
                    lemma_enc_len(rest.drop_first(), Seq::empty());
                    assert(cobs_enc(rest, run) == seq![0xFFu8] + run.push(byte) + cobs_enc(
                        rest.drop_first(),
                        Seq::empty(),
                    ));
                }
                let ghost before2 = output@;
                set(output, code_index, code)?;
                proof {
                    assert(output@.take(write as int) =~= before2.take(code_index as int) + seq![
                        0xFFu8,
                    ] + run.push(byte));
                }
                code_index = write;
                write += 1;
                code = 1;
                proof {
                    assert(output@.subrange(code_index + 1, write as int) =~= Seq::<
                        u8,
                    >::empty());
                    assert(total =~= output@.take(code_index as int) + cobs_enc(
                        input@.skip(i + 1),
                        output@.subrange(code_index + 1, write as int),
                    ));
                }
            } else {
                proof {
                    assert(total =~= output@.take(code_index as int) + cobs_enc(
                        input@.skip(i + 1),
                        output@.subrange(code_index + 1, write as int),
                    ));
                }
            }
        }
        i += 1;
    }
    let ghost run = output@.subrange(code_index + 1, write as int);
    let ghost before = output@;
    proof {
        assert(input@.skip(i as int) =~= Seq::<u8>::empty());
        assert(total == before.take(code_index as int) + seq![code] + run);
    }
    set(output, code_index, code)?;
    proof {
        assert(output@.take(write as int) =~= total);
        assert(output@.skip(write as int) =~= old(output)@.skip(write as int));
    }
    Ok(write)
}

proof fn lemma_scan_len(s: Seq<u8>)
    ensures
        cobs_scan(s).0.len() <= s.len(),
    decreases s.len(),
{
    if s.len() > 0 && s[0] != 0 && s.len() - 1 >= s[0] - 1 {
        lemma_scan_len(s.skip(s[0] - 1 + 1));
    }
}

/// COBS-decode `input` (with the trailing `0x00` delimiter already removed)
/// into `output`. Returns the number of decoded bytes.
pub fn decode(input: &[u8], output: &mut [u8]) -> (r: Result<usize, CobsError>)
    ensures
        final(output)@.len() == old(output)@.len(),
        match spec_cobs_decode(input@, old(output)@.len() as int) {
            Ok(d) => (r matches Ok(n) && n == d.len()),
            Err(e) => r == Err::<usize, CobsError>(e),
        },
        r is Ok ==> final(output)@ == cobs_scan(input@).0 + old(output)@.skip(
            cobs_scan(input@).0.len() as int,
        ),
{
    let ghost total = cobs_scan(input@);
    let mut read = 0usize;
    let mut write = 0usize;
    proof {
        assert(input@.skip(0) =~= input@);
        assert(output@.take(0) + cobs_scan(input@.skip(0)).0 =~= total.0);
    }
    while read < input.len()
        invariant
            total == cobs_scan(input@),
            read <= input.len(),
            output@.len() == old(output)@.len(),
            write <= output@.len(),
            total.0 == output@.take(write as int) + cobs_scan(input@.skip(read as int)).0,
            total.1 == cobs_scan(input@.skip(read as int)).1,
            forall|j: int| write <= j < output@.len() ==> output@[j] == old(output)@[j],
        decreases input.len() - read,
    {
        let ghost s = input@.skip(read as int);
        let code = input[read];
        assert(s[0] == code);
        if code == 0 {
            proof {
                lemma_scan_len(input@);
            }
            assert(total.1 == Some(CobsError::UnexpectedZero));
            assert(total.0 =~= output@.take(write as int));
            return Err(CobsError::UnexpectedZero);
        }
        read += 1;
        let block_len = (code - 1) as usize;
        let ghost read0 = read;
        let ghost write0 = write;
        let ghost out0 = output@;
        let mut i: usize = 0;
        while i < block_len
            invariant
                total == cobs_scan(input@),
                s == input@.skip(read0 - 1),
                s[0] == code,
                block_len == code - 1,
                read0 >= 1,
                read0 <= input.len(),
                i <= block_len,
                read == read0 + i,
                write == write0 + i,
                read <= input.len(),
                output@.len() == old(output)@.len(),
                write <= output@.len(),
                output@.take(write0 as int) == out0.take(write0 as int),
                output@.subrange(write0 as int, write as int) == input@.subrange(
                    read0 as int,
                    read as int,
                ),
                total.0 == out0.take(write0 as int) + cobs_scan(s).0,
                total.1 == cobs_scan(s).1,
                forall|j: int| write <= j < output@.len() ==> output@[j] == old(output)@[j],
            decreases block_len - i,
        {
            if read >= input.len() {
                // Truncated block: the decoder has copied every remaining byte.
                proof {
                    assert(s.skip(1) =~= input@.subrange(read0 as int, read as int));
                    assert(output@.take(write as int) =~= out0.take(write0 as int) + s.skip(1));
                    assert(total.0 =~= output@.take(write as int));
                }
                return Err(CobsError::Truncated);
            }
            let byte = input[read];
            if write >= output.len() {
                proof {
                    lemma_scan_len(s);
                    // The decoder would write beyond the buffer at `write`.
                    if s.len() - 1 < s[0] - 1 {
                        assert(cobs_scan(s).0 == s.skip(1));
                        assert(cobs_scan(s).0.len() > i);
                    } else {
                        let bl = s[0] - 1;
                        let rest = s.skip(bl + 1);
                        assert(cobs_scan(s).0.len() >= bl);
                    }
                    assert(total.0.len() > output@.len());
                }
                return Err(CobsError::OutputTooSmall);
            }
            output[write] = byte;
            proof {
                assert(output@.subrange(write0 as int, write + 1) =~= input@.subrange(
                    read0 as int,
                    read + 1,
                ));
                assert(output@.take(write0 as int) =~= out0.take(write0 as int));
            }
            read += 1;
            write += 1;
            i += 1;
        }
        let ghost rest = input@.skip(read as int);
        proof {
            assert(s.len() - 1 >= s[0] - 1);
            assert(s.subrange(1, block_len + 1) =~= input@.subrange(read0 as int, read as int));
            assert(s.skip(block_len + 1) =~= rest);
            assert(output@.take(write as int) =~= out0.take(write0 as int) + s.subrange(
                1,
                block_len + 1,
            ));
        }
        if code != 0xFF && read < input.len() {
            if write >= output.len() {
                proof {
                    assert(cobs_scan(s).0.len() >= block_len + 1);
                    assert(total.0.len() > output@.len());
                }
                return Err(CobsError::OutputTooSmall);
            }
            let ghost before = output@;
            output[write] = 0;
            write += 1;
            proof {
                assert(output@.take(write as int) =~= before.take((write - 1) as int) + seq![0u8]);
                assert(total.0 =~= output@.take(write as int) + cobs_scan(rest).0);
            }
        } else {
            proof {
                assert(total.0 =~= output@.take(write as int) + cobs_scan(rest).0);
            }
        }
    }
    proof {
        assert(input@.skip(read as int) =~= Seq::<u8>::empty());
        assert(total.0 =~= output@.take(write as int));
        assert(output@ =~= total.0 + old(output)@.skip(total.0.len() as int));
    }
    Ok(write)
}

} // verus!
