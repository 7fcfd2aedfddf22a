//! Line-ending normalisation of text transfers: every CR LF pair of the
//! stream becomes one LF, also where the pair is cut by a block boundary.

use vstd::prelude::*;

verus! {

pub const CR: u8 = 13;

pub const LF: u8 = 10;

/// `s` with every CR LF pair replaced by a single LF.
pub open spec fn normalize(s: Seq<u8>) -> Seq<u8>
    decreases s.len(),
{
    if s.len() == 0 {
        s
    } else if s.len() >= 2 && s[0] == CR && s[1] == LF {
        seq![LF] + normalize(s.skip(2))
    } else {
        seq![s[0]] + normalize(s.skip(1))
    }
}

/// What a chunk stands for once a CR held back from the chunk before it is
/// put in front again.
pub open spec fn chunk_input(carry: bool, chunk: Seq<u8>) -> Seq<u8> {
    if carry {
        seq![CR] + chunk
    } else {
        chunk
    }
}

/// A chunk that is not the last holds its final CR back: the LF that would
/// pair with it may open the next chunk.
pub open spec fn holds_back(carry: bool, chunk: Seq<u8>, last: bool) -> bool {
    let input = chunk_input(carry, chunk);
    !last && input.len() > 0 && input.last() == CR
}

/// The normalised bytes that one chunk contributes to the stream.
pub open spec fn chunk_output(carry: bool, chunk: Seq<u8>, last: bool) -> Seq<u8> {
    let input = chunk_input(carry, chunk);
    if holds_back(carry, chunk, last) {
        normalize(input.drop_last())
    } else {
        normalize(input)
    }
}

/// What a run of chunks contributes, the last of them closing the stream.
pub open spec fn stream_output(carry: bool, chunks: Seq<Seq<u8>>) -> Seq<u8>
    decreases chunks.len(),
{
    if chunks.len() == 0 {
        chunk_input(carry, Seq::empty())
    } else {
        let last = chunks.len() == 1;
        chunk_output(carry, chunks[0], last) + (if last {
            Seq::empty()
        } else {
            stream_output(holds_back(carry, chunks[0], last), chunks.drop_first())
        })
    }
}

/// The chunks of a stream put end to end.
pub open spec fn concat(chunks: Seq<Seq<u8>>) -> Seq<u8>
    decreases chunks.len(),
{
    if chunks.len() == 0 {
        Seq::empty()
    } else {
        chunks[0] + concat(chunks.drop_first())
    }
}

/// Normalisation can be done piece by piece wherever the cut does not
/// separate a CR from the LF after it.
pub proof fn lemma_normalize_split(x: Seq<u8>, y: Seq<u8>)
    requires
        !(x.len() > 0 && x.last() == CR && y.len() > 0 && y[0] == LF),
    ensures
        normalize(x + y) == normalize(x) + normalize(y),
    decreases x.len(),
{
    let s = x + y;
    if x.len() == 0 {
        assert(s =~= y);
        assert(normalize(x) + normalize(y) =~= normalize(y));
    } else if x.len() >= 2 && x[0] == CR && x[1] == LF {
        assert(s.skip(2) =~= x.skip(2) + y);
        if x.skip(2).len() > 0 {
            assert(x.skip(2).last() == x.last());
        }
        lemma_normalize_split(x.skip(2), y);
        assert(normalize(s) =~= normalize(x) + normalize(y));
    } else {
        assert(s[0] == x[0]);
        if x.len() == 1 {
            assert(!(s.len() >= 2 && s[0] == CR && s[1] == LF)) by {
                if s.len() >= 2 {
                    assert(s[1] == y[0]);
                }
            }
        } else {
            assert(s[1] == x[1]);
        }
        assert(s.skip(1) =~= x.skip(1) + y);
        if x.skip(1).len() > 0 {
            assert(x.skip(1).last() == x.last());
        }
        lemma_normalize_split(x.skip(1), y);
        assert(normalize(s) =~= normalize(x) + normalize(y));
    }
}

/// Short sequences normalise as one expects.
pub proof fn lemma_normalize_small(a: u8, b: u8)
    ensures
        normalize(Seq::<u8>::empty()) == Seq::<u8>::empty(),
        normalize(seq![a]) == seq![a],
        normalize(seq![CR, LF]) == seq![LF],
        !(a == CR && b == LF) ==> normalize(seq![a, b]) == seq![a, b],
{
    reveal_with_fuel(normalize, 3);
    assert(seq![a].skip(1) =~= Seq::<u8>::empty());
    assert(normalize(seq![a]) =~= seq![a]);
    assert(seq![CR, LF].skip(2) =~= Seq::<u8>::empty());
    assert(normalize(seq![CR, LF]) =~= seq![LF]);
    if !(a == CR && b == LF) {
        assert(seq![a, b].skip(1) =~= seq![b]);
        assert(normalize(seq![a, b]) =~= seq![a, b]);
    }
}

/// A chunk that is not the last can be normalised ahead of what follows
/// it: its contribution, then the normalised rest with the CR it may have
/// held back, is the normalised whole.
pub proof fn lemma_chunk_then_rest(carry: bool, chunk: Seq<u8>, rest: Seq<u8>)
    ensures
        chunk_output(carry, chunk, false) + normalize(
            chunk_input(holds_back(carry, chunk, false), rest),
        ) == normalize(chunk_input(carry, chunk + rest)),
{
    let input = chunk_input(carry, chunk);
    let whole = chunk_input(carry, chunk + rest);
    assert(whole =~= input + rest);
    if holds_back(carry, chunk, false) {
        let pre = input.drop_last();
        assert(whole =~= pre + (seq![CR] + rest));
        lemma_normalize_split(pre, seq![CR] + rest);
    } else {
        lemma_normalize_split(input, rest);
    }
}

/// Chunk by chunk gives what the whole gives: the contributions of the
/// chunks of a stream, put end to end, are the normalised stream.
pub proof fn lemma_stream_output(carry: bool, chunks: Seq<Seq<u8>>)
    ensures
        stream_output(carry, chunks) == normalize(chunk_input(carry, concat(chunks))),
    decreases chunks.len(),
{
    lemma_normalize_small(0, 0);
    if chunks.len() == 0 {
        if carry {
            lemma_normalize_small(CR, 0);
            assert(chunk_input(carry, Seq::empty()) =~= seq![CR]);
        }
    } else {
        let last = chunks.len() == 1;
        let input = chunk_input(carry, chunks[0]);
        let rest = chunks.drop_first();
        let whole = chunk_input(carry, concat(chunks));
        assert(whole =~= input + concat(rest));
        if last {
            assert(concat(rest) =~= Seq::<u8>::empty());
            assert(whole =~= input);
            assert(stream_output(carry, chunks) =~= normalize(input));
        } else {
            lemma_stream_output(holds_back(carry, chunks[0], last), rest);
            lemma_chunk_then_rest(carry, chunks[0], concat(rest));
        }
    }
}

/// Normalises one chunk of a stream. `carry` says that the chunk before
/// ended in a CR that was held back; `last` says that no chunk follows.
/// Returns what the chunk contributes and whether it holds a CR back.
pub fn normalize_chunk(carry: bool, chunk: &[u8], last: bool) -> (r: (Vec<u8>, bool))
    ensures
        r.0@ == chunk_output(carry, chunk@, last),
        r.1 == holds_back(carry, chunk@, last),
{
    let mut out: Vec<u8> = Vec::new();
    let mut pending: bool = carry;
    let mut i: usize = 0;
    proof {
        lemma_normalize_small(0, 0);
        assert(chunk@.take(0) =~= Seq::<u8>::empty());
        if carry {
            assert(chunk_input(carry, chunk@.take(0)).drop_last() =~= Seq::<u8>::empty());
        }
    }
    while i < chunk.len()
        invariant
            i <= chunk@.len(),
            pending <==> (chunk_input(carry, chunk@.take(i as int)).len() > 0 && chunk_input(
                carry,
                chunk@.take(i as int),
            ).last() == CR),
            out@ == normalize(
                if pending {
                    chunk_input(carry, chunk@.take(i as int)).drop_last()
                } else {
                    chunk_input(carry, chunk@.take(i as int))
                },
            ),
        decreases chunk@.len() - i,
    {
        let b = chunk[i];
        proof {
            let seen = chunk_input(carry, chunk@.take(i as int));
            let next = chunk_input(carry, chunk@.take(i + 1));
            assert(chunk@.take(i + 1) =~= chunk@.take(i as int).push(b));
            assert(next =~= seen.push(b));
            assert(next.drop_last() =~= seen);
            lemma_normalize_small(CR, b);
            lemma_normalize_small(b, 0);
            if pending {
                let pre = seen.drop_last();
                assert(seen =~= pre + seq![CR]);
                assert(next =~= pre + seq![CR, b]);
                lemma_normalize_split(pre, seq![CR, b]);
                lemma_normalize_split(pre, seq![CR]);
            } else {
                assert(next =~= seen + seq![b]);
                lemma_normalize_split(seen, seq![b]);
            }
        }
        if pending {
            if b == LF {
                out.push(LF);
                pending = false;
            } else if b == CR {
                out.push(CR);
            } else {
                out.push(CR);
                out.push(b);
                pending = false;
            }
        } else if b == CR {
            pending = true;
        } else {
            out.push(b);
        }
        i += 1;
    }
    proof {
        assert(chunk@.take(i as int) =~= chunk@);
        let input = chunk_input(carry, chunk@);
        if pending {
            let pre = input.drop_last();
            assert(input =~= pre + seq![CR]);
            lemma_normalize_split(pre, seq![CR]);
            lemma_normalize_small(CR, 0);
        }
    }
    if pending && last {
        out.push(CR);
        pending = false;
    }
    (out, pending)
}

} // verus!
