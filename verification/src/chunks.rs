//! Cutting a file's bytes into fixed-size chunks, and putting the
//! bytes back together from an ordered chunk sequence.
//!
//! A file of `len` bytes becomes `ceil(len / FILE_BLOC_SIZE)` chunks
//! (one empty chunk for an empty file). Exactly the final chunk
//! carries the last flag, and only it may carry fewer than
//! [`FILE_BLOC_SIZE`] payload bytes.

use vstd::prelude::*;

use crate::codec::zeros;
use crate::packet::{FilePacket, FilePacketView};
use crate::proto::FILE_BLOC_SIZE;

verus! {

/// Number of chunks a file of `len` bytes is cut into.
pub open spec fn spec_num_chunks(len: int) -> int {
    if len <= 0 {
        1
    } else {
        (len + FILE_BLOC_SIZE - 1) / (FILE_BLOC_SIZE as int)
    }
}

/// First byte position covered by chunk `i`.
pub open spec fn spec_chunk_start(i: int) -> int {
    i * (FILE_BLOC_SIZE as int)
}

/// The payload bytes chunk `i` carries: the `i`-th window of the
/// content, short only at the end of the file.
pub open spec fn spec_chunk_payload(content: Seq<u8>, i: int) -> Seq<u8> {
    let start = spec_chunk_start(i);
    let end = if content.len() < start + FILE_BLOC_SIZE {
        content.len() as int
    } else {
        start + FILE_BLOC_SIZE
    };
    content.subrange(start, end)
}

/// Chunk `i` of the content, its payload right-padded with zero bytes
/// to the fixed buffer width.
pub open spec fn spec_chunk_at(content: Seq<u8>, i: int) -> FilePacketView {
    let payload = spec_chunk_payload(content, i);
    FilePacketView {
        index: i as u64,
        is_last: i == spec_num_chunks(content.len() as int) - 1,
        data_size: payload.len() as usize,
        data: payload + zeros(FILE_BLOC_SIZE - payload.len()),
    }
}

/// The ordered chunk sequence a file of these bytes is sent as.
pub open spec fn spec_chunks(content: Seq<u8>) -> Seq<FilePacketView> {
    Seq::new(spec_num_chunks(content.len() as int) as nat, |i| spec_chunk_at(content, i))
}

/// The views of a vector of chunks.
pub open spec fn views_of(s: Seq<FilePacket>) -> Seq<FilePacketView> {
    s.map_values(|p: FilePacket| p@)
}

/// The bytes written by a receiver that appends each chunk's payload
/// in order.
pub open spec fn spec_reassemble(cs: Seq<FilePacketView>) -> Seq<u8>
    decreases cs.len(),
{
    if cs.len() == 0 {
        Seq::empty()
    } else {
        cs[0].payload() + spec_reassemble(cs.drop_first())
    }
}

/// Bounds of the chunk count: at least one chunk, the last one
/// starting before the end of the content, together covering it.
pub proof fn lemma_num_chunks_bounds(len: int)
    requires
        len >= 0,
    ensures
        spec_num_chunks(len) >= 1,
        len <= spec_num_chunks(len) * (FILE_BLOC_SIZE as int),
        len > 0 ==> (spec_num_chunks(len) - 1) * (FILE_BLOC_SIZE as int) < len,
        len == 0 ==> spec_num_chunks(len) == 1,
{
    if len > 0 {
        let d: int = FILE_BLOC_SIZE as int;
        vstd::arithmetic::div_mod::lemma_fundamental_div_mod(len + d - 1, d);
        vstd::arithmetic::div_mod::lemma_mod_bound(len + d - 1, d);
    }
}

/// One more full block means exactly one more chunk.
pub proof fn lemma_num_chunks_step(len: int)
    requires
        len > FILE_BLOC_SIZE,
    ensures
        spec_num_chunks(len) == 1 + spec_num_chunks(len - FILE_BLOC_SIZE),
{
    let d: int = FILE_BLOC_SIZE as int;
    vstd::arithmetic::div_mod::lemma_div_plus_one(len - 1, d);
}

/// Shape of the chunk sequence: one chunk per window, indices in
/// order with no gaps, the last flag on exactly the final chunk, a
/// full payload everywhere but possibly the end, and an empty final
/// chunk only for an empty file.
pub proof fn lemma_chunk_shape(content: Seq<u8>)
    requires
        content.len() <= usize::MAX,
    ensures
        spec_chunks(content).len() == spec_num_chunks(content.len() as int),
        forall|i: int| 0 <= i < spec_chunks(content).len() ==> (#[trigger] spec_chunks(
            content,
        )[i]).wf(),
        forall|i: int| 0 <= i < spec_chunks(content).len() ==> (#[trigger] spec_chunks(
            content,
        )[i]).index == i,
        forall|i: int| 0 <= i < spec_chunks(content).len() ==> ((#[trigger] spec_chunks(
            content,
        )[i]).is_last <==> i == spec_chunks(content).len() - 1),
        forall|i: int| 0 <= i < spec_chunks(content).len() ==> (#[trigger] spec_chunks(
            content,
        )[i]).payload() == spec_chunk_payload(content, i),
        forall|i: int| 0 <= i < spec_chunks(content).len() - 1 ==> (#[trigger] spec_chunks(
            content,
        )[i]).data_size == FILE_BLOC_SIZE,
        content.len() > 0 ==> spec_chunks(content).last().data_size == content.len() - (
        spec_chunks(content).len() - 1) * (FILE_BLOC_SIZE as int),
        content.len() == 0 ==> spec_chunks(content) =~= seq![spec_chunk_at(content, 0)]
            && spec_chunks(content)[0].data_size == 0 && spec_chunks(content)[0].is_last,
{
    let len: int = content.len() as int;
    let d: int = FILE_BLOC_SIZE as int;
    let n: int = spec_num_chunks(len);
    lemma_num_chunks_bounds(len);
    assert forall|i: int| 0 <= i < n implies {
        &&& (#[trigger] spec_chunks(content)[i]).wf()
        &&& spec_chunks(content)[i].index == i
        &&& (spec_chunks(content)[i].is_last <==> i == n - 1)
        &&& spec_chunks(content)[i].payload() == spec_chunk_payload(content, i)
        &&& (i < n - 1 ==> spec_chunks(content)[i].data_size == FILE_BLOC_SIZE)
    } by {
        let start: int = spec_chunk_start(i);
        assert(start == i * d);
        assert(i * d <= (n - 1) * d) by {
            vstd::arithmetic::mul::lemma_mul_inequality(i, n - 1, d);
        }
        let payload = spec_chunk_payload(content, i);
        assert(payload.len() <= d);
        assert(spec_chunks(content)[i].payload() =~= payload);
        if i < n - 1 {
            assert((i + 1) * d <= (n - 1) * d) by {
                vstd::arithmetic::mul::lemma_mul_inequality(i + 1, n - 1, d);
            }
            assert((i + 1) * d == i * d + d) by {
                vstd::arithmetic::mul::lemma_mul_is_distributive_add_other_way(d, i, 1);
            }
            assert(payload.len() == d);
        }
    }
    if len > 0 {
        assert((n - 1) * d == n * d - d) by {
            vstd::arithmetic::mul::lemma_mul_is_distributive_sub_other_way(d, n, 1);
        }
    }
}

/// Appending one chunk to a sequence appends its payload to the
/// reassembled bytes.
pub proof fn lemma_reassemble_push(cs: Seq<FilePacketView>, c: FilePacketView)
    ensures
        spec_reassemble(cs.push(c)) == spec_reassemble(cs) + c.payload(),
    decreases cs.len(),
{
    if cs.len() == 0 {
        assert(cs.push(c)[0] == c);
        assert(cs.push(c).drop_first() =~= Seq::<FilePacketView>::empty());
        assert(spec_reassemble(Seq::<FilePacketView>::empty()) == Seq::<u8>::empty());
        assert(spec_reassemble(cs.push(c)) == c.payload() + Seq::<u8>::empty());
        assert(c.payload() + Seq::<u8>::empty() =~= c.payload());
        assert(spec_reassemble(cs) + c.payload() =~= c.payload());
    } else {
        assert(cs.push(c).drop_first() =~= cs.drop_first().push(c));
        lemma_reassemble_push(cs.drop_first(), c);
        assert(cs.push(c)[0] == cs[0]);
        assert(spec_reassemble(cs.push(c)) == cs[0].payload() + spec_reassemble(
            cs.drop_first().push(c),
        ));
        assert(spec_reassemble(cs) == cs[0].payload() + spec_reassemble(cs.drop_first()));
        assert(cs[0].payload() + (spec_reassemble(cs.drop_first()) + c.payload()) =~= (
        cs[0].payload() + spec_reassemble(cs.drop_first())) + c.payload());
    }
}

/// Reassembly reads only the payloads: chunk sequences with equal
/// payloads reassemble to the same bytes.
pub proof fn lemma_reassemble_congruence(a: Seq<FilePacketView>, b: Seq<FilePacketView>)
    requires
        a.len() == b.len(),
        forall|i: int| 0 <= i < a.len() ==> (#[trigger] a[i]).payload() == b[i].payload(),
    ensures
        spec_reassemble(a) == spec_reassemble(b),
    decreases a.len(),
{
    if a.len() > 0 {
        lemma_reassemble_congruence(a.drop_first(), b.drop_first());
        assert(a[0].payload() == b[0].payload());
    }
}

/// Reassembling the chunk sequence of a file reproduces the file's
/// bytes exactly.
pub proof fn lemma_reassemble_chunks(content: Seq<u8>)
    requires
        content.len() <= usize::MAX,
    ensures
        spec_reassemble(spec_chunks(content)) == content,
    decreases content.len(),
{
    let len: int = content.len() as int;
    let d: int = FILE_BLOC_SIZE as int;
    let n: int = spec_num_chunks(len);
    lemma_num_chunks_bounds(len);
    lemma_chunk_shape(content);
    if len <= d {
        assert(n == 1) by {
            if len > 0 {
                vstd::arithmetic::div_mod::lemma_basic_div(len - 1, d);
                vstd::arithmetic::div_mod::lemma_div_plus_one(len - 1, d);
            }
        }
        assert(spec_chunks(content).drop_first() =~= Seq::<FilePacketView>::empty());
        assert(spec_reassemble(Seq::<FilePacketView>::empty()) == Seq::<u8>::empty());
        assert(spec_reassemble(spec_chunks(content)) == spec_chunks(content)[0].payload()
            + Seq::<u8>::empty());
        assert(spec_chunks(content)[0].payload() == spec_chunk_payload(content, 0));
        assert(spec_chunk_payload(content, 0) =~= content);
        assert(content + Seq::<u8>::empty() =~= content);
    } else {
        let tail = content.skip(d);
        lemma_num_chunks_step(len);
        lemma_chunk_shape(tail);
        let rest = spec_chunks(content).drop_first();
        let tchunks = spec_chunks(tail);
        assert forall|i: int| 0 <= i < rest.len() implies (#[trigger] rest[i]).payload()
            == tchunks[i].payload() by {
            assert(rest[i] == spec_chunk_at(content, i + 1));
            assert(spec_chunks(content)[i + 1].payload() == spec_chunk_payload(content, i + 1));
            assert(tchunks[i].payload() == spec_chunk_payload(tail, i));
            assert((i + 1) * d == i * d + d) by {
                vstd::arithmetic::mul::lemma_mul_is_distributive_add_other_way(d, i, 1);
            }
            assert(spec_chunk_payload(content, i + 1) =~= spec_chunk_payload(tail, i));
        }
        lemma_reassemble_congruence(rest, tchunks);
        lemma_reassemble_chunks(tail);
        assert(spec_reassemble(spec_chunks(content)) == spec_chunks(content)[0].payload()
            + spec_reassemble(rest));
        assert(spec_chunks(content)[0].payload() == spec_chunk_payload(content, 0));
        assert(spec_chunk_payload(content, 0) =~= content.take(d));
        assert(content.take(d) + content.skip(d) =~= content);
    }
}

/// Cuts the content into its chunk sequence.
pub fn chunk_file(content: &Vec<u8>) -> (r: Vec<FilePacket>)
    ensures
        views_of(r@) == spec_chunks(content@),
        r@.len() == spec_num_chunks(content@.len() as int),
        r@.len() >= 1,
        forall|i: int| 0 <= i < r@.len() ==> (#[trigger] r@[i])@.wf(),
{
    let len: usize = content.len();
    let n: usize = if len == 0 {
        1
    } else {
        (len - 1) / FILE_BLOC_SIZE + 1
    };
    proof {
        lemma_num_chunks_bounds(len as int);
        if len > 0 {
            vstd::arithmetic::div_mod::lemma_div_plus_one(len - 1, FILE_BLOC_SIZE as int);
        }
        assert(n == spec_num_chunks(len as int));
    }
    let mut r: Vec<FilePacket> = Vec::new();
    let mut i: usize = 0;
    let mut start: usize = 0;
    while i < n
        invariant
            content@.len() == len,
            n == spec_num_chunks(len as int),
            n * (FILE_BLOC_SIZE as int) >= len,
            len > 0 ==> (n - 1) * (FILE_BLOC_SIZE as int) < len,
            i <= n,
            i < n ==> start == spec_chunk_start(i as int),
            i == n ==> start == len,
            start <= len,
            r@.len() == i,
            views_of(r@) == spec_chunks(content@).take(i as int),
            forall|k: int| 0 <= k < r@.len() ==> (#[trigger] r@[k])@.wf(),
        decreases n - i,
    {
        let ghost d: int = FILE_BLOC_SIZE as int;
        proof {
            assert((i + 1) * d == i * d + d) by {
                vstd::arithmetic::mul::lemma_mul_is_distributive_add_other_way(d, i as int, 1);
            }
            assert((i + 1) * d <= n * d) by {
                vstd::arithmetic::mul::lemma_mul_inequality(i + 1, n as int, d);
            }
        }
        let end: usize = if len - start < FILE_BLOC_SIZE {
            len
        } else {
            start + FILE_BLOC_SIZE
        };
        let mut data: Vec<u8> = Vec::new();
        let mut j: usize = start;
        while j < end
            invariant
                start <= j <= end <= content@.len(),
                data@ == content@.subrange(start as int, j as int),
            decreases end - j,
        {
            data.push(content[j]);
            proof {
                assert(content@.subrange(start as int, j + 1) =~= content@.subrange(
                    start as int,
                    j as int,
                ).push(content@[j as int]));
            }
            j = j + 1;
        }
        let data_size: usize = end - start;
        crate::codec::pad_zeros(&mut data, FILE_BLOC_SIZE);
        let p = FilePacket { index: i as u64, is_last: i == n - 1, data_size, data };
        proof {
            assert(spec_chunk_payload(content@, i as int) =~= content@.subrange(
                start as int,
                end as int,
            ));
            assert(p@.data =~= spec_chunk_at(content@, i as int).data);
            assert(p@ == spec_chunk_at(content@, i as int));
            assert(views_of(r@.push(p)) =~= views_of(r@).push(p@));
            assert(spec_chunks(content@).take(i + 1) =~= spec_chunks(content@).take(
                i as int,
            ).push(spec_chunk_at(content@, i as int)));
        }
        r.push(p);
        i = i + 1;
        start = end;
    }
    proof {
        assert(spec_chunks(content@).take(n as int) =~= spec_chunks(content@));
    }
    r
}

/// Appends each chunk's payload in order, as the receive path writes
/// it to the destination file.
pub fn reassemble(chunks: &Vec<FilePacket>) -> (r: Vec<u8>)
    requires
        forall|i: int| 0 <= i < chunks@.len() ==> (#[trigger] chunks@[i])@.wf(),
    ensures
        r@ == spec_reassemble(views_of(chunks@)),
{
    let mut r: Vec<u8> = Vec::new();
    let mut i: usize = 0;
    while i < chunks.len()
        invariant
            forall|k: int| 0 <= k < chunks@.len() ==> (#[trigger] chunks@[k])@.wf(),
            i <= chunks@.len(),
            r@ == spec_reassemble(views_of(chunks@).take(i as int)),
        decreases chunks@.len() - i,
    {
        let c = &chunks[i];
        let mut j: usize = 0;
        while j < c.data_size
            invariant
                c@.wf(),
                j <= c.data_size,
                c == chunks@[i as int],
                i < chunks@.len(),
                r@ == spec_reassemble(views_of(chunks@).take(i as int)) + c@.data.take(j as int),
            decreases c.data_size - j,
        {
            r.push(c.data[j]);
            proof {
                assert(c@.data.take(j + 1) =~= c@.data.take(j as int).push(c@.data[j as int]));
            }
            j = j + 1;
        }
        proof {
            assert(views_of(chunks@).take(i + 1) =~= views_of(chunks@).take(i as int).push(
                chunks@[i as int]@,
            ));
            lemma_reassemble_push(views_of(chunks@).take(i as int), chunks@[i as int]@);
            assert(c@.payload() == c@.data.take(c@.data_size as int));
        }
        i = i + 1;
    }
    proof {
        assert(views_of(chunks@).take(chunks@.len() as int) =~= views_of(chunks@));
        assert(r@ =~= spec_reassemble(views_of(chunks@)));
    }
    r
}

} // verus!
