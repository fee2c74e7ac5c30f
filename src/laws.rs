//! What holds of whole transfers against a device that keeps what it is sent.
use vstd::prelude::*;

use crate::codec::{
    le_u16, le_u32, read_continue_frame, read_start_frame, u32_at, MAX_PAYLOAD,
};
use crate::responses::{fixed_fault, header_fault, ProtocolError, spec_payload, Body, FileChunk, RawDirEntry,
    WriteReceipt};
use crate::transfer::{chunk_at, chunk_end, list_fault, read_transition};

verus! {

/// What a device holds after it has appended the data of every chunk request
/// that a write sends from `offset` on.
pub open spec fn stored_from(data: Seq<u8>, offset: nat) -> Seq<u8>
    decreases data.len() - offset,
{
    if offset >= data.len() {
        Seq::empty()
    } else {
        chunk_at(data, offset) + stored_from(data, chunk_end(data.len(), offset))
    }
}

/// The chunk frame with which a device that holds `s` answers a read request
/// for `MAX_PAYLOAD` bytes at `offset`.
pub open spec fn chunk_reply(s: Seq<u8>, offset: nat) -> Seq<u8> {
    seq![0x11u8, 1u8, 0u8, 0u8] + le_u32(offset as u32) + le_u32(s.len() as u32) + le_u32(
        chunk_at(s, offset).len() as u32,
    ) + chunk_at(s, offset)
}

/// What a read ends with when a device that holds `s` answers each of its
/// requests, once it has received `contents`.
pub open spec fn read_from_device(s: Seq<u8>, contents: Seq<u8>) -> Result<
    Seq<u8>,
    ProtocolError,
>
    decreases s.len() - contents.len(),
{
    match read_transition(contents, chunk_reply(s, contents.len())) {
        Err(e) => Err(e),
        Ok((c, done)) => if done || c.len() <= contents.len() || c.len() > s.len() {
            Ok(c)
        } else {
            read_from_device(s, c)
        },
    }
}

proof fn lemma_u32_round(v: u32)
    ensures
        u32_at(le_u32(v), 0) == v,
{
    let b0 = v % 256;
    let b1 = (v / 256) % 256;
    let b2 = (v / 65536) % 256;
    let b3 = v / 16777216;
    assert(v == b0 + 256 * (v / 256));
    assert(v / 256 == b1 + 256 * (v / 65536));
    assert(v / 65536 == b2 + 256 * b3);
}

proof fn lemma_u32_in(pre: Seq<u8>, v: u32, post: Seq<u8>)
    ensures
        u32_at(pre + le_u32(v) + post, pre.len() as int) == v,
{
    let all = pre + le_u32(v) + post;
    let i = pre.len() as int;
    assert(all[i] == le_u32(v)[0]);
    assert(all[i + 1] == le_u32(v)[1]);
    assert(all[i + 2] == le_u32(v)[2]);
    assert(all[i + 3] == le_u32(v)[3]);
    lemma_u32_round(v);
}

/// Every chunk request that a write sends, appended in turn, is the data from
/// `offset` on.
pub proof fn lemma_chunks_cover(data: Seq<u8>, offset: nat)
    requires
        offset <= data.len(),
    ensures
        stored_from(data, offset) == data.subrange(offset as int, data.len() as int),
    decreases data.len() - offset,
{
    if offset < data.len() {
        let end = chunk_end(data.len(), offset);
        lemma_chunks_cover(data, end);
        assert(data.subrange(offset as int, end as int) + data.subrange(end as int, data.len() as int)
            =~= data.subrange(offset as int, data.len() as int));
    } else {
        assert(data.subrange(offset as int, data.len() as int) =~= Seq::<u8>::empty());
    }
}

/// A device that holds `s` and answers each read request with the chunk at the
/// requested offset brings a read that has received the first `offset` bytes
/// to an end with exactly `s`.
pub proof fn lemma_read_from_device(s: Seq<u8>, offset: nat)
    requires
        s.len() <= u32::MAX,
        offset <= s.len(),
    ensures
        read_from_device(s, s.take(offset as int)) == Ok::<Seq<u8>, ProtocolError>(s),
    decreases s.len() - offset,
{
    let contents = s.take(offset as int);
    let chunk = chunk_at(s, offset);
    let end = chunk_end(s.len(), offset);
    let head = seq![0x11u8, 1u8, 0u8, 0u8];
    let reply = chunk_reply(s, offset);
    assert(contents.len() == offset);
    assert(chunk.len() == end - offset);
    assert(reply == head + le_u32(offset as u32) + (le_u32(s.len() as u32) + le_u32(
        chunk.len() as u32,
    ) + chunk)) by {
        assert(reply =~= head + le_u32(offset as u32) + (le_u32(s.len() as u32) + le_u32(
            chunk.len() as u32,
        ) + chunk));
    }
    lemma_u32_in(head, offset as u32, le_u32(s.len() as u32) + le_u32(chunk.len() as u32) + chunk);
    assert(reply == (head + le_u32(offset as u32)) + le_u32(s.len() as u32) + (le_u32(
        chunk.len() as u32,
    ) + chunk)) by {
        assert(reply =~= (head + le_u32(offset as u32)) + le_u32(s.len() as u32) + (le_u32(
            chunk.len() as u32,
        ) + chunk));
    }
    lemma_u32_in(head + le_u32(offset as u32), s.len() as u32, le_u32(chunk.len() as u32) + chunk);
    assert(reply == (head + le_u32(offset as u32) + le_u32(s.len() as u32)) + le_u32(
        chunk.len() as u32,
    ) + chunk) by {
        assert(reply =~= (head + le_u32(offset as u32) + le_u32(s.len() as u32)) + le_u32(
            chunk.len() as u32,
        ) + chunk);
    }
    lemma_u32_in(
        head + le_u32(offset as u32) + le_u32(s.len() as u32),
        chunk.len() as u32,
        chunk,
    );
    assert(reply.len() == 16 + chunk.len());
    assert(header_fault::<FileChunk>(reply) is None);
    assert(spec_payload::<FileChunk>(reply) =~= chunk);
    let parsed = FileChunk::spec_parse(reply);
    assert(parsed.offset == offset);
    assert(parsed.total_len == s.len());
    assert(parsed.current_len == chunk.len());
    assert(contents + chunk =~= s.take(end as int));
    if end < s.len() {
        lemma_read_from_device(s, end);
    } else {
        assert(s.take(end as int) =~= s);
    }
}

/// Reading a file back from a device that kept every chunk of a write of
/// `data` returns exactly `data`.
pub proof fn lemma_round_trip(data: Seq<u8>)
    requires
        data.len() <= u32::MAX,
    ensures
        read_from_device(stored_from(data, 0), Seq::empty()) == Ok::<
            Seq<u8>,
            ProtocolError,
        >(data),
{
    lemma_chunks_cover(data, 0);
    assert(data.subrange(0, data.len() as int) =~= data);
    lemma_read_from_device(data, 0);
    assert(data.take(0) =~= Seq::<u8>::empty());
}

/// No chunk request of a write carries more than `MAX_PAYLOAD` bytes of data,
/// and no read request asks for more than `MAX_PAYLOAD` bytes.
pub proof fn lemma_chunk_ceiling(data: Seq<u8>, offset: nat, path: Seq<u8>, read_offset: u32)
    requires
        offset <= data.len(),
    ensures
        chunk_at(data, offset).len() <= MAX_PAYLOAD,
        u32_at(read_start_frame(path), 8) == MAX_PAYLOAD,
        u32_at(read_continue_frame(read_offset), 8) == MAX_PAYLOAD,
{
    let start = read_start_frame(path);
    let pre = seq![0x10u8, 0u8] + le_u16(path.len() as u16) + le_u32(0);
    assert(start =~= pre + le_u32(MAX_PAYLOAD) + path);
    lemma_u32_in(pre, MAX_PAYLOAD, path);
    let cont = read_continue_frame(read_offset);
    let pre2 = seq![0x12u8, 1u8, 0u8, 0u8] + le_u32(read_offset);
    assert(cont =~= pre2 + le_u32(MAX_PAYLOAD) + Seq::<u8>::empty());
    lemma_u32_in(pre2, MAX_PAYLOAD, Seq::<u8>::empty());
}

/// A status byte other than 1, a wrong command byte, or a chunk whose declared
/// length differs from the data that follows it makes the read fail.
pub proof fn lemma_read_violations(contents: Seq<u8>, frame: Seq<u8>)
    requires
        frame.len() < 16 || frame[0] != 0x11 || frame[1] != 1
            || FileChunk::spec_parse(frame).current_len != spec_payload::<FileChunk>(frame).len(),
    ensures
        read_transition(contents, frame) is Err,
{
}

/// A directory entry frame with a status other than 1 or a wrong command byte
/// makes the listing fail; a write receipt with either fault makes the write fail.
pub proof fn lemma_receipt_violations(received: nat, frame: Seq<u8>)
    requires
        frame.len() < 2 || frame[0] != 0x51 || frame[1] != 1,
    ensures
        list_fault(received, frame) is Some,
        frame.len() < 2 || frame[0] != 0x21 || frame[1] != 1 ==> fixed_fault::<WriteReceipt>(
            frame,
        ) is Some,
{
}

/// A read ends exactly when the bytes received add up to the total length
/// that the last chunk announced, and then holds those bytes in order.
pub proof fn lemma_read_completion(contents: Seq<u8>, frame: Seq<u8>)
    requires
        read_transition(contents, frame) is Ok,
    ensures
        ({
            let (c, done) = read_transition(contents, frame)->Ok_0;
            &&& c == contents + spec_payload::<FileChunk>(frame)
            &&& done <==> c.len() == FileChunk::spec_parse(frame).total_len
            &&& c.len() <= FileChunk::spec_parse(frame).total_len
        }),
{
}

/// A listing accepts an entry only when its number equals the count of entries
/// received before it, and ends exactly on the entry whose number equals the
/// entry count.
pub proof fn lemma_list_order(received: nat, frame: Seq<u8>)
    requires
        list_fault(received, frame) is None,
    ensures
        RawDirEntry::spec_parse(frame).entry_number == received,
        RawDirEntry::spec_parse(frame).path_len == spec_payload::<RawDirEntry>(frame).len(),
{
}

/// A reply whose command byte is right and whose status is not 1 is refused
/// with that raw status, whatever its length.
pub proof fn lemma_status_kept<T: Body>(frame: Seq<u8>)
    requires
        frame.len() >= 2,
        frame[0] == T::spec_command(),
        frame[1] != 1,
    ensures
        header_fault::<T>(frame) == Some(ProtocolError::BadStatus(frame[1] as i8)),
        fixed_fault::<T>(frame) == Some(ProtocolError::BadStatus(frame[1] as i8)),
{
}

/// The offsets of the chunk requests that a write at `offset` sends as it
/// answers `receipts` in turn, one step of `WriteFile::on_receipt` each, and
/// how it ends: `None` while more receipts are awaited. The request sent at
/// offset `o` is `write_chunk_frame(o, chunk_at(data, o))`.
pub open spec fn write_run(data: Seq<u8>, offset: nat, receipts: Seq<Seq<u8>>) -> (
    Seq<nat>,
    Option<Result<(), ProtocolError>>,
)
    decreases receipts.len(),
{
    if receipts.len() == 0 {
        (Seq::empty(), None)
    } else if fixed_fault::<WriteReceipt>(receipts[0]) is Some {
        (Seq::empty(), Some(Err(fixed_fault::<WriteReceipt>(receipts[0])->Some_0)))
    } else if offset >= data.len() {
        (Seq::empty(), Some(Ok(())))
    } else {
        let rest = write_run(data, chunk_end(data.len(), offset), receipts.drop_first());
        (seq![offset] + rest.0, rest.1)
    }
}

proof fn lemma_write_run_from(data: Seq<u8>, j: nat, receipts: Seq<Seq<u8>>)
    requires
        231 * j <= data.len(),
        receipts.len() >= 1,
        231 * (j + receipts.len() - 1) >= data.len(),
        forall|i: int|
            0 <= i < receipts.len() ==> #[trigger] fixed_fault::<WriteReceipt>(receipts[i]) is None,
    ensures
        ({
            let (offs, end) = write_run(data, (231 * j) as nat, receipts);
            &&& end == Some(Ok::<(), ProtocolError>(()))
            &&& 231 * (j + offs.len()) >= data.len()
            &&& forall|k: int|
                #![trigger offs[k]]
                0 <= k < offs.len() ==> offs[k] == 231 * (j + k) && offs[k] < data.len()
        }),
    decreases receipts.len(),
{
    let o = (231 * j) as nat;
    assert(fixed_fault::<WriteReceipt>(receipts[0]) is None);
    if o < data.len() {
        let end = chunk_end(data.len(), o);
        let rest_receipts = receipts.drop_first();
        assert forall|i: int| 0 <= i < rest_receipts.len() implies #[trigger] fixed_fault::<
            WriteReceipt,
        >(rest_receipts[i]) is None by {
            assert(rest_receipts[i] == receipts[i + 1]);
        }
        if 231 * (j + 1) >= data.len() {
            assert(end == data.len());
            assert(fixed_fault::<WriteReceipt>(rest_receipts[0]) is None);
            assert(write_run(data, end, rest_receipts).0 =~= Seq::<nat>::empty());
        } else {
            assert(end == 231 * (j + 1));
            lemma_write_run_from(data, j + 1, rest_receipts);
        }
        let offs = write_run(data, o, receipts).0;
        let rest = write_run(data, end, rest_receipts);
        assert(offs == seq![o] + rest.0);
        assert forall|k: int| 0 <= k < offs.len() implies offs[k] == 231 * (j + k) && offs[k]
            < data.len() by {
            if k > 0 {
                assert(offs[k] == rest.0[k - 1]);
            }
        }
    }
}

/// A write of `data` answered by well-formed receipts sends exactly one chunk
/// request per `MAX_PAYLOAD` bytes, in order: request `k` is sent at offset
/// `MAX_PAYLOAD * k` and carries between 1 and `MAX_PAYLOAD` bytes of data
/// from there. It then ends successfully on the next receipt.
pub proof fn lemma_write_requests(data: Seq<u8>, receipts: Seq<Seq<u8>>)
    requires
        receipts.len() >= 1,
        231 * (receipts.len() - 1) >= data.len(),
        forall|i: int|
            0 <= i < receipts.len() ==> #[trigger] fixed_fault::<WriteReceipt>(receipts[i]) is None,
    ensures
        ({
            let (offs, end) = write_run(data, 0, receipts);
            &&& end == Some(Ok::<(), ProtocolError>(()))
            &&& MAX_PAYLOAD * offs.len() >= data.len()
            &&& forall|k: int|
                #![trigger offs[k]]
                0 <= k < offs.len() ==> offs[k] == MAX_PAYLOAD * k && offs[k] < data.len() && 0
                    < chunk_at(data, offs[k]).len() <= MAX_PAYLOAD
        }),
{
    lemma_write_run_from(data, 0, receipts);
    let offs = write_run(data, 0, receipts).0;
    assert(MAX_PAYLOAD * offs.len() == 231 * (0 + offs.len()));
    assert forall|k: int| 0 <= k < offs.len() implies offs[k] == MAX_PAYLOAD * k && offs[k]
        < data.len() && 0 < chunk_at(data, offs[k]).len() <= MAX_PAYLOAD by {
        assert(231 * (0 + k) == MAX_PAYLOAD * k);
    }
}

/// A write stops at the first receipt that is at fault, with that fault and
/// without sending anything for it; it sends at most one request per receipt.
pub proof fn lemma_write_stops_at_fault(data: Seq<u8>, offset: nat, receipts: Seq<Seq<u8>>)
    ensures
        ({
            let (offs, end) = write_run(data, offset, receipts);
            &&& offs.len() <= receipts.len()
            &&& end is Some ==> offs.len() < receipts.len()
            &&& end matches Some(Err(e)) ==> fixed_fault::<WriteReceipt>(receipts[offs.len() as int])
                == Some(e)
        }),
    decreases receipts.len(),
{
    if receipts.len() > 0 && fixed_fault::<WriteReceipt>(receipts[0]) is None && offset < data.len() {
        let rest_receipts = receipts.drop_first();
        lemma_write_stops_at_fault(data, chunk_end(data.len(), offset), rest_receipts);
        let rest = write_run(data, chunk_end(data.len(), offset), rest_receipts);
        let offs = write_run(data, offset, receipts).0;
        assert(offs.len() == rest.0.len() + 1);
        if rest.1 is Some {
            assert(rest_receipts[rest.0.len() as int] == receipts[offs.len() as int]);
        }
    }
}

/// The offsets of the continuation requests that a read with `contents` sends
/// as it takes `frames` in turn, one step of `ReadFile::on_frame` each, and how
/// it ends: `None` while more chunks are awaited. The request sent at offset
/// `o` is `read_continue_frame(o)`.
pub open spec fn read_run(contents: Seq<u8>, frames: Seq<Seq<u8>>) -> (
    Seq<nat>,
    Option<Result<Seq<u8>, ProtocolError>>,
)
    decreases frames.len(),
{
    if frames.len() == 0 {
        (Seq::empty(), None)
    } else {
        match read_transition(contents, frames[0]) {
            Err(e) => (Seq::empty(), Some(Err(e))),
            Ok((c, done)) => if done {
                (Seq::empty(), Some(Ok(c)))
            } else {
                let rest = read_run(c, frames.drop_first());
                (seq![c.len()] + rest.0, rest.1)
            },
        }
    }
}

/// The sum of the `current_len` fields of the first `n` chunk frames.
pub open spec fn chunk_lens(frames: Seq<Seq<u8>>, n: nat) -> nat
    decreases n,
{
    if n == 0 || frames.len() == 0 {
        0
    } else {
        (FileChunk::spec_parse(frames[0]).current_len + chunk_lens(frames.drop_first(), (n - 1) as nat)) as nat
    }
}

/// Over a whole read: continuation request `j` is sent at the offset that the
/// chunks so far add up to, and only while that is short of the announced
/// total; the read stops at the first chunk at fault, sending nothing more,
/// or at the first chunk that completes it, with as many bytes as that chunk
/// announced in total: the data of all the chunks taken, in order.
#[verifier::rlimit(50)]
pub proof fn lemma_read_requests(contents: Seq<u8>, frames: Seq<Seq<u8>>)
    ensures
        ({
            let (offs, end) = read_run(contents, frames);
            &&& offs.len() <= frames.len()
            &&& forall|j: int|
                #![trigger offs[j]]
                0 <= j < offs.len() ==> offs[j] == contents.len() + chunk_lens(frames, (j + 1) as nat)
                    && offs[j] < FileChunk::spec_parse(frames[j]).total_len
            &&& end is Some ==> offs.len() < frames.len()
            &&& end matches Some(Err(e)) ==> read_transition(
                contents + frames_payloads(frames, offs.len()),
                frames[offs.len() as int],
            ) == Err::<(Seq<u8>, bool), ProtocolError>(e)
            &&& end matches Some(Ok(v)) ==> v.len() == FileChunk::spec_parse(
                frames[offs.len() as int],
            ).total_len && v == contents + frames_payloads(frames, offs.len() + 1)
        }),
    decreases frames.len(),
{
    if frames.len() > 0 {
        let f0 = frames[0];
        assert(contents + frames_payloads(frames, 0) =~= contents);
        if let Ok((c, done)) = read_transition(contents, f0) {
            assert(c == contents + spec_payload::<FileChunk>(f0));
            assert(frames_payloads(frames.drop_first(), 0) =~= Seq::<u8>::empty());
            assert(frames_payloads(frames, 1) == spec_payload::<FileChunk>(f0) + frames_payloads(
                frames.drop_first(),
                0,
            ));
            if done {
                assert(contents + frames_payloads(frames, 1) =~= c);
            } else {
                let rest_frames = frames.drop_first();
                lemma_read_requests(c, rest_frames);
                let rest = read_run(c, rest_frames);
                let offs = read_run(contents, frames).0;
                assert(offs == seq![c.len()] + rest.0);
                assert(chunk_lens(rest_frames, 0) == 0);
                assert forall|j: int| 0 <= j < offs.len() implies offs[j] == contents.len()
                    + chunk_lens(frames, (j + 1) as nat) && offs[j] < FileChunk::spec_parse(
                    frames[j],
                ).total_len by {
                    if j > 0 {
                        assert(offs[j] == rest.0[j - 1]);
                        assert(frames[j] == rest_frames[j - 1]);
                    }
                }
                if rest.1 is Some {
                    let n = rest.0.len();
                    assert(frames[offs.len() as int] == rest_frames[n as int]);
                    assert(frames_payloads(frames, n + 1) == spec_payload::<FileChunk>(f0)
                        + frames_payloads(rest_frames, n));
                    assert(contents + frames_payloads(frames, n + 1) =~= c + frames_payloads(
                        rest_frames,
                        n,
                    ));
                    assert(frames_payloads(frames, n + 2) == spec_payload::<FileChunk>(f0)
                        + frames_payloads(rest_frames, n + 1));
                    assert(contents + frames_payloads(frames, n + 2) =~= c + frames_payloads(
                        rest_frames,
                        n + 1,
                    ));
                }
            }
        }
    }
}

/// The data bytes of the first `n` chunk frames, in order.
pub open spec fn frames_payloads(frames: Seq<Seq<u8>>, n: nat) -> Seq<u8>
    decreases n,
{
    if n == 0 || frames.len() == 0 {
        Seq::empty()
    } else {
        spec_payload::<FileChunk>(frames[0]) + frames_payloads(frames.drop_first(), (n - 1) as nat)
    }
}

/// How many of `frames` a listing that has received `received` entries takes,
/// one step of `ListDir::on_frame` each, and how it ends: `None` while more
/// entries are awaited.
pub open spec fn list_run(received: nat, frames: Seq<Seq<u8>>) -> (
    nat,
    Option<Result<(), ProtocolError>>,
)
    decreases frames.len(),
{
    if frames.len() == 0 {
        (0, None)
    } else if list_fault(received, frames[0]) is Some {
        (1, Some(Err(list_fault(received, frames[0])->Some_0)))
    } else if RawDirEntry::spec_parse(frames[0]).entry_number == RawDirEntry::spec_parse(
        frames[0],
    ).entry_count {
        (1, Some(Ok(())))
    } else {
        let rest = list_run(received + 1, frames.drop_first());
        (rest.0 + 1, rest.1)
    }
}

/// Over a whole listing: it takes at most one frame after the last accepted
/// one, and stops there with that frame's fault if it has one. When it ends
/// successfully after `k` frames, frame `i` carries entry number
/// `received + i`, no frame before the last has its number equal to the entry
/// count, and the last one does.
pub proof fn lemma_list_run_order(received: nat, frames: Seq<Seq<u8>>)
    ensures
        ({
            let (k, end) = list_run(received, frames);
            &&& k <= frames.len()
            &&& end is Some ==> k >= 1
            &&& end matches Some(Err(e)) ==> list_fault((received + k - 1) as nat, frames[k - 1])
                == Some(e)
            &&& end == Some(Ok::<(), ProtocolError>(())) ==> {
                &&& forall|i: int|
                    #![trigger frames[i]]
                    0 <= i < k ==> RawDirEntry::spec_parse(frames[i]).entry_number == received + i
                &&& forall|i: int|
                    #![trigger frames[i]]
                    0 <= i < k - 1 ==> RawDirEntry::spec_parse(frames[i]).entry_number
                        != RawDirEntry::spec_parse(frames[i]).entry_count
                &&& RawDirEntry::spec_parse(frames[k - 1]).entry_number == RawDirEntry::spec_parse(
                    frames[k - 1],
                ).entry_count
            }
        }),
    decreases frames.len(),
{
    if frames.len() > 0 && list_fault(received, frames[0]) is None
        && RawDirEntry::spec_parse(frames[0]).entry_number != RawDirEntry::spec_parse(
        frames[0],
    ).entry_count {
        let rest_frames = frames.drop_first();
        lemma_list_run_order(received + 1, rest_frames);
        let (k, end) = list_run(received, frames);
        if end is Some {
            assert(frames[k - 1] == rest_frames[k - 2]);
        }
        if end == Some(Ok::<(), ProtocolError>(())) {
            assert forall|i: int| 0 <= i < k implies #[trigger] RawDirEntry::spec_parse(
                frames[i],
            ).entry_number == received + i by {
                if i > 0 {
                    assert(frames[i] == rest_frames[i - 1]);
                }
            }
            assert forall|i: int| 0 <= i < k - 1 implies #[trigger] RawDirEntry::spec_parse(
                frames[i],
            ).entry_number != RawDirEntry::spec_parse(frames[i]).entry_count by {
                if i > 0 {
                    assert(frames[i] == rest_frames[i - 1]);
                }
            }
            assert(frames[k - 1] == rest_frames[k - 2]);
        }
    }
}

} // verus!
