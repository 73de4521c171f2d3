//! What holds of a channel over several operations.
//!
//! The laws are stated over [`ChannelModel`], in the terms in which the
//! operations' own contracts describe what they do.

use vstd::prelude::*;
use crate::array::ArrayModel;
use crate::codec::{decoded, encoded, is_encoding_of, reads_back};
use crate::errors::ErrorModel;
use crate::ChannelModel;

verus! {

/// One operation on a channel.
pub enum ChannelEvent {
    /// A writer takes the write permit.
    AcquireWrite,
    /// A writer gives the write permit back.
    ReleaseWrite,
    /// A write whose encoding had this outcome.
    Write(Result<Seq<u8>, Seq<char>>),
    /// A reader tries to take a read permit.
    AcquireRead,
    /// A reader gives a read permit back.
    ReleaseRead,
    /// The segments are released.
    Release,
}

impl ChannelModel {
    /// The channel after one operation.
    pub open spec fn step(self, event: ChannelEvent) -> ChannelModel {
        match event {
            ChannelEvent::AcquireWrite => self.writing(),
            ChannelEvent::ReleaseWrite => self.write_done(),
            ChannelEvent::Write(outcome) => if self.is_open() {
                self.after_write(outcome)
            } else {
                self
            },
            ChannelEvent::AcquireRead => self.reading(),
            ChannelEvent::ReleaseRead => self.read_done(),
            ChannelEvent::Release => self.released(),
        }
    }

    /// The channel after a run of operations, the first of them first.
    pub open spec fn run(self, events: Seq<ChannelEvent>) -> ChannelModel
        decreases events.len(),
    {
        if events.len() == 0 {
            self
        } else {
            self.run(events.drop_last()).step(events.last())
        }
    }
}

/// Every operation keeps a well-formed channel well-formed and leaves its
/// size as it is.
pub proof fn lemma_step_keeps_size(pre: ChannelModel, event: ChannelEvent)
    requires
        pre.wf(),
    ensures
        pre.step(event).wf(),
        pre.step(event).size == pre.size,
{
    if let ChannelEvent::Write(outcome) = event {
        if pre.is_open() && pre.accepts(outcome) {
            let post = pre.after_write(outcome);
            assert forall|i: int| 0 <= i < post.segments.len() implies (
            #[trigger] post.segments[i]).bytes.len() == post.size by {
                if i != pre.active_index {
                    assert(post.segments[i] == pre.segments[i]);
                }
            }
        }
    }
}

/// The size of a channel is the same for as long as the channel lives:
/// whatever is done with it, the size is the one it was made with.
pub proof fn lemma_size_is_constant(pre: ChannelModel, events: Seq<ChannelEvent>)
    requires
        pre.wf(),
    ensures
        pre.run(events).wf(),
        pre.run(events).size == pre.size,
    decreases events.len(),
{
    if events.len() > 0 {
        lemma_size_is_constant(pre, events.drop_last());
        lemma_step_keeps_size(pre.run(events.drop_last()), events.last());
    }
}

/// A write that is taken puts its bytes into the segment that was active and
/// makes it the stable one; the other segment keeps what it held.
pub proof fn lemma_write_swaps(pre: ChannelModel, bytes: Seq<u8>)
    requires
        pre.wf(),
        pre.is_open(),
        bytes.len() == pre.size,
    ensures
        pre.after_write(Ok(bytes)).active_index == 1 - pre.active_index,
        pre.after_write(Ok(bytes)).stable_index() == pre.active_index,
        pre.after_write(Ok(bytes)).segments[pre.active_index as int].bytes == bytes,
        pre.after_write(Ok(bytes)).segments[pre.active_index as int].name
            == pre.segments[pre.active_index as int].name,
        pre.after_write(Ok(bytes)).segments[pre.stable_index()] == pre.segments[pre.stable_index()],
        pre.after_write(Ok(bytes)).stable_bytes() == bytes,
{
}

/// Writing an array whose encoding has the channel's size and then reading,
/// with no write in between, returns what the codec reads back from the
/// bytes it wrote: where the codec reads its own encoding of the array back,
/// the array itself.
///
/// That the codec does so is what [`crate::codec`] trusts of it; a call of
/// `read` gives it for the bytes at hand, see [`lemma_read_gives_back`].
pub proof fn lemma_round_trip(pre: ChannelModel, a: ArrayModel)
    requires
        pre.wf(),
        pre.is_open(),
        a.wf(),
        encoded(a) matches Ok(bytes) && bytes.len() == pre.size,
    ensures
        pre.write_result(encoded(a), a.data.len()) == Ok::<(), ErrorModel>(()),
        pre.after_write(encoded(a)).holds(a),
        pre.after_write(encoded(a)).read_outcome() == pre.after_write(encoded(a)).read_result(
            decoded(encoded(a)->Ok_0),
        ),
        reads_back(encoded(a)->Ok_0, decoded(encoded(a)->Ok_0)) ==> pre.after_write(
            encoded(a),
        ).read_outcome() == Ok::<ArrayModel, ErrorModel>(a),
{
    let bytes = encoded(a)->Ok_0;
    lemma_write_swaps(pre, bytes);
    assert(is_encoding_of(bytes, a));
}

/// A read that meets what `read` promises of the stable bytes returns the
/// array that the channel holds.
pub proof fn lemma_read_gives_back(
    channel: ChannelModel,
    a: ArrayModel,
    r: Result<ArrayModel, ErrorModel>,
)
    requires
        channel.holds(a),
        crate::gives_back(channel.stable_bytes(), r),
    ensures
        r == Ok::<ArrayModel, ErrorModel>(a),
{
}

/// A write whose encoding does not have the channel's size is refused as an
/// invalid size, with the size that was expected and the one that was met.
/// It changes nothing: a read afterwards returns what it returned before.
pub proof fn lemma_wrong_size_is_refused(pre: ChannelModel, bytes: Seq<u8>, count: nat)
    requires
        pre.wf(),
        pre.is_open(),
        pre.write_available,
        bytes.len() != pre.size,
    ensures
        pre.write_result(Ok(bytes), count) == Err::<(), ErrorModel>(
            ErrorModel::InvalidSize(pre.size, bytes.len()),
        ),
        pre.after_write(Ok(bytes)) == pre,
        pre.after_write(Ok(bytes)).read_outcome() == pre.read_outcome(),
{
}

/// A write whose encoding fails is refused with the codec's text, and
/// changes nothing either.
pub proof fn lemma_failed_encoding_is_refused(pre: ChannelModel, text: Seq<char>, count: nat)
    requires
        pre.wf(),
        pre.is_open(),
        pre.write_available,
    ensures
        pre.write_result(Err(text), count) == Err::<(), ErrorModel>(
            ErrorModel::SerializationError(text, pre.size, count),
        ),
        pre.after_write(Err(text)) == pre,
{
}

/// The two segments take turns. A fresh channel writes to segment 0. After
/// the first write its bytes are in segment 0, segment 1 is active, and a
/// read is of segment 0. After the second write its bytes are in segment 1,
/// segment 0 is active again and still holds the first write, and a read is
/// of segment 1.
pub proof fn lemma_buffers_alternate(
    name_base: Seq<char>,
    size: nat,
    read_capacity: nat,
    first: Seq<u8>,
    second: Seq<u8>,
)
    requires
        first.len() == size,
        second.len() == size,
    ensures
        ({
            let start = ChannelModel::fresh(name_base, size, read_capacity);
            let once = start.after_write(Ok(first));
            let twice = once.after_write(Ok(second));
            &&& start.wf() && start.is_open()
            &&& start.active_index == 0
            &&& once.segments[0].bytes == first
            &&& once.active_index == 1
            &&& once.stable_bytes() == once.segments[0].bytes
            &&& once.read_outcome() == once.read_result(decoded(first))
            &&& twice.segments[1].bytes == second
            &&& twice.segments[0].bytes == first
            &&& twice.active_index == 0
            &&& twice.stable_bytes() == twice.segments[1].bytes
            &&& twice.read_outcome() == twice.read_result(decoded(second))
        }),
{
    let start = ChannelModel::fresh(name_base, size, read_capacity);
    lemma_step_keeps_size(start, ChannelEvent::Write(Ok(first)));
    lemma_write_swaps(start, first);
    let once = start.after_write(Ok(first));
    assert(once == start.step(ChannelEvent::Write(Ok(first))));
    lemma_write_swaps(once, second);
}

/// A read changes nothing: it takes a read permit and gives it back.
pub proof fn lemma_read_changes_nothing(pre: ChannelModel)
    requires
        pre.wf(),
        pre.readers.grants(),
    ensures
        pre.reading().read_done() == pre,
        pre.reading().readers.held() == pre.readers.held() + 1,
{
}

} // verus!
