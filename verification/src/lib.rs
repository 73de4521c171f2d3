//! A double-buffered channel for arrays of one fixed encoded size.
//!
//! A channel owns two segments of the same size. One of them is active: the
//! next write goes there. The other is stable: it holds the last complete
//! write, and reads come from it. A write that succeeds swaps the two.
//!
//! The channel is the state of one process and is used through `&mut`. Its
//! two gates are that state's permits: threads that share a channel behind a
//! lock wait on them, and processes that share the segments do not see each
//! other's permits.

pub mod array;
pub mod codec;
pub mod errors;
pub mod laws;
pub mod permit;
pub mod segment;
pub mod text;

use vstd::prelude::*;
use crate::array::{ArrayModel, DenseArray, elements, shape_fits};
use crate::codec::{decode, decoded, decoding_view, encode, encoded, encoding_view, is_encoding_of};
use crate::errors::{DbShmError, ErrorModel};
use crate::permit::{ReadGate, ReadPermit, WritePermit};
use crate::segment::{create_pair, fresh_pair, Segment, SegmentModel};

verus! {

/// The number of read permits of a channel that [`DoubleBufferedSharedMemory::new`]
/// makes: one reader at a time.
pub const DEFAULT_READ_CAPACITY: usize = 1;

/// The size in bytes of one element of a [`DenseArray`].
pub const ELEMENT_WIDTH: usize = 1;

/// The size in bytes of the elements of an array of the shape `shape` whose
/// elements are `width` bytes each.
pub open spec fn base_size_of(shape: (usize, usize, usize), width: nat) -> nat {
    (shape.0 as nat) * (shape.1 as nat) * (shape.2 as nat) * width
}

/// The three axis lengths as a shape.
pub open spec fn shape_of(shape: (usize, usize, usize)) -> Seq<usize> {
    seq![shape.0, shape.1, shape.2]
}

/// The array of the shape `shape` whose elements are all zero: the sample
/// whose encoding fixes the size of a channel.
pub open spec fn sample_of(shape: (usize, usize, usize)) -> ArrayModel {
    ArrayModel {
        shape: shape_of(shape),
        data: Seq::new(elements(shape_of(shape)), |i: int| 0u8),
    }
}

/// A channel as mathematical values.
pub struct ChannelModel {
    /// The size of each segment in bytes.
    pub size: nat,
    /// The number of the active segment.
    pub active_index: nat,
    /// The segments: two of them, or none once the channel has been released.
    pub segments: Seq<SegmentModel>,
    /// Whether the write permit is free.
    pub write_available: bool,
    /// The read permits: how many there are, and how many are free.
    pub readers: ReadGate,
}

impl ChannelModel {
    /// The segments are two of the channel's size or none, one of them is
    /// active, and no more read permits are free than there are.
    pub open spec fn wf(self) -> bool {
        &&& self.active_index <= 1
        &&& self.readers.wf()
        &&& (self.segments.len() == 0 || self.segments.len() == 2)
        &&& forall|i: int|
            0 <= i < self.segments.len() ==> (#[trigger] self.segments[i]).bytes.len() == self.size
    }

    /// Whether the channel still owns its segments.
    pub open spec fn is_open(self) -> bool {
        self.segments.len() == 2
    }

    /// The channel that construction gives: two blank segments under
    /// `name_base`, the first of them active, and every permit free.
    pub open spec fn fresh(name_base: Seq<char>, size: nat, read_capacity: nat) -> ChannelModel {
        ChannelModel {
            size,
            active_index: 0,
            segments: fresh_pair(name_base, size),
            write_available: true,
            readers: ReadGate::fresh(read_capacity),
        }
    }

    /// The number of the stable segment: the one that is not active.
    pub open spec fn stable_index(self) -> int {
        1 - self.active_index
    }

    /// What the stable segment holds.
    pub open spec fn stable_bytes(self) -> Seq<u8> {
        self.segments[self.stable_index()].bytes
    }

    /// Whether a write with this outcome of encoding is taken: the codec gave
    /// bytes, and as many as a segment holds.
    pub open spec fn accepts(self, outcome: Result<Seq<u8>, Seq<char>>) -> bool {
        outcome matches Ok(bytes) && bytes.len() == self.size
    }

    /// The channel after `bytes` have been written: they fill the segment
    /// that was active, which is now the stable one, and the write permit is
    /// free.
    pub open spec fn committed(self, bytes: Seq<u8>) -> ChannelModel {
        ChannelModel {
            active_index: (1 - self.active_index) as nat,
            segments: self.segments.update(
                self.active_index as int,
                SegmentModel { name: self.segments[self.active_index as int].name, bytes },
            ),
            write_available: true,
            ..self
        }
    }

    /// The channel after a write whose encoding had this outcome. A write
    /// that is not taken leaves segments and active segment as they were.
    /// The write permit is free again either way.
    pub open spec fn after_write(self, outcome: Result<Seq<u8>, Seq<char>>) -> ChannelModel {
        if self.accepts(outcome) {
            self.committed(outcome->Ok_0)
        } else {
            ChannelModel { write_available: true, ..self }
        }
    }

    /// What a write of an array of `count` elements returns when its
    /// encoding had this outcome.
    pub open spec fn write_result(self, outcome: Result<Seq<u8>, Seq<char>>, count: nat) -> Result<
        (),
        ErrorModel,
    > {
        match outcome {
            Err(text) => Err(ErrorModel::SerializationError(text, self.size, count)),
            Ok(bytes) => if bytes.len() == self.size {
                Ok(())
            } else {
                Err(ErrorModel::InvalidSize(self.size, bytes.len()))
            },
        }
    }

    /// What a read returns when decoding the stable segment had this outcome.
    pub open spec fn read_result(self, outcome: Result<ArrayModel, Seq<char>>) -> Result<
        ArrayModel,
        ErrorModel,
    > {
        match outcome {
            Ok(array) => Ok(array),
            Err(text) => Err(ErrorModel::DeserializationError(text, self.size, self.size)),
        }
    }

    /// What a read of the channel returns: the decoding of the stable
    /// segment, or the codec's failure.
    pub open spec fn read_outcome(self) -> Result<ArrayModel, ErrorModel> {
        self.read_result(decoded(self.stable_bytes()))
    }

    /// Whether a read of the channel owes the array `a`: the stable segment
    /// holds its encoding.
    pub open spec fn holds(self, a: ArrayModel) -> bool {
        a.wf() && is_encoding_of(self.stable_bytes(), a)
    }

    /// The channel with the write permit taken.
    pub open spec fn writing(self) -> ChannelModel {
        ChannelModel { write_available: false, ..self }
    }

    /// The channel with the write permit given back.
    pub open spec fn write_done(self) -> ChannelModel {
        ChannelModel { write_available: true, ..self }
    }

    /// The channel with one read permit taken.
    pub open spec fn reading(self) -> ChannelModel {
        ChannelModel { readers: self.readers.acquired(), ..self }
    }

    /// The channel with one read permit given back.
    pub open spec fn read_done(self) -> ChannelModel {
        ChannelModel { readers: self.readers.released(), ..self }
    }

    /// The channel without its segments.
    pub open spec fn released(self) -> ChannelModel {
        ChannelModel { segments: Seq::empty(), ..self }
    }
}

/// What the size computation gives for elements of `base_size` bytes in all,
/// `count` of them, when encoding the sample had this outcome: the codec's
/// overhead, or why there is none to give.
pub open spec fn extra_size_result(
    base_size: nat,
    count: nat,
    sample: Result<Seq<u8>, Seq<char>>,
) -> Result<nat, ErrorModel> {
    match sample {
        Err(text) => Err(ErrorModel::SerializationError(text, base_size, count)),
        Ok(bytes) => if bytes.len() >= base_size {
            Ok((bytes.len() - base_size) as nat)
        } else {
            Err(ErrorModel::InvalidSize(base_size, bytes.len()))
        },
    }
}

/// What construction gives under the prefix `name_base`, for `count` elements
/// of `base_size` bytes in all, when encoding the sample had this outcome: a
/// fresh channel whose size is the base size and the codec's overhead
/// together, or the error of the size computation.
pub open spec fn construction_result(
    name_base: Seq<char>,
    base_size: nat,
    count: nat,
    read_capacity: nat,
    sample: Result<Seq<u8>, Seq<char>>,
) -> Result<ChannelModel, ErrorModel> {
    match extra_size_result(base_size, count, sample) {
        Ok(extra) => Ok(ChannelModel::fresh(name_base, base_size + extra, read_capacity)),
        Err(e) => Err(e),
    }
}

/// Whether `r` is what a read owes of the bytes `stable`: where they are the
/// encoding of a well-formed array, that array.
pub open spec fn gives_back(stable: Seq<u8>, r: Result<ArrayModel, ErrorModel>) -> bool {
    forall|a: ArrayModel|
        a.wf() && #[trigger] is_encoding_of(stable, a) ==> r == Ok::<ArrayModel, ErrorModel>(a)
}

/// A size or an error, as mathematical values.
pub open spec fn size_view(r: Result<usize, DbShmError>) -> Result<nat, ErrorModel> {
    match r {
        Ok(n) => Ok(n as nat),
        Err(e) => Err(e@),
    }
}

/// The outcome of a write, as mathematical values.
pub open spec fn write_view(r: Result<(), DbShmError>) -> Result<(), ErrorModel> {
    match r {
        Ok(_) => Ok(()),
        Err(e) => Err(e@),
    }
}

/// The outcome of a read, as mathematical values.
pub open spec fn read_view(r: Result<DenseArray, DbShmError>) -> Result<ArrayModel, ErrorModel> {
    match r {
        Ok(array) => Ok(array@),
        Err(e) => Err(e@),
    }
}

/// The outcome of construction, as mathematical values.
pub open spec fn channel_view(r: Result<DoubleBufferedSharedMemory, DbShmError>) -> Result<
    ChannelModel,
    ErrorModel,
> {
    match r {
        Ok(channel) => Ok(channel@),
        Err(e) => Err(e@),
    }
}

/// The size in bytes of the elements of an array of the shape `shape` whose
/// elements are `width` bytes each; `None` where that is more than a `usize`
/// holds.
pub fn base_size(shape: (usize, usize, usize), width: usize) -> (size: Option<usize>)
    ensures
        size is Some <==> base_size_of(shape, width as nat) <= usize::MAX,
        size matches Some(n) ==> n == base_size_of(shape, width as nat),
{
    let (d0, d1, d2) = shape;
    if d0 == 0 || d1 == 0 || d2 == 0 || width == 0 {
        proof {
            assert(base_size_of(shape, width as nat) == 0) by (nonlinear_arith)
                requires
                    shape.0 == 0 || shape.1 == 0 || shape.2 == 0 || width == 0,
                    base_size_of(shape, width as nat) == (shape.0 as nat) * (shape.1 as nat) * (
                    shape.2 as nat) * (width as nat),
            ;
        }
        return Some(0);
    }
    proof {
        let a = d0 as nat;
        let b = d1 as nat;
        let c = d2 as nat;
        let w = width as nat;
        assert(a * b <= a * b * c && a * b * c <= a * b * c * w) by (nonlinear_arith)
            requires
                a >= 1,
                b >= 1,
                c >= 1,
                w >= 1,
        ;
    }
    match d0.checked_mul(d1) {
        None => None,
        Some(plane) => match plane.checked_mul(d2) {
            None => None,
            Some(count) => count.checked_mul(width),
        },
    }
}

/// The codec's overhead: the bytes that the encoding of the sample has beyond
/// the `base_size` bytes of its `count` elements.
///
/// `sample` is the outcome of encoding the sample. A failure of the codec is
/// handed on as a serialization error, with the base size and the number of
/// elements. An encoding shorter than the elements themselves has no
/// overhead to give and is refused as an invalid size.
pub fn calc_extra_size(base_size: usize, count: usize, sample: Result<Vec<u8>, String>) -> (r:
    Result<usize, DbShmError>)
    ensures
        size_view(r) == extra_size_result(base_size as nat, count as nat, encoding_view(sample)),
        r matches Ok(extra) ==> base_size + extra <= usize::MAX,
{
    match sample {
        Err(text) => Err(DbShmError::SerializationError(text, base_size, count)),
        Ok(bytes) => {
            if bytes.len() >= base_size {
                Ok(bytes.len() - base_size)
            } else {
                Err(DbShmError::InvalidSize(base_size, bytes.len()))
            }
        },
    }
}

/// A double-buffered channel for arrays of bytes.
///
/// Every array that passes through a channel has the same encoded size, the
/// size of the channel's two segments. It is fixed when the channel is made
/// and never changes.
#[derive(Debug)]
pub struct DoubleBufferedSharedMemory {
    buffers: Vec<Segment>,
    active_index: usize,
    size: usize,
    read_permits: ReadPermit,
    write_permits: WritePermit,
}

impl View for DoubleBufferedSharedMemory {
    type V = ChannelModel;

    closed spec fn view(&self) -> ChannelModel {
        ChannelModel {
            size: self.size as nat,
            active_index: self.active_index as nat,
            segments: self.buffers@.map_values(|s: Segment| s@),
            write_available: self.write_permits.is_available(),
            readers: self.read_permits@,
        }
    }
}

impl DoubleBufferedSharedMemory {
    /// The channel's invariant: see [`ChannelModel::wf`].
    pub open spec fn wf(&self) -> bool {
        self@.wf()
    }

    /// A channel for arrays of the shape `shape`, with segments named
    /// `name_base` with `_0` and `_1` behind it.
    ///
    /// The size of the segments is the size of the encoding of the array of
    /// that shape whose elements are all zero.
    pub fn new(name_base: &str, shape: (usize, usize, usize)) -> (r: Result<
        DoubleBufferedSharedMemory,
        DbShmError,
    >)
        requires
            shape_fits(shape_of(shape)),
        ensures
            channel_view(r) == construction_result(
                name_base@,
                base_size_of(shape, ELEMENT_WIDTH as nat),
                elements(shape_of(shape)),
                DEFAULT_READ_CAPACITY as nat,
                encoded(sample_of(shape)),
            ),
            r matches Ok(channel) ==> channel.wf(),
    {
        let mut axes: Vec<usize> = Vec::new();
        axes.push(shape.0);
        axes.push(shape.1);
        axes.push(shape.2);
        proof {
            assert(axes@ =~= shape_of(shape));
            lemma_three_axes(shape);
        }
        let sample = DenseArray::zeros(axes).unwrap();
        let base = base_size(shape, ELEMENT_WIDTH).unwrap();
        let outcome = encode(&sample);
        Self::with_sample(name_base, base, sample.len(), DEFAULT_READ_CAPACITY, outcome)
    }

    /// The channel under the prefix `name_base` for `count` elements that
    /// take `base_size` bytes in all, with `read_capacity` read permits.
    ///
    /// `sample` is the outcome of encoding an array of those elements: its
    /// length becomes the size of the segments.
    pub fn with_sample(
        name_base: &str,
        base_size: usize,
        count: usize,
        read_capacity: usize,
        sample: Result<Vec<u8>, String>,
    ) -> (r: Result<DoubleBufferedSharedMemory, DbShmError>)
        ensures
            channel_view(r) == construction_result(
                name_base@,
                base_size as nat,
                count as nat,
                read_capacity as nat,
                encoding_view(sample),
            ),
            r matches Ok(channel) ==> channel.wf(),
    {
        let extra_size = match calc_extra_size(base_size, count, sample) {
            Ok(extra_size) => extra_size,
            Err(e) => {
                return Err(e);
            },
        };
        let size = base_size + extra_size;
        let buffers = create_pair(name_base, size);
        let channel = DoubleBufferedSharedMemory {
            buffers,
            active_index: 0,
            size,
            read_permits: ReadPermit::new(read_capacity),
            write_permits: WritePermit::new(),
        };
        proof {
            assert(channel@ == ChannelModel::fresh(
                name_base@,
                size as nat,
                read_capacity as nat,
            ));
        }
        Ok(channel)
    }

    /// The size of each segment in bytes. It is the same for as long as the
    /// channel lives.
    pub fn get_memory_size(&self) -> (size: usize)
        ensures
            size == self@.size,
    {
        self.size
    }

    /// Takes the write permit if it is free, and says whether it did. A
    /// writer that is refused waits for a release and tries again.
    pub fn acquire_write_permit(&mut self) -> (granted: bool)
        ensures
            granted == old(self)@.write_available,
            final(self)@ == old(self)@.writing(),
    {
        self.write_permits.try_acquire()
    }

    /// Gives the write permit back.
    pub fn release_write_permit(&mut self)
        ensures
            final(self)@ == old(self)@.write_done(),
    {
        self.write_permits.release();
    }

    /// Takes a read permit if one is free, and says whether it did. A reader
    /// that is refused waits for a release and tries again.
    pub fn acquire_read_permit(&mut self) -> (granted: bool)
        ensures
            granted == old(self)@.readers.grants(),
            final(self)@ == old(self)@.reading(),
    {
        self.read_permits.try_acquire()
    }

    /// Gives back a read permit that is held.
    pub fn release_read_permit(&mut self)
        requires
            old(self)@.readers.wf(),
            old(self)@.readers.held() > 0,
        ensures
            final(self)@ == old(self)@.read_done(),
            final(self)@.readers.free == old(self)@.readers.free + 1,
    {
        self.read_permits.release();
    }

    /// Writes `array` to the active segment and makes that segment the
    /// stable one.
    ///
    /// The array is taken only if its encoding has the size of the segments.
    /// Otherwise the channel stays as it was and the error says why: the
    /// codec failed, or the encoding has another size. A call waits for the
    /// write permit, so the permit has to be free.
    pub fn write(&mut self, array: &DenseArray) -> (r: Result<(), DbShmError>)
        requires
            old(self).wf(),
            old(self)@.is_open(),
            old(self)@.write_available,
            array.wf(),
        ensures
            final(self)@ == old(self)@.after_write(encoded(array@)),
            write_view(r) == old(self)@.write_result(encoded(array@), array@.data.len()),
            r is Ok ==> final(self)@.holds(array@),
            final(self).wf(),
    {
        self.acquire_write_permit();
        let outcome = encode(array);
        self.commit_write(outcome, array.len())
    }

    /// The rest of a write, for the holder of the write permit: takes the
    /// outcome of encoding an array of `count` elements, stores the bytes if
    /// they have the size of the segments, and gives the permit back.
    pub fn commit_write(&mut self, outcome: Result<Vec<u8>, String>, count: usize) -> (r: Result<
        (),
        DbShmError,
    >)
        requires
            old(self).wf(),
            old(self)@.is_open(),
            !old(self)@.write_available,
        ensures
            final(self)@ == old(self)@.after_write(encoding_view(outcome)),
            write_view(r) == old(self)@.write_result(encoding_view(outcome), count as nat),
            final(self).wf(),
    {
        let data = match outcome {
            Ok(data) => data,
            Err(text) => {
                self.release_write_permit();
                return Err(DbShmError::SerializationError(text, self.size, count));
            },
        };
        if data.len() != self.size {
            self.release_write_permit();
            return Err(DbShmError::InvalidSize(self.size, data.len()));
        }
        let active = self.active_index;
        proof {
            assert(self@.segments[active as int] == self.buffers@[active as int]@);
        }
        self.buffers[active].write(data.as_slice());
        self.active_index = 1 - self.active_index;
        self.release_write_permit();
        proof {
            assert(self@.segments =~= old(self)@.committed(data@).segments);
        }
        Ok(())
    }

    /// What the stable segment holds: the bytes of the last write that was
    /// taken, or zeros where there was none.
    pub fn stable_bytes(&self) -> (bytes: &[u8])
        requires
            self.wf(),
            self@.is_open(),
        ensures
            bytes@ == self@.stable_bytes(),
    {
        self.buffers[1 - self.active_index].as_slice()
    }

    /// Reads the array that the stable segment holds.
    ///
    /// The channel stays as it was. Where the segment holds the encoding of
    /// an array, the result is that array. A call waits for a read permit,
    /// so one has to be free.
    pub fn read(&mut self) -> (r: Result<DenseArray, DbShmError>)
        requires
            old(self).wf(),
            old(self)@.is_open(),
            old(self)@.readers.grants(),
        ensures
            final(self)@ == old(self)@,
            read_view(r) == old(self)@.read_outcome(),
            gives_back(old(self)@.stable_bytes(), read_view(r)),
            r matches Ok(array) ==> array.wf(),
    {
        self.acquire_read_permit();
        let outcome = decode(self.stable_bytes());
        self.finish_read(outcome)
    }

    /// The rest of a read, for the holder of a read permit: takes the
    /// outcome of decoding the stable segment, gives the permit back, and
    /// hands on what was decoded or the codec's failure.
    pub fn finish_read<A>(&mut self, outcome: Result<A, String>) -> (r: Result<A, DbShmError>)
        requires
            old(self)@.readers.wf(),
            old(self)@.readers.held() > 0,
        ensures
            final(self)@ == old(self)@.read_done(),
            final(self)@.readers.free == old(self)@.readers.free + 1,
            match outcome {
                Ok(decoded) => r == Ok::<A, DbShmError>(decoded),
                Err(text) => r matches Err(e) && e@ == ErrorModel::DeserializationError(
                    text@,
                    old(self)@.size,
                    old(self)@.size,
                ),
            },
    {
        self.release_read_permit();
        match outcome {
            Ok(decoded) => Ok(decoded),
            Err(text) => Err(DbShmError::DeserializationError(text, self.size, self.size)),
        }
    }

    /// The number of the active segment: where the next write goes.
    pub fn active_index(&self) -> (index: usize)
        ensures
            index == self@.active_index,
    {
        self.active_index
    }

    /// Whether the write permit is free.
    pub fn write_permit_available(&self) -> (free: bool)
        ensures
            free == self@.write_available,
    {
        self.write_permits.available()
    }

    /// The number of read permits that the channel has.
    pub fn read_capacity(&self) -> (n: usize)
        ensures
            n == self@.readers.capacity,
    {
        self.read_permits.capacity()
    }

    /// The number of read permits that are free.
    pub fn read_permits_free(&self) -> (n: usize)
        ensures
            n == self@.readers.free,
    {
        self.read_permits.free()
    }

    /// Whether the channel still owns its segments.
    pub fn is_open(&self) -> (open: bool)
        requires
            self.wf(),
        ensures
            open == self@.is_open(),
    {
        self.buffers.len() == 2
    }

    /// The segment with the number `index`.
    pub fn segment(&self, index: usize) -> (segment: &Segment)
        requires
            index < self@.segments.len(),
        ensures
            segment@ == self@.segments[index as int],
    {
        &self.buffers[index]
    }

    /// Releases both segments. The channel keeps its size and its permits;
    /// it can no longer be written or read. Releasing a channel again
    /// changes nothing.
    pub fn drop(&mut self)
        ensures
            final(self)@ == old(self)@.released(),
            old(self).wf() ==> final(self).wf(),
    {
        self.buffers.clear();
        proof {
            assert(self@.segments =~= Seq::<SegmentModel>::empty());
        }
    }
}

/// Three axis lengths that fit have a product that fits, and it is the
/// number of elements of their shape.
pub proof fn lemma_three_axes(shape: (usize, usize, usize))
    ensures
        elements(shape_of(shape)) == base_size_of(shape, 1),
        shape_fits(shape_of(shape)) ==> base_size_of(shape, 1) <= isize::MAX,
{
    let s = shape_of(shape);
    let s2 = s.drop_last();
    let s1 = s2.drop_last();
    let s0 = s1.drop_last();
    assert(s2 =~= seq![shape.0, shape.1]);
    assert(s1 =~= seq![shape.0]);
    assert(s0 =~= Seq::<usize>::empty());
    assert(elements(s0) == 1);
    assert(elements(s1) == elements(s0) * (shape.0 as nat));
    assert(elements(s2) == elements(s1) * (shape.1 as nat));
    assert(elements(s) == elements(s2) * (shape.2 as nat));
    assert(elements(s) == (shape.0 as nat) * (shape.1 as nat) * (shape.2 as nat))
        by (nonlinear_arith)
        requires
            elements(s0) == 1,
            elements(s1) == elements(s0) * (shape.0 as nat),
            elements(s2) == elements(s1) * (shape.1 as nat),
            elements(s) == elements(s2) * (shape.2 as nat),
    ;
    assert(base_size_of(shape, 1) == (shape.0 as nat) * (shape.1 as nat) * (shape.2 as nat))
        by (nonlinear_arith)
        requires
            base_size_of(shape, 1) == (shape.0 as nat) * (shape.1 as nat) * (shape.2 as nat) * 1,
    ;
    crate::array::lemma_elements_and_span(s);
}

} // verus!
