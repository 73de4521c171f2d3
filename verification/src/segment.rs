//! Segments: named byte regions of a fixed size, and the pair of them that a
//! channel owns.

use vstd::prelude::*;
use vstd::string::StringExecFns;
use crate::array::zero_bytes;
use crate::text::{decimal, decimal_string};

verus! {

/// A segment as mathematical values.
pub struct SegmentModel {
    pub name: Seq<char>,
    pub bytes: Seq<u8>,
}

/// The name of the segment with the number `index` under the prefix
/// `name_base`: the prefix, an underscore, and the number in decimal.
pub open spec fn segment_name_of(name_base: Seq<char>, index: nat) -> Seq<char> {
    name_base + seq!['_'] + decimal(index)
}

/// `size` bytes, all zero: what a segment holds when it has been created.
pub open spec fn blank(size: nat) -> Seq<u8> {
    Seq::new(size, |i: int| 0u8)
}

/// The segment that [`Segment::create`] makes.
pub open spec fn fresh_segment(name: Seq<char>, size: nat) -> SegmentModel {
    SegmentModel { name, bytes: blank(size) }
}

/// The two segments that [`create_pair`] makes.
pub open spec fn fresh_pair(name_base: Seq<char>, size: nat) -> Seq<SegmentModel> {
    seq![
        fresh_segment(segment_name_of(name_base, 0), size),
        fresh_segment(segment_name_of(name_base, 1), size),
    ]
}

/// The name of the segment with the number `index` under the prefix
/// `name_base`.
pub fn segment_name(name_base: &str, index: usize) -> (name: String)
    ensures
        name@ == segment_name_of(name_base@, index as nat),
{
    let mut name = String::from_str(name_base);
    name.append("_");
    let number = decimal_string(index);
    name.append(number.as_str());
    proof {
        reveal_strlit("_");
        assert("_"@ =~= seq!['_']);
    }
    name
}

/// A named region of bytes whose size is fixed when it is created. Every
/// access is to the whole region.
#[derive(Debug, Clone, PartialEq, Eq)]
pub struct Segment {
    name: String,
    bytes: Vec<u8>,
}

impl View for Segment {
    type V = SegmentModel;

    closed spec fn view(&self) -> SegmentModel {
        SegmentModel { name: self.name@, bytes: self.bytes@ }
    }
}

impl Segment {
    /// A segment of `size` zero bytes under the name `name`.
    pub fn create(name: String, size: usize) -> (segment: Segment)
        ensures
            segment@ == fresh_segment(name@, size as nat),
    {
        Segment { name, bytes: zero_bytes(size) }
    }

    /// The name of the segment.
    pub fn name(&self) -> (name: &str)
        ensures
            name@ == self@.name,
    {
        self.name.as_str()
    }

    /// The size of the segment in bytes.
    pub fn len(&self) -> (size: usize)
        ensures
            size == self@.bytes.len(),
    {
        self.bytes.len()
    }

    /// The bytes of the segment: all of them, to read.
    pub fn as_slice(&self) -> (bytes: &[u8])
        ensures
            bytes@ == self@.bytes,
    {
        self.bytes.as_slice()
    }

    /// Copies `data` over the whole segment, if it has the segment's size.
    ///
    /// Returns whether it did. Data of another size is refused, and the
    /// segment stays as it was.
    pub fn write(&mut self, data: &[u8]) -> (done: bool)
        ensures
            done == (data@.len() == old(self)@.bytes.len()),
            final(self)@.name == old(self)@.name,
            done ==> final(self)@.bytes == data@,
            !done ==> final(self)@ == old(self)@,
    {
        let size = self.bytes.len();
        if data.len() != size {
            return false;
        }
        let mut i: usize = 0;
        while i < size
            invariant
                i <= size,
                size == data@.len(),
                self.bytes@.len() == size,
                self.name == old(self).name,
                forall|j: int| 0 <= j < i ==> self.bytes@[j] == data@[j],
            decreases size - i,
        {
            self.bytes[i] = data[i];
            i = i + 1;
        }
        proof {
            assert(self.bytes@ =~= data@);
        }
        true
    }
}

/// The two segments of a channel: numbers 0 and 1 under the prefix
/// `name_base`, each of `size` zero bytes.
pub fn create_pair(name_base: &str, size: usize) -> (pair: Vec<Segment>)
    ensures
        pair@.len() == 2,
        pair@.map_values(|s: Segment| s@) == fresh_pair(name_base@, size as nat),
{
    let mut pair: Vec<Segment> = Vec::new();
    let mut i: usize = 0;
    while i < 2
        invariant
            i <= 2,
            pair@.len() == i,
            forall|j: int|
                0 <= j < i ==> (#[trigger] pair@[j])@ == fresh_segment(
                    segment_name_of(name_base@, j as nat),
                    size as nat,
                ),
        decreases 2 - i,
    {
        let name = segment_name(name_base, i);
        pair.push(Segment::create(name, size));
        i = i + 1;
    }
    proof {
        assert(pair@.map_values(|s: Segment| s@) =~= fresh_pair(name_base@, size as nat));
    }
    pair
}

} // verus!
