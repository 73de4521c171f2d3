//! Dense arrays of bytes with a dynamic number of axes: the payload of a
//! channel.

use vstd::prelude::*;

verus! {

/// A dense array as mathematical values: the length of each axis, and the
/// elements in row-major order.
pub struct ArrayModel {
    pub shape: Seq<usize>,
    pub data: Seq<u8>,
}

/// The number of elements of an array with the axis lengths `shape`: their
/// product, 1 for no axis.
pub open spec fn elements(shape: Seq<usize>) -> nat
    decreases shape.len(),
{
    if shape.len() == 0 {
        1
    } else {
        elements(shape.drop_last()) * (shape.last() as nat)
    }
}

/// The product of the axis lengths of `shape` that are not zero.
pub open spec fn span(shape: Seq<usize>) -> nat
    decreases shape.len(),
{
    if shape.len() == 0 {
        1
    } else if shape.last() == 0 {
        span(shape.drop_last())
    } else {
        span(shape.drop_last()) * (shape.last() as nat)
    }
}

/// Whether arrays of this shape can be held: the product of its axis lengths
/// that are not zero is at most `isize::MAX`.
pub open spec fn shape_fits(shape: Seq<usize>) -> bool {
    span(shape) <= isize::MAX
}

impl ArrayModel {
    /// The shape can be held and has as many elements as `data`.
    pub open spec fn wf(self) -> bool {
        &&& shape_fits(self.shape)
        &&& self.data.len() == elements(self.shape)
    }
}

/// The span is positive, and the number of elements is the span or zero.
pub proof fn lemma_elements_and_span(shape: Seq<usize>)
    ensures
        span(shape) >= 1,
        elements(shape) == span(shape) || elements(shape) == 0,
        elements(shape) == 0 <==> exists|i: int| 0 <= i < shape.len() && shape[i] == 0,
    decreases shape.len(),
{
    if shape.len() > 0 {
        let front = shape.drop_last();
        let last = shape.last() as nat;
        lemma_elements_and_span(front);
        if last == 0 {
            assert(shape[shape.len() - 1] == 0);
        } else {
            assert(span(front) * last >= 1) by (nonlinear_arith)
                requires
                    span(front) >= 1,
                    last >= 1,
            ;
            if elements(front) == 0 {
                let i = choose|i: int| 0 <= i < front.len() && front[i] == 0;
                assert(shape[i] == 0);
            } else {
                assert(elements(front) * last != 0) by (nonlinear_arith)
                    requires
                        elements(front) != 0,
                        last != 0,
                ;
                assert forall|i: int| 0 <= i < shape.len() implies shape[i] != 0 by {
                    if i < front.len() {
                        assert(front[i] == shape[i]);
                    }
                }
            }
        }
    }
}

/// The span of a shape is at least the span of each of its prefixes.
pub proof fn lemma_span_of_prefix(shape: Seq<usize>, n: int)
    requires
        0 <= n <= shape.len(),
    ensures
        span(shape.take(n)) <= span(shape),
    decreases shape.len(),
{
    if n == shape.len() {
        assert(shape.take(n) =~= shape);
    } else {
        let front = shape.drop_last();
        lemma_span_of_prefix(front, n);
        assert(front.take(n) =~= shape.take(n));
        let last = shape.last() as nat;
        if last != 0 {
            assert(span(front) <= span(front) * last) by (nonlinear_arith)
                requires
                    last >= 1,
            ;
        }
    }
}

/// The number of elements of an array of the shape `shape`, if such an array
/// can be held.
pub fn shape_size(shape: &Vec<usize>) -> (size: Option<usize>)
    ensures
        size is Some <==> shape_fits(shape@),
        size matches Some(n) ==> n == elements(shape@),
{
    let limit: usize = isize::MAX as usize;
    let mut wide: usize = 1;
    let mut count: usize = 1;
    let mut i: usize = 0;
    proof {
        assert(shape@.take(0) =~= Seq::<usize>::empty());
    }
    while i < shape.len()
        invariant
            0 <= i <= shape.len(),
            limit == isize::MAX,
            wide == span(shape@.take(i as int)),
            count == elements(shape@.take(i as int)),
            1 <= wide <= limit,
            count <= wide,
        decreases shape.len() - i,
    {
        let d: usize = shape[i];
        proof {
            let next = shape@.take(i + 1);
            assert(next.drop_last() =~= shape@.take(i as int));
            assert(next.last() == d);
            lemma_span_of_prefix(shape@, i + 1);
            lemma_elements_and_span(next);
        }
        if d == 0 {
            count = 0;
            proof {
                assert(count * 1 == 0);
                assert(elements(shape@.take(i + 1)) == elements(shape@.take(i as int)) * 0);
            }
        } else {
            let grown = wide.checked_mul(d);
            match grown {
                Some(w) => {
                    if w > limit {
                        return None;
                    }
                    proof {
                        assert(count * d <= wide * d) by (nonlinear_arith)
                            requires
                                count <= wide,
                                d >= 0,
                        ;
                    }
                    count = count * d;
                    wide = w;
                },
                None => {
                    return None;
                },
            }
        }
        i = i + 1;
    }
    proof {
        assert(shape@.take(i as int) =~= shape@);
    }
    Some(count)
}

/// A dense array of bytes. Its elements are held in row-major order.
#[derive(Debug, Clone, PartialEq, Eq)]
pub struct DenseArray {
    pub(crate) shape: Vec<usize>,
    pub(crate) data: Vec<u8>,
}

impl View for DenseArray {
    type V = ArrayModel;

    closed spec fn view(&self) -> ArrayModel {
        ArrayModel { shape: self.shape@, data: self.data@ }
    }
}

impl DenseArray {
    /// The array holds as many elements as its shape asks for.
    pub open spec fn wf(&self) -> bool {
        self@.wf()
    }

    /// The array of the given shape whose elements are `data`, in row-major
    /// order; `None` where the shape cannot be held or asks for another
    /// number of elements.
    pub fn from_shape_vec(shape: Vec<usize>, data: Vec<u8>) -> (array: Option<DenseArray>)
        ensures
            array is Some <==> (ArrayModel { shape: shape@, data: data@ }).wf(),
            array matches Some(a) ==> a.wf() && a@.shape == shape@ && a@.data == data@,
    {
        match shape_size(&shape) {
            Some(n) => {
                if n == data.len() {
                    Some(DenseArray { shape, data })
                } else {
                    None
                }
            },
            None => None,
        }
    }

    /// The array of the given shape whose elements are all zero; `None` where
    /// the shape cannot be held.
    pub fn zeros(shape: Vec<usize>) -> (array: Option<DenseArray>)
        ensures
            array is Some <==> shape_fits(shape@),
            array matches Some(a) ==> a.wf() && a@.shape == shape@ && a@.data == Seq::new(
                elements(shape@),
                |i: int| 0u8,
            ),
    {
        match shape_size(&shape) {
            Some(n) => {
                let data = zero_bytes(n);
                Some(DenseArray { shape, data })
            },
            None => None,
        }
    }

    /// The length of each axis.
    pub fn shape(&self) -> (shape: &Vec<usize>)
        ensures
            shape@ == self@.shape,
    {
        &self.shape
    }

    /// The elements, in row-major order.
    pub fn data(&self) -> (data: &Vec<u8>)
        ensures
            data@ == self@.data,
    {
        &self.data
    }

    /// The number of elements.
    pub fn len(&self) -> (n: usize)
        ensures
            n == self@.data.len(),
    {
        self.data.len()
    }
}

/// `n` bytes, all zero.
pub fn zero_bytes(n: usize) -> (bytes: Vec<u8>)
    ensures
        bytes@ == Seq::new(n as nat, |i: int| 0u8),
{
    let mut bytes: Vec<u8> = Vec::with_capacity(n);
    let mut i: usize = 0;
    while i < n
        invariant
            i <= n,
            bytes@ == Seq::new(i as nat, |j: int| 0u8),
        decreases n - i,
    {
        bytes.push(0u8);
        i = i + 1;
        proof {
            assert(bytes@ =~= Seq::new(i as nat, |j: int| 0u8));
        }
    }
    bytes
}

} // verus!
