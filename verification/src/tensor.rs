//! What the library reads of a tensor: its element type, its shape and where it lives.
use crate::dtype::DType;
use vstd::prelude::*;

verus! {

/// Where a tensor's storage lives.
#[derive(Clone, Copy, Debug, PartialEq, Eq, Structural)]
pub enum Place {
    Cpu,
    Cuda,
    Metal,
}

/// The element type, shape and place of a tensor.
#[derive(Clone, Debug)]
pub struct TensorDesc {
    pub dtype: DType,
    pub dims: Vec<usize>,
    pub place: Place,
}

/// The number of elements of a shape: the product of its dimensions.
pub open spec fn element_count(dims: Seq<usize>) -> nat
    decreases dims.len(),
{
    if dims.len() == 0 {
        1
    } else {
        element_count(dims.drop_last()) * dims.last() as nat
    }
}

/// A device: the processor, or an accelerator by its number.
#[derive(Clone, Copy, Debug, PartialEq, Eq, Structural)]
pub enum DeviceLocation {
    Cpu,
    Cuda { gpu_id: usize },
    Metal { gpu_id: usize },
}

/// The number of elements of a shape, multiplied up from the front, as long as every step fits
/// in a `usize`.
pub open spec fn checked_count(dims: Seq<usize>) -> Option<usize>
    decreases dims.len(),
{
    if dims.len() == 0 {
        Some(1usize)
    } else {
        match checked_count(dims.drop_last()) {
            Some(count) => if count * dims.last() <= usize::MAX {
                Some((count * dims.last()) as usize)
            } else {
                None
            },
            None => None,
        }
    }
}

/// The number of elements of the first `count` dimensions, multiplied up from the front.
pub fn count_elements(dims: &Vec<usize>, count: usize) -> (elements: Option<usize>)
    requires
        count <= dims.len(),
    ensures
        elements == checked_count(dims@.take(count as int)),
{
    let mut elements: usize = 1;
    let mut i: usize = 0;
    while i < count
        invariant
            i <= count <= dims.len(),
            checked_count(dims@.take(i as int)) == Some(elements),
        decreases count - i,
    {
        assert(dims@.take(i + 1).drop_last() =~= dims@.take(i as int));
        elements = match elements.checked_mul(dims[i]) {
            Some(next) => next,
            None => {
                proof {
                    assert(dims@.take(count as int).take(i + 1) =~= dims@.take(i + 1));
                    overflow_stays(dims@.take(count as int), i + 1);
                }
                return None;
            },
        };
        i += 1;
    }
    Some(elements)
}

proof fn overflow_stays(dims: Seq<usize>, n: int)
    requires
        0 <= n <= dims.len(),
        checked_count(dims.take(n)) is None,
    ensures
        checked_count(dims) is None,
    decreases dims.len() - n,
{
    if n < dims.len() {
        assert(dims.take(n + 1).drop_last() =~= dims.take(n));
        overflow_stays(dims, n + 1);
    } else {
        assert(dims.take(n) =~= dims);
    }
}

/// What can be counted is the product of the dimensions.
pub proof fn checked_count_is_product(dims: Seq<usize>)
    requires
        checked_count(dims) is Some,
    ensures
        checked_count(dims)->0 == element_count(dims),
    decreases dims.len(),
{
    if dims.len() > 0 {
        checked_count_is_product(dims.drop_last());
    }
}

/// A shape with its last dimension replaced.
pub fn with_last(dims: &Vec<usize>, last: usize) -> (shape: Vec<usize>)
    requires
        dims.len() > 0,
    ensures
        shape@ == dims@.drop_last().push(last),
{
    let mut shape: Vec<usize> = Vec::new();
    let mut i: usize = 0;
    while i + 1 < dims.len()
        invariant
            i + 1 <= dims.len(),
            shape@ == dims@.take(i as int),
        decreases dims.len() - i,
    {
        shape.push(dims[i]);
        i += 1;
        assert(shape@ =~= dims@.take(i as int));
    }
    shape.push(last);
    assert(shape@ =~= dims@.drop_last().push(last));
    shape
}

/// The first of two faults.
pub open spec fn first_fault<E>(a: Option<E>, b: Option<E>) -> Option<E> {
    match a {
        Some(e) => Some(e),
        None => b,
    }
}

/// A shape with one more dimension has that many times the elements; an empty shape has one.
pub proof fn elements_multiply(dims: Seq<usize>, more: Seq<usize>)
    ensures
        element_count(Seq::<usize>::empty()) == 1,
        element_count(dims + more) == element_count(dims) * element_count(more),
    decreases more.len(),
{
    if more.len() == 0 {
        assert(dims + more =~= dims);
    } else {
        elements_multiply(dims, more.drop_last());
        assert((dims + more).drop_last() =~= dims + more.drop_last());
        let (a, b, c) = (
            element_count(dims),
            element_count(more.drop_last()),
            more.last() as nat,
        );
        assert(a * b * c == a * (b * c)) by (nonlinear_arith);
    }
}

/// A single dimension has as many elements as it says.
pub proof fn one_dimension_counts_itself(dim: usize)
    ensures
        element_count(seq![dim]) == dim,
{
    let dims = seq![dim];
    assert(dims.drop_last() =~= Seq::<usize>::empty());
    assert(element_count(dims.drop_last()) == 1);
    assert(element_count(dims) == element_count(dims.drop_last()) * dims.last() as nat);
}

/// A shape can be counted exactly if no leading part of it has more elements than fit in a
/// `usize`.
pub proof fn shapes_are_counted_if_all_parts_fit(dims: Seq<usize>)
    ensures
        checked_count(dims) is Some <==> forall|n: int|
            0 <= n <= dims.len() ==> element_count(#[trigger] dims.take(n)) <= usize::MAX,
    decreases dims.len(),
{
    assert(dims.take(dims.len() as int) =~= dims);
    if dims.len() == 0 {
        assert(element_count(dims.take(0)) == 1);
    } else {
        let front = dims.drop_last();
        shapes_are_counted_if_all_parts_fit(front);
        assert forall|n: int| 0 <= n <= front.len() implies #[trigger] dims.take(n) == front.take(
            n,
        ) by {
            assert(dims.take(n) =~= front.take(n));
        }
        if checked_count(front) is Some {
            checked_count_is_product(front);
        }
        if checked_count(dims) is Some {
            assert forall|n: int| 0 <= n <= dims.len() implies element_count(
                #[trigger] dims.take(n),
            ) <= usize::MAX by {
                if n <= front.len() {
                    assert(dims.take(n) == front.take(n));
                }
            }
        } else if checked_count(front) is Some {
            assert(element_count(dims.take(dims.len() as int)) > usize::MAX);
        } else {
            let n = choose|n: int|
                0 <= n <= front.len() && element_count(#[trigger] front.take(n)) > usize::MAX;
            assert(dims.take(n) == front.take(n));
        }
    }
}

/// Of two faults the first counts; there is none only if neither is there.
pub proof fn earlier_fault_counts<E>(a: Option<E>, b: Option<E>)
    ensures
        a is Some ==> first_fault(a, b) == a,
        a is None ==> first_fault(a, b) == b,
{
}

} // verus!
