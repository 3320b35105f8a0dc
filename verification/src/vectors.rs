//! Arithmetic on vectors of numbers, element by element.
use crate::error::{DistributedError, DistributedErrorView, ErrorKind};
use vstd::prelude::*;

verus! {

/// The outcome of an operation on vectors.
pub open spec fn vector_outcome(result: Result<Vec<usize>, DistributedError>) -> Result<
    Seq<usize>,
    DistributedErrorView,
> {
    match result {
        Ok(numbers) => Ok(numbers@),
        Err(error) => Err(error@),
    }
}

/// Whether all of the numbers fit the machine.
pub open spec fn fit(numbers: Seq<int>) -> bool {
    forall|i: int| 0 <= i < numbers.len() ==> 0 <= #[trigger] numbers[i] <= usize::MAX
}

/// The numbers as the machine holds them, if they fit.
pub open spec fn held(numbers: Seq<int>) -> Result<Seq<usize>, DistributedErrorView> {
    if fit(numbers) {
        Ok(numbers.map_values(|number: int| number as usize))
    } else {
        Err(ErrorKind::StatisticsOverflow.plain())
    }
}

/// The sum of two vectors of the same length.
pub open spec fn element_sums(one: Seq<usize>, other: Seq<usize>) -> Result<
    Seq<usize>,
    DistributedErrorView,
> {
    if one.len() != other.len() {
        Err(ErrorKind::LengthMismatch.plain())
    } else {
        held(Seq::new(one.len(), |i: int| one[i] + other[i]))
    }
}

/// The vector with each of its elements multiplied.
pub open spec fn element_products(one: Seq<usize>, by: usize) -> Result<
    Seq<usize>,
    DistributedErrorView,
> {
    held(Seq::new(one.len(), |i: int| one[i] * by))
}

/// The vector with each of its elements divided.
pub open spec fn element_quotients(one: Seq<usize>, by: usize) -> Seq<usize> {
    one.map_values(|number: usize| number / by)
}

/// The sum of all elements.
pub open spec fn total(numbers: Seq<usize>) -> nat
    decreases numbers.len(),
{
    if numbers.len() == 0 {
        0
    } else {
        total(numbers.drop_last()) + numbers.last() as nat
    }
}

/// The elements in the width of the machine.
pub fn vec_cast(input: &Vec<u64>) -> (result: Vec<usize>)
    ensures
        result@ =~= input@.map_values(|number: u64| number as usize),
{
    let mut result: Vec<usize> = Vec::new();
    let mut i: usize = 0;
    while i < input.len()
        invariant
            0 <= i <= input@.len(),
            result@ =~= input@.take(i as int).map_values(|number: u64| number as usize),
        decreases input@.len() - i,
    {
        result.push(input[i] as usize);
        i += 1;
    }
    result
}

/// Adds two vectors, which must have the same length.
pub fn element_wise_sum(one: &Vec<usize>, other: &Vec<usize>) -> (result: Result<
    Vec<usize>,
    DistributedError,
>)
    ensures
        vector_outcome(result) == element_sums(one@, other@),
{
    if one.len() != other.len() {
        return Err(DistributedError::new(ErrorKind::LengthMismatch));
    }
    let ghost sums = Seq::new(one@.len(), |i: int| one@[i] + other@[i]);
    let mut result: Vec<usize> = Vec::new();
    let mut i: usize = 0;
    while i < one.len()
        invariant
            0 <= i <= one@.len(),
            one@.len() == other@.len(),
            sums == Seq::new(one@.len(), |i: int| one@[i] + other@[i]),
            result@.len() == i,
            forall|j: int| 0 <= j < i ==> #[trigger] result@[j] == sums[j],
        decreases one@.len() - i,
    {
        match one[i].checked_add(other[i]) {
            Some(sum) => result.push(sum),
            None => {
                assert(sums[i as int] > usize::MAX);
                return Err(DistributedError::new(ErrorKind::StatisticsOverflow));
            },
        }
        i += 1;
    }
    proof {
        assert forall|j: int| 0 <= j < sums.len() implies 0 <= #[trigger] sums[j] <= usize::MAX by {
            assert(result@[j] == sums[j]);
        }
        assert(result@ =~= sums.map_values(|number: int| number as usize));
    }
    Ok(result)
}

/// Multiplies each element of a vector.
pub fn vec_mul(one: &Vec<usize>, by: usize) -> (result: Result<Vec<usize>, DistributedError>)
    ensures
        vector_outcome(result) == element_products(one@, by),
{
    let ghost products = Seq::new(one@.len(), |i: int| one@[i] * by);
    let mut result: Vec<usize> = Vec::new();
    let mut i: usize = 0;
    while i < one.len()
        invariant
            0 <= i <= one@.len(),
            products == Seq::new(one@.len(), |i: int| one@[i] * by),
            result@.len() == i,
            forall|j: int| 0 <= j < i ==> #[trigger] result@[j] == products[j],
        decreases one@.len() - i,
    {
        match one[i].checked_mul(by) {
            Some(product) => result.push(product),
            None => {
                assert(products[i as int] > usize::MAX);
                return Err(DistributedError::new(ErrorKind::StatisticsOverflow));
            },
        }
        i += 1;
    }
    proof {
        assert forall|j: int| 0 <= j < products.len() implies 0 <= #[trigger] products[j]
            <= usize::MAX by {
            assert(result@[j] == products[j]);
        }
        assert(result@ =~= products.map_values(|number: int| number as usize));
    }
    Ok(result)
}

/// Divides each element of a vector.
pub fn vec_div(one: &Vec<usize>, by: usize) -> (result: Vec<usize>)
    requires
        by > 0,
    ensures
        result@ =~= element_quotients(one@, by),
{
    let mut result: Vec<usize> = Vec::new();
    let mut i: usize = 0;
    while i < one.len()
        invariant
            0 <= i <= one@.len(),
            by > 0,
            result@.len() == i,
            forall|j: int| 0 <= j < i ==> #[trigger] result@[j] == one@[j] / by,
        decreases one@.len() - i,
    {
        result.push(one[i] / by);
        i += 1;
    }
    result
}

proof fn totals_grow(numbers: Seq<usize>, upto: int)
    requires
        0 <= upto <= numbers.len(),
    ensures
        total(numbers.take(upto)) <= total(numbers),
    decreases numbers.len() - upto,
{
    if upto == numbers.len() {
        assert(numbers.take(upto) =~= numbers);
    } else {
        totals_grow(numbers, upto + 1);
        assert(numbers.take(upto + 1).drop_last() =~= numbers.take(upto));
    }
}

/// The sum of all elements, if it fits the machine.
pub fn checked_total(numbers: &Vec<usize>) -> (result: Option<usize>)
    ensures
        total(numbers@) <= usize::MAX ==> result == Some(total(numbers@) as usize),
        total(numbers@) > usize::MAX ==> result is None,
{
    let mut sum: usize = 0;
    let mut i: usize = 0;
    while i < numbers.len()
        invariant
            0 <= i <= numbers@.len(),
            sum == total(numbers@.take(i as int)),
        decreases numbers@.len() - i,
    {
        proof {
            assert(numbers@.take(i + 1).drop_last() =~= numbers@.take(i as int));
            totals_grow(numbers@, i + 1);
        }
        sum = sum.checked_add(numbers[i])?;
        i += 1;
    }
    proof {
        assert(numbers@.take(i as int) =~= numbers@);
    }
    Some(sum)
}

} // verus!
