//! Shape checks on the calibration file's nested numeric rows.
//!
//! The calibration file stores matrices and vectors as rows of rows. These
//! functions flatten them and check the element count; they are generic so
//! that the numeric conversion stays with the caller.

use vstd::prelude::*;

verus! {

/// The contents of each row.
pub open spec fn rows_view<T>(rows: Seq<Vec<T>>) -> Seq<Seq<T>> {
    Seq::new(rows.len(), |i: int| rows[i]@)
}

/// All elements of `rows`, row after row.
pub open spec fn flat<T>(rows: Seq<Vec<T>>) -> Seq<T> {
    rows_view(rows).flatten()
}

/// All elements of `rows`, row after row.
pub fn flatten_rows<T: Copy>(rows: &Vec<Vec<T>>) -> (r: Vec<T>)
    ensures
        r@ == flat(rows@),
{
    let ghost view = rows_view(rows@);
    let mut out: Vec<T> = Vec::new();
    let mut i: usize = 0;
    while i < rows.len()
        invariant
            0 <= i <= rows@.len(),
            view == rows_view(rows@),
            out@ == view.subrange(0, i as int).flatten(),
        decreases rows@.len() - i,
    {
        let row = &rows[i];
        let mut j: usize = 0;
        while j < row.len()
            invariant
                0 <= i < rows@.len(),
                *row == rows@[i as int],
                0 <= j <= row@.len(),
                out@ == view.subrange(0, i as int).flatten() + row@.subrange(0, j as int),
            decreases row@.len() - j,
        {
            out.push(row[j]);
            assert(row@.subrange(0, j + 1) =~= row@.subrange(0, j as int).push(row@[j as int]));
            assert(out@ =~= view.subrange(0, i as int).flatten() + row@.subrange(0, j + 1));
            j = j + 1;
        }
        proof {
            assert(row@.subrange(0, j as int) =~= row@);
            view.subrange(0, i as int).lemma_flatten_push(row@);
            assert(view.subrange(0, i + 1) =~= view.subrange(0, i as int).push(row@));
        }
        i = i + 1;
    }
    assert(view.subrange(0, rows@.len() as int) =~= view);
    out
}

/// The elements of `rows`, row after row, where there are exactly `n` of
/// them; otherwise the number there are.
pub fn flatten_exact<T: Copy>(rows: &Vec<Vec<T>>, n: usize) -> (r: Result<Vec<T>, usize>)
    ensures
        r.is_ok() <==> flat(rows@).len() == n,
        r matches Ok(v) ==> v@ == flat(rows@),
        r matches Err(count) ==> count == flat(rows@).len(),
{
    let v = flatten_rows(rows);
    if v.len() == n {
        Ok(v)
    } else {
        Err(v.len())
    }
}

/// Whether every item of `items` flattens to exactly `n` elements.
pub open spec fn all_of_len<T>(items: Seq<Vec<Vec<T>>>, n: nat) -> bool {
    forall|i: int| 0 <= i < items.len() ==> #[trigger] flat(items[i]@).len() == n
}

/// The position of the first item of `items` that does not flatten to
/// exactly `n` elements.
pub open spec fn is_first_bad<T>(items: Seq<Vec<Vec<T>>>, n: nat, k: int) -> bool {
    &&& 0 <= k < items.len()
    &&& flat(items[k]@).len() != n
    &&& forall|i: int| 0 <= i < k ==> #[trigger] flat(items[i]@).len() == n
}

/// Flattens each item of `items`, where each has exactly `n` elements;
/// otherwise the element count of the first item that does not.
pub fn flatten_each_exact<T: Copy>(items: &Vec<Vec<Vec<T>>>, n: usize) -> (r: Result<
    Vec<Vec<T>>,
    usize,
>)
    ensures
        r.is_ok() <==> all_of_len(items@, n as nat),
        r matches Ok(vs) ==> vs@.len() == items@.len() && forall|i: int|
            0 <= i < items@.len() ==> (#[trigger] vs@[i])@ == flat(items@[i]@),
        r matches Err(count) ==> exists|k: int|
            is_first_bad(items@, n as nat, k) && count == flat(items@[k]@).len(),
{
    let mut out: Vec<Vec<T>> = Vec::new();
    let mut i: usize = 0;
    while i < items.len()
        invariant
            0 <= i <= items@.len(),
            out@.len() == i,
            forall|j: int| 0 <= j < i ==> #[trigger] flat(items@[j]@).len() == n,
            forall|j: int| 0 <= j < i ==> (#[trigger] out@[j])@ == flat(items@[j]@),
        decreases items@.len() - i,
    {
        match flatten_exact(&items[i], n) {
            Ok(v) => {
                out.push(v);
            },
            Err(count) => {
                assert(is_first_bad(items@, n as nat, i as int));
                return Err(count);
            },
        }
        i = i + 1;
    }
    Ok(out)
}

} // verus!
