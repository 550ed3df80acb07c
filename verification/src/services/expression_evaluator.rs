//! Decisions of expression evaluation that need no value beyond plain
//! integers: where an index access on a list reads.
use vstd::prelude::*;

use crate::errors::{EvalError, EvalErrorModel};
use crate::text::{append_str, decimal_digits, u64_text};

verus! {

/// The error for a list index that is not a non-negative integer.
pub open spec fn invalid_index_error() -> EvalErrorModel {
    EvalErrorModel::TypeError("index must be a non-negative integer"@)
}

/// The error for a list index past the end of a list of length `len`.
pub open spec fn out_of_bounds_error(position: nat, len: nat) -> EvalErrorModel {
    EvalErrorModel::TypeError(
        "index "@ + decimal_digits(position) + " out of bounds for array of length "@ + decimal_digits(len),
    )
}

/// What indexing a list of length `len` reads: `index` is the index when it
/// is a non-negative integer, `None` for any other number.
pub open spec fn list_index_outcome(len: nat, index: Option<u64>) -> Result<nat, EvalErrorModel> {
    match index {
        Some(i) => if i > usize::MAX {
            Err(invalid_index_error())
        } else if i < len {
            Ok(i as nat)
        } else {
            Err(out_of_bounds_error(i as nat, len))
        },
        None => Err(invalid_index_error()),
    }
}

/// Index `i` of a list reads its `i`-th item: an integer index below the
/// length is read at exactly that position, and every position read is the
/// index itself, below the length. An index at or past the length is
/// refused with an error that names the index and the length, and anything
/// but a non-negative integer is refused as such.
pub proof fn lemma_list_index_reads_the_indexed_item(len: usize, index: Option<u64>)
    ensures
        index is Some && index->0 < len ==> list_index_outcome(len as nat, index) == Ok::<nat, EvalErrorModel>(index->0 as nat),
        list_index_outcome(len as nat, index) matches Ok(p) ==> index == Some(p as u64) && p < len,
        index is Some && len <= index->0 <= usize::MAX ==> list_index_outcome(len as nat, index)
            == Err::<nat, EvalErrorModel>(EvalErrorModel::TypeError(
                "index "@ + decimal_digits(index->0 as nat) + " out of bounds for array of length "@ + decimal_digits(len as nat),
            )),
        index is None ==> list_index_outcome(len as nat, index)
            == Err::<nat, EvalErrorModel>(EvalErrorModel::TypeError("index must be a non-negative integer"@)),
{
}

/// Where an index access on a list of length `len` reads: the position,
/// when `index` is a non-negative integer within the list; otherwise the
/// type error that says why not.
pub fn list_index(len: usize, index: Option<u64>) -> (r: Result<usize, EvalError>)
    ensures
        match r {
            Ok(p) => list_index_outcome(len as nat, index) == Ok::<nat, EvalErrorModel>(p as nat),
            Err(e) => list_index_outcome(len as nat, index) == Err::<nat, EvalErrorModel>(e@),
        },
        index is Some && index->0 < len ==> r == Ok::<usize, EvalError>(index->0 as usize),
        r matches Ok(p) ==> index == Some(p as u64) && p < len,
{
    let i = match index {
        Some(i) => i,
        None => {
            return Err(EvalError::TypeError("index must be a non-negative integer".to_owned()));
        },
    };
    if i > usize::MAX as u64 {
        return Err(EvalError::TypeError("index must be a non-negative integer".to_owned()));
    }
    let position = i as usize;
    if position < len {
        return Ok(position);
    }
    let mut m = "index ".to_owned();
    let digits = u64_text(i);
    append_str(&mut m, digits.as_str());
    append_str(&mut m, " out of bounds for array of length ");
    let count = u64_text(len as u64);
    append_str(&mut m, count.as_str());
    proof {
        assert(m@ =~= "index "@ + decimal_digits(index->0 as nat) + " out of bounds for array of length "@ + decimal_digits(len as nat));
    }
    Err(EvalError::TypeError(m))
}

} // verus!
