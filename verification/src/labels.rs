//! Integer class labels and their valid range.

use vstd::prelude::*;
use crate::error::DataRangeError;

verus! {

/// `label` names one of `num_classes` classes.
pub open spec fn label_in_range(label: i64, num_classes: usize) -> bool {
    0 <= label < num_classes
}

/// Every label names one of `num_classes` classes.
pub open spec fn labels_in_range(labels: Seq<i64>, num_classes: usize) -> bool {
    forall|i: int| 0 <= i < labels.len() ==> label_in_range(#[trigger] labels[i], num_classes)
}

/// `e` reports the first label of `labels` that is out of range.
pub open spec fn is_first_out_of_range(
    e: DataRangeError,
    labels: Seq<i64>,
    num_classes: usize,
) -> bool {
    &&& e.index < labels.len()
    &&& e.label == labels[e.index as int]
    &&& !label_in_range(e.label, num_classes)
    &&& labels_in_range(labels.take(e.index as int), num_classes)
}

/// At most one error reports the first label out of range.
pub proof fn lemma_first_out_of_range_unique(
    a: DataRangeError,
    b: DataRangeError,
    labels: Seq<i64>,
    num_classes: usize,
)
    requires
        is_first_out_of_range(a, labels, num_classes),
        is_first_out_of_range(b, labels, num_classes),
    ensures
        a == b,
{
    if a.index < b.index {
        assert(labels.take(b.index as int)[a.index as int] == labels[a.index as int]);
    } else if b.index < a.index {
        assert(labels.take(a.index as int)[b.index as int] == labels[b.index as int]);
    }
}

/// Accepts the labels if each names a class, and else reports the first that
/// does not.
pub fn check_labels(labels: &Vec<i64>, num_classes: usize) -> (r: Result<(), DataRangeError>)
    ensures
        r.is_ok() <==> labels_in_range(labels@, num_classes),
        r.is_err() ==> is_first_out_of_range(r.unwrap_err(), labels@, num_classes),
{
    let mut i: usize = 0;
    while i < labels.len()
        invariant
            i <= labels.len(),
            labels_in_range(labels@.take(i as int), num_classes),
        decreases labels.len() - i,
    {
        let label = labels[i];
        if label < 0 || (label as u64) >= (num_classes as u64) {
            proof {
                assert(!label_in_range(labels@[i as int], num_classes));
            }
            return Err(DataRangeError { index: i, label });
        }
        proof {
            assert forall|j: int| 0 <= j < i + 1 implies label_in_range(
                #[trigger] labels@.take(i + 1)[j],
                num_classes,
            ) by {
                if j < i {
                    assert(labels@.take(i + 1)[j] == labels@.take(i as int)[j]);
                }
            }
        }
        i += 1;
    }
    proof {
        assert(labels@.take(i as int) =~= labels@);
    }
    Ok(())
}

} // verus!
