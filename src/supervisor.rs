use crate::context::{NwipeContext, SelectStatus};
use vstd::prelude::*;

verus! {

/// The result of all wipes together: -1 if any failed, else 1 if any was
/// cancelled or ended with a non-fatal error, else 0.
pub open spec fn aggregate_spec(results: Seq<i32>) -> int {
    if exists|i: int| 0 <= i < results.len() && results[i] < 0 {
        -1
    } else if exists|i: int| 0 <= i < results.len() && results[i] > 0 {
        1
    } else {
        0
    }
}

/// The result of all wipes together: -1 if any failed, else 1 if any was
/// cancelled or ended with a non-fatal error, else 0.
pub fn aggregate_results(results: &Vec<i32>) -> (r: i32)
    ensures
        r == aggregate_spec(results@),
{
    let mut any_fatal = false;
    let mut any_nonfatal = false;
    let mut i: usize = 0;
    while i < results.len()
        invariant
            i <= results@.len(),
            any_fatal == exists|j: int| 0 <= j < i && results@[j] < 0,
            any_nonfatal == exists|j: int| 0 <= j < i && results@[j] > 0,
        decreases results@.len() - i,
    {
        if results[i] < 0 {
            any_fatal = true;
        }
        if results[i] > 0 {
            any_nonfatal = true;
        }
        i += 1;
    }
    if any_fatal {
        -1
    } else if any_nonfatal {
        1
    } else {
        0
    }
}

/// The process's exit code for an aggregate result: 0 for success and 1
/// otherwise, a fatal aggregate included.
pub fn exit_code(aggregate: i32) -> (r: i32)
    ensures
        r == if aggregate == 0 {
            0int
        } else {
            1int
        },
{
    if aggregate == 0 {
        0
    } else {
        1
    }
}

/// Marks every device selected when `autonuke` holds, and none otherwise.
pub fn select_devices(contexts: &mut Vec<NwipeContext>, autonuke: bool)
    ensures
        final(contexts)@.len() == old(contexts)@.len(),
        forall|i: int|
            0 <= i < final(contexts)@.len() ==> (#[trigger] final(contexts)@[i]).select == if autonuke {
                SelectStatus::True
            } else {
                SelectStatus::False
            },
        forall|i: int|
            0 <= i < final(contexts)@.len() ==> (#[trigger] final(contexts)@[i]).device_name == old(
                contexts,
            )@[i].device_name,
{
    let n = contexts.len();
    let mut i: usize = 0;
    while i < n
        invariant
            n == contexts@.len(),
            n == old(contexts)@.len(),
            i <= n,
            forall|j: int|
                0 <= j < i ==> (#[trigger] contexts@[j]).select == if autonuke {
                    SelectStatus::True
                } else {
                    SelectStatus::False
                },
            forall|j: int| 0 <= j < n ==> (#[trigger] contexts@[j]).device_name == old(contexts)@[j].device_name,
        decreases n - i,
    {
        contexts[i].select = if autonuke {
            SelectStatus::True
        } else {
            SelectStatus::False
        };
        i += 1;
    }
}

/// The positions of the selected devices, in order.
pub fn selected_indices(contexts: &Vec<NwipeContext>) -> (r: Vec<usize>)
    ensures
        forall|k: int| 0 <= k < r@.len() ==> r@[k] < contexts@.len() && contexts@[r@[k] as int].select
            == SelectStatus::True,
        forall|k: int, l: int| 0 <= k < l < r@.len() ==> r@[k] < r@[l],
        forall|i: int|
            0 <= i < contexts@.len() && (#[trigger] contexts@[i]).select == SelectStatus::True ==> exists|k: int|
                0 <= k < r@.len() && r@[k] == i,
{
    let mut r: Vec<usize> = Vec::new();
    let mut i: usize = 0;
    while i < contexts.len()
        invariant
            i <= contexts@.len(),
            forall|k: int| 0 <= k < r@.len() ==> r@[k] < i && contexts@[r@[k] as int].select == SelectStatus::True,
            forall|k: int, l: int| 0 <= k < l < r@.len() ==> r@[k] < r@[l],
            forall|j: int|
                0 <= j < i && (#[trigger] contexts@[j]).select == SelectStatus::True ==> exists|k: int|
                    0 <= k < r@.len() && r@[k] == j,
        decreases contexts@.len() - i,
    {
        let ghost before = r@;
        if contexts[i].select == SelectStatus::True {
            r.push(i);
        }
        assert forall|j: int|
            0 <= j < i + 1 && (#[trigger] contexts@[j]).select == SelectStatus::True implies exists|k: int|
                0 <= k < r@.len() && r@[k] == j by {
            if j == i {
                assert(r@[r@.len() - 1] == j);
            } else {
                let k = choose|k: int| 0 <= k < before.len() && before[k] == j;
                assert(r@[k] == j);
            }
        }
        i += 1;
    }
    r
}

} // verus!
