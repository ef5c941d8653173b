//! Verdicts of validators, and the rule that the first failure wins.

use crate::error_codes::VcfError;
use crate::error_codes::VcfErrorCode;
use vstd::prelude::*;

verus! {

/// What a validator decides: a count on success, else the violation with its offending text.
pub type Verdict = Result<nat, VcfError>;

/// The verdict that an executable result stands for.
pub open spec fn verdict_of(res: Result<usize, VcfErrorCode>) -> Verdict {
    match res {
        Ok(n) => Ok(n as nat),
        Err(e) => Err(e@),
    }
}

/// Whether `verdicts[i]` is a failure and nothing before it is.
pub open spec fn fails_first_at(verdicts: Seq<Verdict>, i: int) -> bool {
    &&& 0 <= i < verdicts.len()
    &&& verdicts[i] is Err
    &&& forall|j: int| 0 <= j < i ==> (#[trigger] verdicts[j]) is Ok
}

/// The earliest failure among `verdicts`, or `Ok(0)` when none fails.
pub open spec fn first_failure(verdicts: Seq<Verdict>) -> Verdict {
    if exists|i: int| fails_first_at(verdicts, i) {
        verdicts[choose|i: int| fails_first_at(verdicts, i)]
    } else {
        Ok(0)
    }
}

/// The earliest failure is the verdict at the one index that fails first.
pub proof fn lemma_first_failure_at(verdicts: Seq<Verdict>, i: int)
    requires
        fails_first_at(verdicts, i),
    ensures
        first_failure(verdicts) == verdicts[i],
{
    let k = choose|k: int| fails_first_at(verdicts, k);
    assert(fails_first_at(verdicts, k));
    if k < i {
        assert(verdicts[k] is Ok);
    }
    if i < k {
        assert(verdicts[i] is Ok);
    }
}

/// Where some verdict is a failure, one of them is the first.
pub proof fn lemma_failure_has_first(verdicts: Seq<Verdict>, i: int)
    requires
        0 <= i < verdicts.len(),
        verdicts[i] is Err,
    ensures
        exists|k: int| 0 <= k <= i && fails_first_at(verdicts, k),
    decreases i,
{
    if exists|j: int| 0 <= j < i && (#[trigger] verdicts[j]) is Err {
        let j = choose|j: int| 0 <= j < i && (#[trigger] verdicts[j]) is Err;
        lemma_failure_has_first(verdicts, j);
        let k = choose|k: int| 0 <= k <= j && fails_first_at(verdicts, k);
        assert(0 <= k <= i && fails_first_at(verdicts, k));
    } else {
        assert(fails_first_at(verdicts, i));
    }
}

/// The earliest failure is a success exactly when no verdict is a failure.
pub proof fn lemma_first_failure_ok(verdicts: Seq<Verdict>)
    ensures
        first_failure(verdicts) is Ok <==> forall|j: int|
            0 <= j < verdicts.len() ==> (#[trigger] verdicts[j]) is Ok,
        first_failure(verdicts) is Ok ==> first_failure(verdicts) == Ok::<nat, VcfError>(0),
{
    if exists|i: int| fails_first_at(verdicts, i) {
        let k = choose|i: int| fails_first_at(verdicts, i);
        assert(verdicts[k] is Err);
    } else {
        assert forall|j: int| 0 <= j < verdicts.len() implies (#[trigger] verdicts[j]) is Ok by {
            if verdicts[j] is Err {
                lemma_failure_has_first(verdicts, j);
            }
        }
    }
}

/// One more verdict changes the earliest failure only where there was none.
pub proof fn lemma_first_failure_push(verdicts: Seq<Verdict>, last: Verdict)
    ensures
        first_failure(verdicts) is Err ==> first_failure(verdicts.push(last)) == first_failure(
            verdicts,
        ),
        first_failure(verdicts) is Ok && last is Err ==> first_failure(verdicts.push(last))
            == last,
        first_failure(verdicts) is Ok && last is Ok ==> first_failure(verdicts.push(last)) is Ok,
{
    let longer = verdicts.push(last);
    lemma_first_failure_ok(verdicts);
    lemma_first_failure_ok(longer);
    if first_failure(verdicts) is Err {
        let k = choose|i: int| fails_first_at(verdicts, i);
        assert(fails_first_at(verdicts, k));
        assert(fails_first_at(longer, k)) by {
            assert(longer[k] == verdicts[k]);
            assert forall|j: int| 0 <= j < k implies (#[trigger] longer[j]) is Ok by {
                assert(longer[j] == verdicts[j]);
            }
        }
        lemma_first_failure_at(longer, k);
    } else if last is Err {
        let n = verdicts.len() as int;
        assert(fails_first_at(longer, n)) by {
            assert(longer[n] == last);
            assert forall|j: int| 0 <= j < n implies (#[trigger] longer[j]) is Ok by {
                assert(longer[j] == verdicts[j]);
            }
        }
        lemma_first_failure_at(longer, n);
    } else {
        assert forall|j: int| 0 <= j < longer.len() implies (#[trigger] longer[j]) is Ok by {
            if j < verdicts.len() {
                assert(longer[j] == verdicts[j]);
            }
        }
    }
}

} // verus!
