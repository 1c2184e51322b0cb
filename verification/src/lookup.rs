//! Key lookup in the two registries: what the first-index spec functions
//! mean, and the executable scans that realize them.

use vstd::prelude::*;

use crate::types::{app_index, donor_index, has_application, Donor, StudentApplication};

verus! {

/// `app_index` finds the first application from `student`, or -1 when the
/// registry holds none.
pub proof fn lemma_app_index_spec(s: Seq<StudentApplication>, student: u64)
    ensures
        -1 <= app_index(s, student) < s.len(),
        app_index(s, student) == -1 <==> !has_application(s, student),
        app_index(s, student) >= 0 ==> s[app_index(s, student)].student_address == student,
        forall|k: int|
            0 <= k < app_index(s, student) ==> (#[trigger] s[k]).student_address != student,
    decreases s.len(),
{
    if s.len() == 0 {
    } else if s[0].student_address == student {
    } else {
        let rest = s.drop_first();
        lemma_app_index_spec(rest, student);
        assert(forall|k: int| 0 <= k < rest.len() ==> rest[k] == s[k + 1]);
        if app_index(rest, student) == -1 {
            assert(!has_application(s, student)) by {
                if has_application(s, student) {
                    let i = choose|i: int|
                        0 <= i < s.len() && (#[trigger] s[i]).student_address == student;
                    assert(rest[i - 1].student_address == student);
                }
            }
        } else {
            let i = app_index(rest, student);
            assert(s[i + 1] == rest[i]);
            assert(has_application(s, student));
            assert forall|k: int| 0 <= k < app_index(s, student) implies (#[trigger] s[k]).student_address
                != student by {
                if k > 0 {
                    assert(s[k] == rest[k - 1]);
                }
            }
        }
    }
}

/// When `k` is the first position holding an application from `student`,
/// `app_index` returns exactly `k`.
pub proof fn lemma_app_index_found(s: Seq<StudentApplication>, student: u64, k: int)
    requires
        0 <= k < s.len(),
        s[k].student_address == student,
        forall|j: int| 0 <= j < k ==> (#[trigger] s[j]).student_address != student,
    ensures
        app_index(s, student) == k,
    decreases s.len(),
{
    if s[0].student_address == student {
        assert(k == 0);
    } else {
        let rest = s.drop_first();
        assert(forall|j: int| 0 <= j < rest.len() ==> rest[j] == s[j + 1]);
        lemma_app_index_found(rest, student, k - 1);
    }
}

/// `donor_index` finds the first record for `address`, or -1 when the ledger
/// holds none.
pub proof fn lemma_donor_index_spec(s: Seq<Donor>, address: u64)
    ensures
        -1 <= donor_index(s, address) < s.len(),
        donor_index(s, address) == -1 <==> (forall|k: int|
            0 <= k < s.len() ==> (#[trigger] s[k]).address != address),
        donor_index(s, address) >= 0 ==> s[donor_index(s, address)].address == address,
        forall|k: int| 0 <= k < donor_index(s, address) ==> (#[trigger] s[k]).address != address,
    decreases s.len(),
{
    if s.len() == 0 {
    } else if s[0].address == address {
    } else {
        let rest = s.drop_first();
        lemma_donor_index_spec(rest, address);
        assert(forall|k: int| 0 <= k < rest.len() ==> rest[k] == s[k + 1]);
        if donor_index(rest, address) == -1 {
            assert forall|k: int| 0 <= k < s.len() implies (#[trigger] s[k]).address
                != address by {
                if k > 0 {
                    assert(s[k] == rest[k - 1]);
                }
            }
        } else {
            let i = donor_index(rest, address);
            assert(s[i + 1] == rest[i]);
            assert forall|k: int| 0 <= k < donor_index(s, address) implies (#[trigger] s[k]).address
                != address by {
                if k > 0 {
                    assert(s[k] == rest[k - 1]);
                }
            }
        }
    }
}

/// When `k` is the first position holding a record for `address`,
/// `donor_index` returns exactly `k`.
pub proof fn lemma_donor_index_found(s: Seq<Donor>, address: u64, k: int)
    requires
        0 <= k < s.len(),
        s[k].address == address,
        forall|j: int| 0 <= j < k ==> (#[trigger] s[j]).address != address,
    ensures
        donor_index(s, address) == k,
    decreases s.len(),
{
    if s[0].address == address {
        assert(k == 0);
    } else {
        let rest = s.drop_first();
        assert(forall|j: int| 0 <= j < rest.len() ==> rest[j] == s[j + 1]);
        lemma_donor_index_found(rest, address, k - 1);
    }
}

/// Scan the application registry for `student`.
pub(crate) fn find_application(apps: &Vec<StudentApplication>, student: u64) -> (r: Option<usize>)
    ensures
        match r {
            Some(i) => app_index(apps@, student) == i as int && i < apps@.len(),
            None => app_index(apps@, student) == -1 && !has_application(apps@, student),
        },
{
    let n = apps.len();
    for i in 0..n
        invariant
            n == apps@.len(),
            forall|k: int| 0 <= k < i ==> (#[trigger] apps@[k]).student_address != student,
    {
        if apps[i].student_address == student {
            proof {
                lemma_app_index_found(apps@, student, i as int);
            }
            return Some(i);
        }
    }
    proof {
        lemma_app_index_spec(apps@, student);
    }
    None
}

/// Scan the donor ledger for `address`.
pub(crate) fn find_donor(donors: &Vec<Donor>, address: u64) -> (r: Option<usize>)
    ensures
        match r {
            Some(i) => donor_index(donors@, address) == i as int && i < donors@.len(),
            None => donor_index(donors@, address) == -1,
        },
{
    let n = donors.len();
    for i in 0..n
        invariant
            n == donors@.len(),
            forall|k: int| 0 <= k < i ==> (#[trigger] donors@[k]).address != address,
    {
        if donors[i].address == address {
            proof {
                lemma_donor_index_found(donors@, address, i as int);
            }
            return Some(i);
        }
    }
    proof {
        lemma_donor_index_spec(donors@, address);
    }
    None
}

} // verus!
