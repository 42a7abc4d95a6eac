//! Validation of input values: what a validator reports, and how the
//! reports of several validators combine.

use vstd::prelude::*;
use crate::text::text_of;
use crate::widget_core::texts;

verus! {

/// The outcome of validating a value: whether it is valid, and why not.
#[derive(Debug, Clone, PartialEq, Eq)]
pub struct ValidationResult {
    pub is_valid: bool,
    pub failure_descriptions: Vec<String>,
}

/// A validation outcome by content: validity and the failure descriptions.
pub open spec fn outcome(r: ValidationResult) -> (bool, Seq<Seq<char>>) {
    (r.is_valid, texts(r.failure_descriptions@))
}

impl ValidationResult {
    /// A valid outcome with no failures.
    pub fn success() -> (r: ValidationResult)
        ensures
            outcome(r) == (true, Seq::<Seq<char>>::empty()),
    {
        let r = ValidationResult { is_valid: true, failure_descriptions: Vec::new() };
        assert(texts(r.failure_descriptions@) =~= Seq::<Seq<char>>::empty());
        r
    }

    /// A copy of this outcome.
    pub fn duplicate(&self) -> (r: ValidationResult)
        ensures
            outcome(r) == outcome(*self),
    {
        let mut d: Vec<String> = Vec::new();
        let mut i: usize = 0;
        while i < self.failure_descriptions.len()
            invariant
                i <= self.failure_descriptions@.len(),
                texts(d@) == texts(self.failure_descriptions@).take(i as int),
            decreases self.failure_descriptions@.len() - i,
        {
            let ghost before = d@;
            let t = text_of(self.failure_descriptions[i].as_str());
            d.push(t);
            assert(texts(d@) =~= texts(before).push(t@));
            assert(texts(self.failure_descriptions@).take(i as int + 1) =~= texts(self.failure_descriptions@).take(i as int).push(t@));
            i = i + 1;
        }
        assert(texts(self.failure_descriptions@).take(i as int) =~= texts(self.failure_descriptions@));
        ValidationResult { is_valid: self.is_valid, failure_descriptions: d }
    }
}

/// Checks values; implemented by the library's users.
pub trait Validator {
    fn validate(&self, value: &str) -> ValidationResult;
}

/// The failures reported by the invalid outcomes among `rs`, in order.
pub open spec fn failures_of(rs: Seq<(bool, Seq<Seq<char>>)>) -> Seq<Seq<char>>
    decreases rs.len(),
{
    if rs.len() == 0 {
        Seq::empty()
    } else {
        let prev = failures_of(rs.drop_last());
        if rs.last().0 { prev } else { prev + rs.last().1 }
    }
}

/// The combined outcome of several validators: valid when no failure was
/// reported, otherwise invalid with all reported failures.
pub open spec fn combined(rs: Seq<(bool, Seq<Seq<char>>)>) -> (bool, Seq<Seq<char>>) {
    let f = failures_of(rs);
    if f.len() == 0 { (true, Seq::empty()) } else { (false, f) }
}

/// Combine the outcomes of several validators, as [`combined`] states.
pub fn combine_results(rs: &Vec<ValidationResult>) -> (r: ValidationResult)
    ensures
        outcome(r) == combined(rs@.map_values(|x: ValidationResult| outcome(x))),
{
    let ghost all = rs@.map_values(|x: ValidationResult| outcome(x));
    let mut failures: Vec<String> = Vec::new();
    let mut i: usize = 0;
    proof {
        assert(all.take(0) =~= Seq::<(bool, Seq<Seq<char>>)>::empty());
    }
    while i < rs.len()
        invariant
            all == rs@.map_values(|x: ValidationResult| outcome(x)),
            i <= rs@.len(),
            texts(failures@) == failures_of(all.take(i as int)),
        decreases rs@.len() - i,
    {
        proof {
            assert(all.take(i as int + 1).drop_last() =~= all.take(i as int));
            assert(all.take(i as int + 1).last() == outcome(rs@[i as int]));
        }
        if !rs[i].is_valid {
            let mut j: usize = 0;
            let ghost f0 = texts(failures@);
            while j < rs[i].failure_descriptions.len()
                invariant
                    i < rs@.len(),
                    j <= rs@[i as int].failure_descriptions@.len(),
                    texts(failures@) == f0 + texts(rs@[i as int].failure_descriptions@).take(j as int),
                decreases rs@[i as int].failure_descriptions@.len() - j,
            {
                let ghost before = failures@;
                let t = text_of(rs[i].failure_descriptions[j].as_str());
                failures.push(t);
                assert(texts(failures@) =~= texts(before).push(t@));
                assert(texts(rs@[i as int].failure_descriptions@).take(j as int + 1)
                    =~= texts(rs@[i as int].failure_descriptions@).take(j as int).push(t@));
                j = j + 1;
            }
            assert(texts(rs@[i as int].failure_descriptions@).take(j as int) =~= texts(rs@[i as int].failure_descriptions@));
        }
        i = i + 1;
    }
    proof {
        assert(all.take(rs@.len() as int) =~= all);
    }
    if failures.len() == 0 {
        ValidationResult::success()
    } else {
        ValidationResult { is_valid: false, failure_descriptions: failures }
    }
}

proof fn lemma_failures_empty_when_all_valid(rs: Seq<(bool, Seq<Seq<char>>)>)
    requires
        forall|i: int| 0 <= i < rs.len() ==> (#[trigger] rs[i]).0,
    ensures
        failures_of(rs).len() == 0,
    decreases rs.len(),
{
    if rs.len() > 0 {
        assert forall|i: int| 0 <= i < rs.drop_last().len() implies (#[trigger] rs.drop_last()[i]).0 by {
            assert(rs.drop_last()[i] == rs[i]);
        }
        lemma_failures_empty_when_all_valid(rs.drop_last());
        assert(rs.last() == rs[rs.len() - 1]);
    }
}

proof fn lemma_failure_is_kept(rs: Seq<(bool, Seq<Seq<char>>)>, i: int, j: int)
    requires
        0 <= i < rs.len(),
        !rs[i].0,
        0 <= j < rs[i].1.len(),
    ensures
        failures_of(rs).contains(rs[i].1[j]),
    decreases rs.len(),
{
    let prev = failures_of(rs.drop_last());
    if i == rs.len() - 1 {
        assert(failures_of(rs) == prev + rs[i].1);
        assert(failures_of(rs)[prev.len() + j] == rs[i].1[j]);
    } else {
        assert(rs.drop_last()[i] == rs[i]);
        lemma_failure_is_kept(rs.drop_last(), i, j);
        let k = choose|k: int| 0 <= k < prev.len() && prev[k] == rs[i].1[j];
        if rs.last().0 {
            assert(failures_of(rs) == prev);
        } else {
            assert(failures_of(rs) == prev + rs.last().1);
            assert(failures_of(rs)[k] == prev[k]);
        }
    }
}

/// Where every validator accepts the value, the combined outcome is valid
/// with no failures.
pub proof fn law_all_valid_combine_to_valid(rs: Seq<(bool, Seq<Seq<char>>)>)
    requires
        forall|i: int| 0 <= i < rs.len() ==> (#[trigger] rs[i]).0,
    ensures
        combined(rs) == (true, Seq::<Seq<char>>::empty()),
{
    lemma_failures_empty_when_all_valid(rs);
}

/// Every failure that a rejecting validator reports is among the combined
/// failures, and the combined outcome is then invalid.
pub proof fn law_reported_failures_are_kept(rs: Seq<(bool, Seq<Seq<char>>)>, i: int, j: int)
    requires
        0 <= i < rs.len(),
        !rs[i].0,
        0 <= j < rs[i].1.len(),
    ensures
        !combined(rs).0,
        combined(rs).1.contains(rs[i].1[j]),
{
    lemma_failure_is_kept(rs, i, j);
}

} // verus!
