//! Accumulation of sandbox denial diagnostics.
//!
//! On the platform that offers a structured log stream, a purely
//! diagnostic observer collects, while a sandboxed child runs, one
//! `(process name, denied capability)` pair per enforcement denial.
//! Watching the stream is the calling layer's work and must never affect
//! the run; the de-duplication of what was observed is verified here.

use vstd::prelude::*;

verus! {

/// One observed enforcement denial: the reporting process's name and the
/// capability the kernel refused.
pub struct SandboxDenial {
    pub name: String,
    pub capability: String,
}

impl View for SandboxDenial {
    type V = (Seq<char>, Seq<char>);

    open spec fn view(&self) -> (Seq<char>, Seq<char>) {
        (self.name@, self.capability@)
    }
}

impl DeepView for SandboxDenial {
    type V = (Seq<char>, Seq<char>);

    open spec fn deep_view(&self) -> (Seq<char>, Seq<char>) {
        self.view()
    }
}

impl Clone for SandboxDenial {
    fn clone(&self) -> (r: Self)
        ensures
            r@ == self@,
    {
        SandboxDenial { name: self.name.clone(), capability: self.capability.clone() }
    }
}

/// `events` with every repetition of an earlier pair dropped; first
/// occurrences keep their order.
pub open spec fn spec_dedup(events: Seq<(Seq<char>, Seq<char>)>) -> Seq<(Seq<char>, Seq<char>)>
    decreases events.len(),
{
    if events.len() == 0 {
        Seq::<(Seq<char>, Seq<char>)>::empty()
    } else {
        let prefix = spec_dedup(events.drop_last());
        if events.drop_last().contains(events.last()) {
            prefix
        } else {
            prefix.push(events.last())
        }
    }
}

/// Nothing appears twice in a de-duplicated report.
pub proof fn lemma_dedup_distinct(events: Seq<(Seq<char>, Seq<char>)>)
    ensures
        forall|j: int, k: int|
            0 <= j < k < spec_dedup(events).len() ==> #[trigger] spec_dedup(events)[j]
                != #[trigger] spec_dedup(events)[k],
        forall|k: int|
            0 <= k < spec_dedup(events).len() ==> events.contains(#[trigger] spec_dedup(events)[k]),
    decreases events.len(),
{
    if events.len() > 0 {
        lemma_dedup_distinct(events.drop_last());
        let sub = events.drop_last();
        let prev = spec_dedup(sub);
        let whole = spec_dedup(events);
        assert forall|k: int| 0 <= k < whole.len() implies events.contains(
            #[trigger] whole[k],
        ) by {
            if k < prev.len() {
                assert(sub.contains(prev[k]));
                let j = choose|j: int| 0 <= j < sub.len() && sub[j] == prev[k];
                assert(events[j] == prev[k]);
            } else {
                assert(whole[k] == events[events.len() - 1]);
            }
        }
        assert forall|j: int, k: int| 0 <= j < k < whole.len() implies #[trigger] whole[j]
            != #[trigger] whole[k] by {
            if k >= prev.len() && !sub.contains(events.last()) {
                assert(sub.contains(whole[j]));
            }
        }
    }
}

/// De-duplication loses no information: every observed denial is still
/// in the report.
pub proof fn lemma_dedup_complete(events: Seq<(Seq<char>, Seq<char>)>)
    ensures
        forall|i: int|
            0 <= i < events.len() ==> spec_dedup(events).contains(#[trigger] events[i]),
    decreases events.len(),
{
    if events.len() > 0 {
        let sub = events.drop_last();
        lemma_dedup_complete(sub);
        let prev = spec_dedup(sub);
        let whole = spec_dedup(events);
        assert forall|i: int| 0 <= i < events.len() implies whole.contains(
            #[trigger] events[i],
        ) by {
            if i < events.len() - 1 {
                assert(prev.contains(sub[i]));
                let k = choose|k: int| 0 <= k < prev.len() && prev[k] == sub[i];
                assert(whole[k] == events[i]);
            } else if sub.contains(events.last()) {
                let j = choose|j: int| 0 <= j < sub.len() && sub[j] == events.last();
                assert(prev.contains(sub[j]));
                let k = choose|k: int| 0 <= k < prev.len() && prev[k] == sub[j];
                assert(whole[k] == events[i]);
            } else {
                assert(whole[prev.len() as int] == events[i]);
            }
        }
    }
}

fn denial_eq(a: &SandboxDenial, b: &SandboxDenial) -> (r: bool)
    ensures
        r == (a@ == b@),
{
    a.name.eq(&b.name) && a.capability.eq(&b.capability)
}

fn contains_denial(v: &Vec<SandboxDenial>, upto: usize, d: &SandboxDenial) -> (b: bool)
    requires
        upto <= v@.len(),
    ensures
        b == v.deep_view().subrange(0, upto as int).contains(d@),
{
    let ghost prefix = v.deep_view().subrange(0, upto as int);
    let mut i: usize = 0;
    while i < upto
        invariant
            i <= upto,
            upto <= v@.len(),
            prefix == v.deep_view().subrange(0, upto as int),
            forall|j: int| 0 <= j < i ==> prefix[j] != d@,
        decreases upto - i,
    {
        if denial_eq(&v[i], d) {
            assert(prefix[i as int] == d@);
            return true;
        }
        i += 1;
    }
    false
}

/// The observed denials with repetitions dropped, first occurrences in
/// order. Exactly [`spec_dedup`].
pub fn accumulate_denials(events: &Vec<SandboxDenial>) -> (r: Vec<SandboxDenial>)
    ensures
        r.deep_view() == spec_dedup(events.deep_view()),
{
    let mut r: Vec<SandboxDenial> = Vec::new();
    let mut i: usize = 0;
    while i < events.len()
        invariant
            i <= events@.len(),
            r.deep_view() == spec_dedup(events.deep_view().subrange(0, i as int)),
        decreases events@.len() - i,
    {
        let ghost prefix = events.deep_view().subrange(0, i as int);
        let ghost next = events.deep_view().subrange(0, i + 1 as int);
        proof {
            assert(next.drop_last() =~= prefix);
            assert(next.last() == events.deep_view()[i as int]);
        }
        if !contains_denial(events, i, &events[i]) {
            let kept = events[i].clone();
            let ghost pre = r.deep_view();
            r.push(kept);
            proof {
                assert(r.deep_view() =~~= pre.push(events.deep_view()[i as int]));
            }
        }
        i += 1;
    }
    proof {
        assert(events.deep_view().subrange(0, events@.len() as int) =~= events.deep_view());
    }
    r
}

} // verus!
