use vstd::prelude::*;
use crate::account::{RepoRef, User};
use crate::seq_views;
use crate::urls::str_eq;

verus! {

/// One repository's commit statistics, as the external analyzer reports
/// them: an opaque payload, only relayed.
pub struct UserCommitData<T> {
    pub repositories_data: T,
}

/// One failed extraction, reported beside the partial result instead of
/// aborting the run.
#[derive(Debug, Clone)]
pub struct ExtractionFailure {
    pub repository: String,
    pub error: String,
}

/// The terminal aggregate: repository name to that repository's commit
/// data, a later report with the same name overriding an earlier one.
pub struct RepoMap<T> {
    pub pairs: Vec<(String, T)>,
}

/// The mapping a pair sequence denotes, later pairs overriding earlier ones.
pub open spec fn spec_pairs_map<T>(pairs: Seq<(String, T)>) -> Map<Seq<char>, T>
    decreases pairs.len(),
{
    if pairs.len() == 0 {
        Map::empty()
    } else {
        spec_pairs_map(pairs.drop_last()).insert(pairs.last().0@, pairs.last().1)
    }
}

impl<T> View for RepoMap<T> {
    type V = Map<Seq<char>, T>;

    open spec fn view(&self) -> Map<Seq<char>, T> {
        spec_pairs_map(self.pairs@)
    }
}

impl<T> RepoMap<T> {
    pub fn new() -> (r: Self)
        ensures
            r@ == Map::<Seq<char>, T>::empty(),
            r.pairs@.len() == 0,
    {
        RepoMap { pairs: Vec::new() }
    }

    pub fn insert(&mut self, name: String, data: T)
        ensures
            final(self)@ == old(self)@.insert(name@, data),
            final(self).pairs@ == old(self).pairs@.push((name, data)),
    {
        let ghost prev = self.pairs@;
        self.pairs.push((name, data));
        proof {
            assert(self.pairs@.drop_last() =~= prev);
        }
    }

    /// The data recorded under `name`, if any: the last report wins.
    pub fn get(&self, name: &str) -> (r: Option<&T>)
        ensures
            r matches Some(v) ==> self@.dom().contains(name@) && *v == self@[name@],
            r is None ==> !self@.dom().contains(name@),
    {
        let n = self.pairs.len();
        proof {
            assert(self.pairs@.take(n as int) =~= self.pairs@);
        }
        let mut i: usize = n;
        while i > 0
            invariant
                0 <= i <= n,
                n == self.pairs@.len(),
                self@.dom().contains(name@) <==> spec_pairs_map(
                    self.pairs@.take(i as int),
                ).dom().contains(name@),
                spec_pairs_map(self.pairs@.take(i as int)).dom().contains(name@)
                    ==> spec_pairs_map(self.pairs@.take(i as int))[name@] == self@[name@],
            decreases i,
        {
            proof {
                assert(self.pairs@.take(i as int).drop_last() =~= self.pairs@.take(i - 1));
                assert(self.pairs@.take(i as int).last() == self.pairs@[i - 1]);
            }
            if str_eq(self.pairs[i - 1].0.as_str(), name) {
                return Some(&self.pairs[i - 1].1);
            }
            i = i - 1;
        }
        proof {
            assert(self.pairs@.take(0) =~= Seq::<(String, T)>::empty());
        }
        None
    }
}

/// The character-level shape of raw extraction outcomes.
pub open spec fn outcome_views<T>(outs: Seq<Result<T, String>>) -> Seq<Result<T, Seq<char>>> {
    outs.map_values(
        |o: Result<T, String>|
            match o {
                Ok(d) => Ok::<T, Seq<char>>(d),
                Err(e) => Err::<T, Seq<char>>(e@),
            },
    )
}

/// The character-level shape of the collector's slots; a slot still empty
/// reads as an empty failure, and never occurs once every unit has reported.
pub open spec fn slot_outcomes<T>(slots: Seq<Option<Result<T, String>>>) -> Seq<
    Result<T, Seq<char>>,
> {
    slots.map_values(
        |o: Option<Result<T, String>>|
            match o {
                Some(Ok(d)) => Ok::<T, Seq<char>>(d),
                Some(Err(e)) => Err::<T, Seq<char>>(e@),
                None => Err::<T, Seq<char>>(Seq::empty()),
            },
    )
}

/// The repository names of a handle sequence, in sequence order.
pub open spec fn repo_names(rs: Seq<RepoRef>) -> Seq<Seq<char>> {
    rs.map_values(|r: RepoRef| r.name@)
}

/// The character-level shape of a failure list.
pub open spec fn failure_views(fs: Seq<ExtractionFailure>) -> Seq<(Seq<char>, Seq<char>)> {
    fs.map_values(|f: ExtractionFailure| (f.repository@, f.error@))
}

/// The mapping the fan-in point builds: one unit per repository, in unit
/// order, each successful unit's data inserted under its repository name,
/// failed units left out.
pub open spec fn spec_aggregated<T>(
    names: Seq<Seq<char>>,
    outs: Seq<Result<T, Seq<char>>>,
) -> Map<Seq<char>, UserCommitData<T>>
    recommends
        names.len() == outs.len(),
    decreases names.len(),
{
    if names.len() == 0 {
        Map::empty()
    } else {
        let m = spec_aggregated(names.drop_last(), outs.drop_last());
        if outs.last() is Ok {
            m.insert(names.last(), UserCommitData { repositories_data: outs.last()->Ok_0 })
        } else {
            m
        }
    }
}

/// The failures the fan-in point records, in unit order.
pub open spec fn spec_failures<T>(names: Seq<Seq<char>>, outs: Seq<Result<T, Seq<char>>>) -> Seq<
    (Seq<char>, Seq<char>),
>
    recommends
        names.len() == outs.len(),
    decreases names.len(),
{
    if names.len() == 0 {
        Seq::empty()
    } else {
        let rest = spec_failures(names.drop_last(), outs.drop_last());
        if outs.last() is Err {
            rest.push((names.last(), outs.last()->Err_0))
        } else {
            rest
        }
    }
}

/// The fan-in collection point of the extraction stage: one slot per
/// repository, each unit reporting exactly once, in any order; the
/// per-slot storage makes the aggregate independent of arrival order.
pub struct Collector<T> {
    pub names: Vec<String>,
    pub slots: Vec<Option<Result<T, String>>>,
}

impl<T> Collector<T> {
    pub open spec fn wf(&self) -> bool {
        self.slots@.len() == self.names@.len()
    }

    pub open spec fn all_reported(&self) -> bool {
        forall|i: int| 0 <= i < self.slots@.len() ==> self.slots@[i] is Some
    }

    pub fn new(names: Vec<String>) -> (r: Self)
        ensures
            r.wf(),
            r.names == names,
            forall|i: int| 0 <= i < names@.len() ==> r.slots@[i] is None,
    {
        let n = names.len();
        let mut slots: Vec<Option<Result<T, String>>> = Vec::new();
        let mut i: usize = 0;
        while i < n
            invariant
                0 <= i <= n,
                slots@.len() == i,
                forall|j: int| 0 <= j < i ==> slots@[j] is None,
            decreases n - i,
        {
            slots.push(None);
            i = i + 1;
        }
        Collector { names, slots }
    }

    /// One unit's single report: the outcome for the unit at `index`;
    /// units report in any order, each at most once.
    pub fn report(&mut self, index: usize, outcome: Result<T, String>)
        requires
            old(self).wf(),
            index < old(self).slots@.len(),
            old(self).slots@[index as int] is None,
        ensures
            final(self).wf(),
            final(self).names == old(self).names,
            final(self).slots@ == old(self).slots@.update(index as int, Some(outcome)),
    {
        self.slots.set(index, Some(outcome));
    }

    /// Whether every unit has reported.
    pub fn is_complete(&self) -> (r: bool)
        ensures
            r <==> self.all_reported(),
    {
        let n = self.slots.len();
        let mut i: usize = 0;
        while i < n
            invariant
                0 <= i <= n,
                n == self.slots@.len(),
                forall|j: int| 0 <= j < i ==> self.slots@[j] is Some,
            decreases n - i,
        {
            if self.slots[i].is_none() {
                return false;
            }
            i = i + 1;
        }
        true
    }

    /// The fan-in result, available only once every unit has reported (the
    /// aggregation barrier): the keyed mapping of the successful units'
    /// data, and the failures in unit order.
    pub fn finish(self) -> (r: (RepoMap<UserCommitData<T>>, Vec<ExtractionFailure>))
        requires
            self.wf(),
            self.all_reported(),
        ensures
            r.0@ == spec_aggregated(seq_views(self.names@), slot_outcomes(self.slots@)),
            failure_views(r.1@) == spec_failures(
                seq_views(self.names@),
                slot_outcomes(self.slots@),
            ),
    {
        let Collector { names, slots } = self;
        let ghost names0 = names@;
        let ghost slots0 = slots@;
        let mut slots = slots;
        let mut map: RepoMap<UserCommitData<T>> = RepoMap::new();
        let mut failures: Vec<ExtractionFailure> = Vec::new();
        let n = names.len();
        let mut i: usize = 0;
        while i < n
            invariant
                0 <= i <= n,
                n == names0.len(),
                n == slots0.len(),
                names@ == names0,
                slots@ =~= slots0.skip(i as int),
                forall|j: int| 0 <= j < n ==> slots0[j] is Some,
                map@ == spec_aggregated(
                    seq_views(names0).take(i as int),
                    slot_outcomes(slots0).take(i as int),
                ),
                failure_views(failures@) == spec_failures(
                    seq_views(names0).take(i as int),
                    slot_outcomes(slots0).take(i as int),
                ),
            decreases n - i,
        {
            let name = names[i].clone();
            let slot = slots.remove(0);
            proof {
                let nv = seq_views(names0);
                let ov = slot_outcomes(slots0);
                assert(slots0.skip(i as int)[0] == slots0[i as int]);
                assert(slots0.skip(i as int).remove(0) =~= slots0.skip(i + 1));
                assert(nv.take(i + 1).drop_last() =~= nv.take(i as int));
                assert(ov.take(i + 1).drop_last() =~= ov.take(i as int));
                assert(nv.take(i + 1).last() == names0[i as int]@);
                assert(ov.take(i + 1).last() == ov[i as int]);
            }
            match slot {
                Some(Ok(data)) => {
                    map.insert(name, UserCommitData { repositories_data: data });
                    proof {
                        assert(map@ =~= spec_aggregated(
                            seq_views(names0).take(i + 1),
                            slot_outcomes(slots0).take(i + 1),
                        ));
                    }
                },
                Some(Err(error)) => {
                    let ghost fprev = failures@;
                    failures.push(ExtractionFailure { repository: name, error });
                    proof {
                        assert(failures@.drop_last() =~= fprev);
                        assert(failure_views(failures@) =~= spec_failures(
                            seq_views(names0).take(i + 1),
                            slot_outcomes(slots0).take(i + 1),
                        ));
                    }
                },
                None => {
                    proof {
                        assert(false);
                    }
                },
            }
            i = i + 1;
        }
        proof {
            assert(seq_views(names0).take(n as int) =~= seq_views(names0));
            assert(slot_outcomes(slots0).take(n as int) =~= slot_outcomes(slots0));
        }
        (map, failures)
    }
}

impl User {
    /// Fans one extraction outcome per repository into the single keyed
    /// mapping, the repository's bare name as the key. Arrival order across
    /// repositories is irrelevant. A failed repository is reported beside
    /// the partial result, never allowed to abort the others.
    pub fn committed_data<T>(self, outcomes: Vec<Result<T, String>>) -> (r: (
        RepoMap<UserCommitData<T>>,
        Vec<ExtractionFailure>,
    ))
        requires
            outcomes@.len() == self.repositories@.len(),
        ensures
            r.0@ == spec_aggregated(repo_names(self.repositories@), outcome_views(outcomes@)),
            failure_views(r.1@) == spec_failures(
                repo_names(self.repositories@),
                outcome_views(outcomes@),
            ),
    {
        let ghost repos0 = self.repositories@;
        let ghost outs0 = outcomes@;
        let n = self.repositories.len();
        let mut names: Vec<String> = Vec::new();
        let mut i: usize = 0;
        while i < n
            invariant
                0 <= i <= n,
                n == self.repositories@.len(),
                names@.len() == i,
                forall|k: int| 0 <= k < i ==> (#[trigger] names@[k])@ == self.repositories@[k].name@,
            decreases n - i,
        {
            names.push(self.repositories[i].name.clone());
            i = i + 1;
        }
        let mut collector: Collector<T> = Collector::new(names);
        let mut outcomes = outcomes;
        let mut j: usize = 0;
        while j < n
            invariant
                0 <= j <= n,
                n == outs0.len(),
                n == repos0.len(),
                collector.wf(),
                collector.names@.len() == n,
                forall|k: int| 0 <= k < n ==> (#[trigger] collector.names@[k])@ == repos0[k].name@,
                outcomes@ =~= outs0.skip(j as int),
                forall|k: int| 0 <= k < j ==> (#[trigger] collector.slots@[k]) == Some(outs0[k]),
                forall|k: int| j <= k < n ==> (#[trigger] collector.slots@[k]) is None,
            decreases n - j,
        {
            let outcome = outcomes.remove(0);
            proof {
                assert(outs0.skip(j as int)[0] == outs0[j as int]);
                assert(outs0.skip(j as int).remove(0) =~= outs0.skip(j + 1));
            }
            collector.report(j, outcome);
            j = j + 1;
        }
        proof {
            assert(seq_views(collector.names@) =~= repo_names(repos0));
            assert(slot_outcomes(collector.slots@) =~= outcome_views(outs0));
        }
        collector.finish()
    }
}

/// Reports for two different units commute: the collector's slots end up
/// the same whichever of the two reports arrives first, so the aggregate
/// depends only on what each unit reported, never on arrival order.
pub proof fn lemma_report_order_irrelevant<T>(
    slots: Seq<Option<Result<T, String>>>,
    i: int,
    j: int,
    a: Result<T, String>,
    b: Result<T, String>,
)
    requires
        0 <= i < slots.len(),
        0 <= j < slots.len(),
        i != j,
    ensures
        slots.update(i, Some(a)).update(j, Some(b)) == slots.update(j, Some(b)).update(i, Some(a)),
{
    assert(slots.update(i, Some(a)).update(j, Some(b)) =~= slots.update(j, Some(b)).update(
        i,
        Some(a),
    ));
}

/// Whether the repository names are pairwise distinct.
pub open spec fn spec_distinct(names: Seq<Seq<char>>) -> bool {
    forall|i: int, j: int| 0 <= i < j < names.len() ==> names[i] != names[j]
}

proof fn lemma_failures_empty_when_all_ok<T>(names: Seq<Seq<char>>, outs: Seq<Result<T, Seq<char>>>)
    requires
        names.len() == outs.len(),
        forall|i: int| 0 <= i < outs.len() ==> (#[trigger] outs[i]) is Ok,
    ensures
        spec_failures(names, outs) == Seq::<(Seq<char>, Seq<char>)>::empty(),
    decreases names.len(),
{
    if names.len() > 0 {
        lemma_failures_empty_when_all_ok(names.drop_last(), outs.drop_last());
    }
}

/// How the fan-in aggregate relates to the units, for pairwise distinct
/// repository names: a successful unit's name maps to exactly its unit's
/// data; a failed unit's name is absent from the mapping and reported,
/// with its error, among the failures; and the mapping holds no key beyond
/// the units' names.
pub proof fn lemma_aggregated_characterized<T>(
    names: Seq<Seq<char>>,
    outs: Seq<Result<T, Seq<char>>>,
)
    requires
        names.len() == outs.len(),
        spec_distinct(names),
    ensures
        forall|i: int|
            0 <= i < names.len() && (#[trigger] outs[i]) is Ok ==> spec_aggregated(
                names,
                outs,
            ).dom().contains(names[i]) && spec_aggregated(names, outs)[names[i]] == (UserCommitData {
                repositories_data: outs[i]->Ok_0,
            }),
        forall|i: int|
            0 <= i < names.len() && (#[trigger] outs[i]) is Err ==> !spec_aggregated(
                names,
                outs,
            ).dom().contains(names[i]) && spec_failures(names, outs).contains(
                (names[i], outs[i]->Err_0),
            ),
        forall|x: Seq<char>|
            spec_aggregated(names, outs).dom().contains(x) ==> names.contains(x),
    decreases names.len(),
{
    if names.len() > 0 {
        let np = names.drop_last();
        let op = outs.drop_last();
        let last = (names.len() - 1) as int;
        assert(spec_distinct(np)) by {
            assert(forall|i: int, j: int|
                0 <= i < j < np.len() ==> np[i] == names[i] && np[j] == names[j]);
        }
        lemma_aggregated_characterized(np, op);
        let m = spec_aggregated(names, outs);
        let mp = spec_aggregated(np, op);
        let f = spec_failures(names, outs);
        let fp = spec_failures(np, op);
        assert(!mp.dom().contains(names[last])) by {
            if mp.dom().contains(names[last]) {
                assert(np.contains(names[last]));
                let j = choose|j: int| 0 <= j < np.len() && np[j] == names[last];
                assert(names[j] == names[last]);
                assert(false);
            }
        }
        assert forall|i: int| 0 <= i < names.len() && (#[trigger] outs[i]) is Ok implies m
            .dom().contains(names[i]) && m[names[i]] == (UserCommitData {
            repositories_data: outs[i]->Ok_0,
        }) by {
            if i < last {
                assert(op[i] == outs[i]);
                assert(np[i] == names[i]);
                assert(mp.dom().contains(names[i]));
                if outs[last] is Ok {
                    assert(names[i] != names[last]);
                }
            }
        }
        assert forall|i: int| 0 <= i < names.len() && (#[trigger] outs[i]) is Err implies !m
            .dom().contains(names[i]) && f.contains((names[i], outs[i]->Err_0)) by {
            if i < last {
                assert(op[i] == outs[i]);
                assert(np[i] == names[i]);
                assert(fp.contains((names[i], outs[i]->Err_0)));
                let k = choose|k: int| 0 <= k < fp.len() && fp[k] == (names[i], outs[i]->Err_0);
                if outs[last] is Err {
                    assert(f[k] == fp[k]);
                } else {
                    assert(f == fp);
                }
                assert(f.contains((names[i], outs[i]->Err_0)));
            } else {
                assert(f.last() == (names[last], outs[last]->Err_0));
                assert(f.contains((names[last], outs[last]->Err_0)));
            }
        }
        assert forall|x: Seq<char>| m.dom().contains(x) implies names.contains(x) by {
            if x == names[last] && outs[last] is Ok {
                assert(names.contains(x));
            } else {
                assert(mp.dom().contains(x));
                assert(np.contains(x));
                let j = choose|j: int| 0 <= j < np.len() && np[j] == x;
                assert(names[j] == x);
                assert(names.contains(x));
            }
        }
    }
}

/// Aggregation completeness: with every unit successful, the final mapping
/// holds exactly the units' repository names, each mapped to its own unit's
/// data, whatever order the units completed in; the failure list is empty.
pub proof fn lemma_aggregation_complete<T>(names: Seq<Seq<char>>, outs: Seq<Result<T, Seq<char>>>)
    requires
        names.len() == outs.len(),
        spec_distinct(names),
        forall|i: int| 0 <= i < outs.len() ==> (#[trigger] outs[i]) is Ok,
    ensures
        forall|i: int|
            0 <= i < names.len() ==> spec_aggregated(names, outs).dom().contains(
                #[trigger] names[i],
            ) && spec_aggregated(names, outs)[names[i]] == (UserCommitData {
                repositories_data: outs[i]->Ok_0,
            }),
        forall|x: Seq<char>|
            spec_aggregated(names, outs).dom().contains(x) ==> names.contains(x),
        spec_failures(names, outs) == Seq::<(Seq<char>, Seq<char>)>::empty(),
{
    lemma_aggregated_characterized(names, outs);
    lemma_failures_empty_when_all_ok(names, outs);
}

/// The partial-failure policy of the extraction stage: a failed unit's
/// repository is reported, with its error, in the failure list and omitted
/// from the mapping, while every successful unit's data is still present
/// under its repository name.
pub proof fn lemma_partial_failure<T>(
    names: Seq<Seq<char>>,
    outs: Seq<Result<T, Seq<char>>>,
    k: int,
)
    requires
        names.len() == outs.len(),
        spec_distinct(names),
        0 <= k < outs.len(),
        outs[k] is Err,
    ensures
        !spec_aggregated(names, outs).dom().contains(names[k]),
        spec_failures(names, outs).contains((names[k], outs[k]->Err_0)),
        forall|i: int|
            0 <= i < names.len() && (#[trigger] outs[i]) is Ok ==> spec_aggregated(
                names,
                outs,
            ).dom().contains(names[i]) && spec_aggregated(names, outs)[names[i]] == (UserCommitData {
                repositories_data: outs[i]->Ok_0,
            }),
{
    lemma_aggregated_characterized(names, outs);
}

} // verus!
