//! Crawl scheduling: the set of instances already scheduled, the crawl
//! budget, and the record built while one instance is crawled.
use crate::peer::Direction;
use vstd::prelude::*;

verus! {

/// What `schedule` decided for a candidate instance.
#[derive(Clone, Copy, PartialEq, Eq, Structural, Debug)]
pub enum Admission {
    /// The budget's ceiling is reached: the candidate is dropped.
    OverBudget,
    /// The instance was scheduled before: nothing is launched.
    AlreadyClaimed,
    /// The instance is claimed now: a crawl task is to be launched for it.
    Launch,
}

impl Admission {
    /// Whether the instance registry is to be told of the candidate: it is,
    /// whenever the visited set was consulted.
    pub fn notifies_registry(&self) -> (r: bool)
        ensures
            r == (*self != Admission::OverBudget),
    {
        match self {
            Admission::OverBudget => false,
            _ => true,
        }
    }
}

/// The scheduler's state in mathematical terms.
pub struct SchedulerView {
    /// Instances claimed so far.
    pub visited: Set<Seq<char>>,
    /// Crawl tasks launched so far.
    pub launched: nat,
    /// Ceiling on `launched`; `0` means no ceiling.
    pub limit: nat,
}

impl SchedulerView {
    pub open spec fn fresh(limit: nat) -> SchedulerView {
        SchedulerView { visited: Set::empty(), launched: 0, limit }
    }

    pub open spec fn budget_reached(self) -> bool {
        self.limit > 0 && self.launched >= self.limit
    }

    /// Test-and-insert of `id` in the visited set: the new state, and whether
    /// `id` was absent.
    pub open spec fn claim(self, id: Seq<char>) -> (SchedulerView, bool) {
        (SchedulerView { visited: self.visited.insert(id), ..self }, !self.visited.contains(id))
    }

    /// The budget check, then the claim, then the launch.
    pub open spec fn schedule(self, id: Seq<char>) -> (SchedulerView, Admission) {
        if self.budget_reached() {
            (self, Admission::OverBudget)
        } else if self.visited.contains(id) {
            (self, Admission::AlreadyClaimed)
        } else {
            (
                SchedulerView {
                    visited: self.visited.insert(id),
                    launched: self.launched + 1,
                    limit: self.limit,
                },
                Admission::Launch,
            )
        }
    }
}

/// The visited set and the crawl budget, changed together so that a claim
/// and the count of launched tasks never disagree.
pub struct CrawlState {
    visited: Vec<String>,
    launched: u64,
    limit: u64,
}

impl View for CrawlState {
    type V = SchedulerView;

    closed spec fn view(&self) -> SchedulerView {
        SchedulerView {
            visited: Set::new(
                |x: Seq<char>| exists|i: int| 0 <= i < self.visited@.len() && #[trigger] self.visited@[i]@ == x,
            ),
            launched: self.launched as nat,
            limit: self.limit as nat,
        }
    }
}

impl CrawlState {
    /// The state's internal consistency.
    pub closed spec fn wf(&self) -> bool {
        &&& self.visited.deep_view().no_duplicates()
        &&& self.launched <= self.visited@.len()
        &&& self.limit > 0 ==> self.launched <= self.limit
    }

    /// An empty visited set and a budget of `limit` launches (`0`: unbounded).
    pub fn new(limit: u64) -> (r: CrawlState)
        ensures
            r.wf(),
            r@ == SchedulerView::fresh(limit as nat),
    {
        let r = CrawlState { visited: Vec::new(), launched: 0, limit };
        assert(r@.visited =~= Set::empty());
        r
    }

    /// A well-formed state keeps the launch count within the ceiling.
    pub proof fn lemma_within_budget(&self)
        requires
            self.wf(),
        ensures
            self@.limit > 0 ==> self@.launched <= self@.limit,
    {
    }

    /// Whether `id` was claimed.
    pub fn contains(&self, id: &String) -> (r: bool)
        ensures
            r == self@.visited.contains(id@),
    {
        let mut i: usize = 0;
        while i < self.visited.len()
            invariant
                0 <= i <= self.visited@.len(),
                forall|j: int| 0 <= j < i ==> self.visited@[j]@ != id@,
            decreases self.visited@.len() - i,
        {
            if self.visited[i] == *id {
                assert(self@.visited.contains(id@));
                return true;
            }
            i = i + 1;
        }
        false
    }

    /// Number of instances claimed.
    pub fn visited_count(&self) -> (r: usize)
        requires
            self.wf(),
        ensures
            r as nat == self@.visited.len(),
    {
        proof {
            let names = self.visited.deep_view();
            assert forall|x: Seq<char>| #[trigger] self@.visited.contains(x) implies names.to_set().contains(x) by {
                let i = choose|i: int| 0 <= i < self.visited@.len() && #[trigger] self.visited@[i]@ == x;
                assert(names[i] == x);
            }
            assert forall|x: Seq<char>| #[trigger] names.to_set().contains(x) implies self@.visited.contains(x) by {
                let i = choose|i: int| 0 <= i < names.len() && names[i] == x;
                assert(self.visited@[i]@ == x);
            }
            assert(self@.visited =~= names.to_set());
            names.unique_seq_to_set();
        }
        self.visited.len()
    }

    /// Number of crawl tasks launched.
    pub fn launched(&self) -> (r: u64)
        ensures
            r as nat == self@.launched,
    {
        self.launched
    }

    fn insert_new(&mut self, id: &String)
        requires
            !old(self)@.visited.contains(id@),
            old(self).visited.deep_view().no_duplicates(),
        ensures
            final(self).visited.deep_view().no_duplicates(),
            final(self)@.visited == old(self)@.visited.insert(id@),
            final(self).visited@.len() == old(self).visited@.len() + 1,
            final(self).launched == old(self).launched,
            final(self).limit == old(self).limit,
    {
        self.visited.push(id.clone());
        assert(self.visited.deep_view() =~= old(self).visited.deep_view().push(id@));
        assert forall|i: int| 0 <= i < old(self).visited@.len() implies old(self).visited.deep_view()[i] != id@ by {
            if old(self).visited.deep_view()[i] == id@ {
                assert(old(self).visited@[i]@ == id@);
            }
        }
        assert(final(self)@.visited =~= old(self)@.visited.insert(id@)) by {
            assert(self.visited@[self.visited@.len() - 1]@ == id@);
            assert forall|x: Seq<char>| #[trigger] old(self)@.visited.contains(x) implies self@.visited.contains(x) by {
                let i = choose|i: int| 0 <= i < old(self).visited@.len() && #[trigger] old(self).visited@[i]@ == x;
                assert(self.visited@[i] == old(self).visited@[i]);
            }
            assert forall|x: Seq<char>| #[trigger] self@.visited.contains(x) implies old(self)@.visited.insert(id@).contains(x) by {
                let i = choose|i: int| 0 <= i < self.visited@.len() && #[trigger] self.visited@[i]@ == x;
                if i < old(self).visited@.len() {
                    assert(old(self).visited@[i] == self.visited@[i]);
                }
            }
        }
    }

    /// Atomically tests whether `id` was claimed and claims it: `true` when
    /// it was not (the caller may schedule it), `false` when it was.
    pub fn try_claim(&mut self, id: &String) -> (r: bool)
        requires
            old(self).wf(),
        ensures
            final(self).wf(),
            (final(self)@, r) == old(self)@.claim(id@),
    {
        if self.contains(id) {
            assert(self@.visited.insert(id@) =~= self@.visited);
            false
        } else {
            self.insert_new(id);
            true
        }
    }

    /// Decides on a candidate instance: dropped when the budget's ceiling is
    /// reached, ignored when already claimed, else claimed and counted as
    /// launched.
    pub fn schedule(&mut self, id: &String) -> (r: Admission)
        requires
            old(self).wf(),
        ensures
            final(self).wf(),
            (final(self)@, r) == old(self)@.schedule(id@),
    {
        if self.limit > 0 && self.launched >= self.limit {
            return Admission::OverBudget;
        }
        if self.contains(id) {
            return Admission::AlreadyClaimed;
        }
        self.insert_new(id);
        let n = self.visited.len();
        assert(self.launched < n);
        self.launched = self.launched + 1;
        Admission::Launch
    }
}

/// Results of claiming `ids` one after the other, starting from `visited`:
/// the final visited set and each claim's answer.
pub open spec fn claim_all(visited: Set<Seq<char>>, ids: Seq<Seq<char>>) -> (
    Set<Seq<char>>,
    Seq<bool>,
)
    decreases ids.len(),
{
    if ids.len() == 0 {
        (visited, Seq::empty())
    } else {
        let (v, answers) = claim_all(visited, ids.drop_last());
        (v.insert(ids.last()), answers.push(!v.contains(ids.last())))
    }
}

/// The claims of a sequence, answered one at a time: the `i`-th claim
/// succeeds exactly when its identifier was neither in the starting set nor
/// claimed earlier in the sequence, and the set ends as the starting set
/// with every claimed identifier added.
pub proof fn lemma_claim_all(visited: Set<Seq<char>>, ids: Seq<Seq<char>>)
    ensures
        claim_all(visited, ids).1.len() == ids.len(),
        claim_all(visited, ids).0 == visited + ids.to_set(),
        forall|i: int|
            0 <= i < ids.len() ==> (#[trigger] claim_all(visited, ids).1[i] <==> (!visited.contains(ids[i])
                && forall|j: int| 0 <= j < i ==> ids[j] != ids[i])),
    decreases ids.len(),
{
    if ids.len() > 0 {
        let prefix = ids.drop_last();
        lemma_claim_all(visited, prefix);
        let (v, answers) = claim_all(visited, prefix);
        let x = ids.last();
        let n = ids.len() - 1;
        assert(prefix.to_set().insert(x) =~= ids.to_set()) by {
            assert forall|y: Seq<char>| ids.to_set().contains(y) implies prefix.to_set().insert(x).contains(y) by {
                let k = choose|k: int| 0 <= k < ids.len() && ids[k] == y;
                if k < n {
                    assert(prefix[k] == y);
                }
            }
            assert forall|y: Seq<char>| prefix.to_set().insert(x).contains(y) implies ids.to_set().contains(y) by {
                if y != x {
                    let k = choose|k: int| 0 <= k < prefix.len() && prefix[k] == y;
                    assert(ids[k] == y);
                } else {
                    assert(ids[n] == y);
                }
            }
        }
        assert(v.insert(x) =~= visited + ids.to_set());
        let all = claim_all(visited, ids).1;
        assert forall|i: int| 0 <= i < ids.len() implies (#[trigger] all[i] <==> (!visited.contains(ids[i])
            && forall|j: int| 0 <= j < i ==> ids[j] != ids[i])) by {
            if i < n {
                assert(all[i] == answers[i]);
                assert(ids[i] == prefix[i]);
                assert forall|j: int| 0 <= j < i implies ids[j] == prefix[j] by {}
            } else {
                assert(all[i] == !v.contains(x));
                if v.contains(x) && !visited.contains(x) {
                    let k = choose|k: int| 0 <= k < prefix.len() && prefix[k] == x;
                    assert(ids[k] == ids[i]);
                }
                if exists|j: int| 0 <= j < i && ids[j] == ids[i] {
                    let j = choose|j: int| 0 <= j < i && ids[j] == ids[i];
                    assert(prefix[j] == x);
                    assert(prefix.to_set().contains(x));
                }
            }
        }
    }
}

/// Among any sequence of claims, an identifier is granted at most once, and
/// one that was not claimed before the sequence is granted exactly once:
/// at its first occurrence.
pub proof fn lemma_claim_at_most_once(visited: Set<Seq<char>>, ids: Seq<Seq<char>>)
    ensures
        forall|i: int, j: int|
            0 <= i < ids.len() && 0 <= j < ids.len() && ids[i] == ids[j]
                && #[trigger] claim_all(visited, ids).1[i] && #[trigger] claim_all(visited, ids).1[j]
                ==> i == j,
        forall|k: int|
            0 <= k < ids.len() && !visited.contains(#[trigger] ids[k]) ==> exists|i: int|
                0 <= i <= k && ids[i] == ids[k] && claim_all(visited, ids).1[i],
{
    lemma_claim_all(visited, ids);
    let answers = claim_all(visited, ids).1;
    assert forall|k: int| 0 <= k < ids.len() && !visited.contains(#[trigger] ids[k]) implies exists|i: int|
        0 <= i <= k && ids[i] == ids[k] && answers[i] by {
        let first = choose|i: int| 0 <= i <= k && ids[i] == ids[k] && forall|j: int| 0 <= j < i ==> ids[j] != ids[k];
        assert(exists|i: int| 0 <= i <= k && ids[i] == ids[k] && forall|j: int| 0 <= j < i ==> ids[j] != ids[k]) by {
            lemma_first_occurrence(ids, k);
        }
        assert(answers[first]);
    }
}

proof fn lemma_first_occurrence(ids: Seq<Seq<char>>, k: int)
    requires
        0 <= k < ids.len(),
    ensures
        exists|i: int| 0 <= i <= k && ids[i] == ids[k] && forall|j: int| 0 <= j < i ==> ids[j] != ids[k],
    decreases k,
{
    if exists|j: int| 0 <= j < k && ids[j] == ids[k] {
        let j = choose|j: int| 0 <= j < k && ids[j] == ids[k];
        lemma_first_occurrence(ids, j);
        let i = choose|i: int| 0 <= i <= j && ids[i] == ids[j] && forall|m: int| 0 <= m < i ==> ids[m] != ids[j];
        assert(0 <= i <= k && ids[i] == ids[k] && forall|m: int| 0 <= m < i ==> ids[m] != ids[k]);
    } else {
        assert(forall|m: int| 0 <= m < k ==> ids[m] != ids[k]);
        assert(0 <= k <= k && ids[k] == ids[k]);
    }
}

/// Claiming again everything a run claimed, as a second run seeded from the
/// persisted registry does, changes nothing and grants nothing: the visited
/// set a run ends with does not depend on being run twice.
pub proof fn lemma_reseed_idempotent(visited: Set<Seq<char>>, ids: Seq<Seq<char>>)
    ensures
        claim_all(claim_all(visited, ids).0, ids).0 == claim_all(visited, ids).0,
        forall|i: int| 0 <= i < ids.len() ==> !#[trigger] claim_all(claim_all(visited, ids).0, ids).1[i],
{
    let first = claim_all(visited, ids).0;
    lemma_claim_all(visited, ids);
    lemma_claim_all(first, ids);
    assert(first + ids.to_set() =~= first);
    assert forall|i: int| 0 <= i < ids.len() implies !#[trigger] claim_all(first, ids).1[i] by {
        assert(ids.to_set().contains(ids[i]));
    }
}

/// Results of scheduling `ids` one after the other from `s`.
pub open spec fn schedule_all(s: SchedulerView, ids: Seq<Seq<char>>) -> (SchedulerView, Seq<Admission>)
    decreases ids.len(),
{
    if ids.len() == 0 {
        (s, Seq::empty())
    } else {
        let (mid, admissions) = schedule_all(s, ids.drop_last());
        let (end, a) = mid.schedule(ids.last());
        (end, admissions.push(a))
    }
}

/// Number of launches among `admissions`.
pub open spec fn launches(admissions: Seq<Admission>) -> nat
    decreases admissions.len(),
{
    if admissions.len() == 0 {
        0
    } else {
        launches(admissions.drop_last()) + if admissions.last() == Admission::Launch {
            1nat
        } else {
            0nat
        }
    }
}

/// However many candidates are scheduled, and in whatever order, no more
/// crawl tasks are launched than the ceiling allows when one is set.
pub proof fn lemma_budget_respected(limit: nat, ids: Seq<Seq<char>>)
    requires
        limit > 0,
    ensures
        launches(schedule_all(SchedulerView::fresh(limit), ids).1) <= limit,
        schedule_all(SchedulerView::fresh(limit), ids).0.launched == launches(
            schedule_all(SchedulerView::fresh(limit), ids).1,
        ),
    decreases ids.len(),
{
    lemma_launch_count(SchedulerView::fresh(limit), ids);
}

proof fn lemma_launch_count(s: SchedulerView, ids: Seq<Seq<char>>)
    requires
        s.limit > 0,
        s.launched <= s.limit,
    ensures
        schedule_all(s, ids).0.launched == s.launched + launches(schedule_all(s, ids).1),
        schedule_all(s, ids).0.launched <= s.limit,
        schedule_all(s, ids).0.limit == s.limit,
        schedule_all(s, ids).1.len() == ids.len(),
    decreases ids.len(),
{
    if ids.len() > 0 {
        lemma_launch_count(s, ids.drop_last());
        let (mid, admissions) = schedule_all(s, ids.drop_last());
        assert(schedule_all(s, ids).1.drop_last() =~= admissions);
    }
}

/// The record built while one instance is crawled: its neighbors in each
/// direction, in the order its listings returned them.
pub struct APIInstance {
    pub name: String,
    pub followers: Vec<String>,
    pub following: Vec<String>,
}

impl APIInstance {
    /// An instance of which no neighbor is known yet.
    pub fn new(name: String) -> (r: APIInstance)
        ensures
            r.name == name,
            r.followers@.len() == 0,
            r.following@.len() == 0,
    {
        APIInstance { name, followers: Vec::new(), following: Vec::new() }
    }

    /// Records `host` as a neighbor in `direction`; the instance itself is
    /// never recorded as its own neighbor.
    pub fn add_neighbor(&mut self, direction: Direction, host: String)
        ensures
            final(self).name == old(self).name,
            old(self).name@ == host@ ==> *final(self) == *old(self),
            old(self).name@ != host@ && direction == Direction::Followers ==> final(self).followers@
                == old(self).followers@.push(host) && final(self).following == old(self).following,
            old(self).name@ != host@ && direction == Direction::Following ==> final(self).following@
                == old(self).following@.push(host) && final(self).followers == old(self).followers,
    {
        if host == self.name {
            return;
        }
        match direction {
            Direction::Followers => self.followers.push(host),
            Direction::Following => self.following.push(host),
        }
    }
}

/// The instances a run starts from: the given root alone when there is one,
/// else those the registry already knows; `None` when there is neither, and
/// the bootstrap directory is to be asked.
pub fn initial_seeds(root: Option<String>, known: Vec<String>) -> (r: Option<Vec<String>>)
    ensures
        root is Some ==> r is Some && r->Some_0@ == seq![root->Some_0],
        root is None && known@.len() > 0 ==> r == Some(known),
        root is None && known@.len() == 0 ==> r is None,
{
    match root {
        Some(host) => Some(vec![host]),
        None => {
            if known.len() > 0 {
                Some(known)
            } else {
                None
            }
        },
    }
}

} // verus!
