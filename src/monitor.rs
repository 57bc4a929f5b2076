//! The reconciliation engine: the recorded state of each branch, and the
//! poll step that diffs fresh observations against it.

use vstd::prelude::*;
use crate::events::NotificationEvent;
use crate::resolver::{event_for_label, is_pr_level, label_event, StatusLabel};

verus! {

/// What is recorded of a branch, as a mathematical value.
pub struct BranchRecord {
    pub sha: Seq<char>,
    pub status: StatusLabel,
    pub merged: bool,
}

/// The recorded state of one branch: the commit and label last seen, and
/// whether its pull request has been recorded as merged (terminal).
#[derive(Debug, Clone)]
pub struct MonitoredBranch {
    pub last_notified_sha: String,
    pub last_notified_status: StatusLabel,
    pub merged: bool,
}

impl View for MonitoredBranch {
    type V = BranchRecord;

    open spec fn view(&self) -> BranchRecord {
        BranchRecord {
            sha: self.last_notified_sha@,
            status: self.last_notified_status,
            merged: self.merged,
        }
    }
}

/// What one poll saw of a branch present remotely. `sha` is `None` where its
/// latest commit could not be fetched, `label` where its status could not be
/// resolved this cycle.
#[derive(Debug, Clone)]
pub struct BranchObservation {
    pub name: String,
    pub sha: Option<String>,
    pub label: Option<StatusLabel>,
}

pub open spec fn obs_sha(o: BranchObservation) -> Option<Seq<char>> {
    match o.sha {
        Some(s) => Some(s@),
        None => None,
    }
}

pub open spec fn obs_names(obs: Seq<BranchObservation>) -> Seq<Seq<char>> {
    Seq::new(obs.len(), |i: int| obs[i].name@)
}

/// The map that a sequence of entries stands for.
pub open spec fn records(e: Seq<(String, MonitoredBranch)>) -> Map<Seq<char>, BranchRecord>
    decreases e.len(),
{
    if e.len() == 0 {
        Map::empty()
    } else {
        records(e.drop_last()).insert(e.last().0@, e.last().1@)
    }
}

pub open spec fn lookup(m: Map<Seq<char>, BranchRecord>, name: Seq<char>) -> Option<BranchRecord> {
    if m.contains_key(name) {
        Some(m[name])
    } else {
        None
    }
}

/// Whether an observation of a recorded branch is a change worth announcing.
pub open spec fn is_change(r: BranchRecord, sha: Seq<char>, label: StatusLabel) -> bool {
    &&& !(r.merged && is_pr_level(label))
    &&& (r.sha != sha || r.status != label)
    &&& label != StatusLabel::NoStatus
}

/// The record of a branch after an observation; `prev` is the record before.
pub open spec fn next_record(
    prev: Option<BranchRecord>,
    sha: Option<Seq<char>>,
    label: Option<StatusLabel>,
) -> Option<BranchRecord> {
    match (sha, label) {
        (Some(s), Some(l)) => match prev {
            None => Some(BranchRecord { sha: s, status: l, merged: l == StatusLabel::PrMerged }),
            Some(r) => if is_change(r, s, l) {
                Some(BranchRecord { sha: s, status: l, merged: r.merged || l == StatusLabel::PrMerged })
            } else {
                prev
            },
        },
        _ => prev,
    }
}

/// The event that an observation gives: none on first sight, none without a change.
pub open spec fn step_event(
    prev: Option<BranchRecord>,
    sha: Option<Seq<char>>,
    label: Option<StatusLabel>,
) -> Option<NotificationEvent> {
    match (sha, label, prev) {
        (Some(s), Some(l), Some(r)) => if is_change(r, s, l) {
            label_event(l)
        } else {
            None
        },
        _ => None,
    }
}

/// The recorded state after a poll. Branches absent from `obs` are dropped;
/// of two observations of one name the first counts.
pub open spec fn poll_records(
    old: Map<Seq<char>, BranchRecord>,
    obs: Seq<BranchObservation>,
) -> Map<Seq<char>, BranchRecord>
    decreases obs.len(),
{
    if obs.len() == 0 {
        Map::empty()
    } else {
        let pre = obs.drop_last();
        let o = obs.last();
        let m = poll_records(old, pre);
        if obs_names(pre).contains(o.name@) {
            m
        } else {
            match next_record(lookup(old, o.name@), obs_sha(o), o.label) {
                Some(r) => m.insert(o.name@, r),
                None => m,
            }
        }
    }
}

/// The events of a poll, in the order of the observations.
pub open spec fn poll_events(
    old: Map<Seq<char>, BranchRecord>,
    obs: Seq<BranchObservation>,
) -> Seq<NotificationEvent>
    decreases obs.len(),
{
    if obs.len() == 0 {
        Seq::empty()
    } else {
        let pre = obs.drop_last();
        let o = obs.last();
        let evs = poll_events(old, pre);
        if obs_names(pre).contains(o.name@) {
            evs
        } else {
            match step_event(lookup(old, o.name@), obs_sha(o), o.label) {
                Some(e) => evs.push(e),
                None => evs,
            }
        }
    }
}

/// The map that persisted entries stand for: of two entries of one name the
/// first counts.
pub open spec fn first_records(e: Seq<(String, MonitoredBranch)>) -> Map<Seq<char>, BranchRecord>
    decreases e.len(),
{
    if e.len() == 0 {
        Map::empty()
    } else {
        let m = first_records(e.drop_last());
        if m.contains_key(e.last().0@) {
            m
        } else {
            m.insert(e.last().0@, e.last().1@)
        }
    }
}

/// The recorded state of every tracked branch.
#[derive(Debug, Clone)]
pub struct MonitorState {
    pub branches: Vec<(String, MonitoredBranch)>,
}

impl View for MonitorState {
    type V = Map<Seq<char>, BranchRecord>;

    open spec fn view(&self) -> Map<Seq<char>, BranchRecord> {
        records(self.branches@)
    }
}

pub open spec fn names_distinct(e: Seq<(String, MonitoredBranch)>) -> bool {
    forall|i: int, j: int| 0 <= i < j < e.len() ==> e[i].0@ != e[j].0@
}

proof fn lemma_records_push(e: Seq<(String, MonitoredBranch)>, x: (String, MonitoredBranch))
    ensures
        records(e.push(x)) == records(e).insert(x.0@, x.1@),
{
    assert(e.push(x).drop_last() =~= e);
}

proof fn lemma_records_absent(e: Seq<(String, MonitoredBranch)>, name: Seq<char>)
    requires
        forall|j: int| 0 <= j < e.len() ==> #[trigger] e[j].0@ != name,
    ensures
        !records(e).contains_key(name),
    decreases e.len(),
{
    if e.len() > 0 {
        lemma_records_absent(e.drop_last(), name);
    }
}

proof fn lemma_records_at(e: Seq<(String, MonitoredBranch)>, j: int)
    requires
        names_distinct(e),
        0 <= j < e.len(),
    ensures
        records(e).contains_key(e[j].0@),
        records(e)[e[j].0@] == e[j].1@,
    decreases e.len(),
{
    if j < e.len() - 1 {
        let d = e.drop_last();
        assert(d[j] == e[j]);
        assert(names_distinct(d));
        lemma_records_at(d, j);
    }
}

proof fn lemma_poll_keys(old: Map<Seq<char>, BranchRecord>, obs: Seq<BranchObservation>, name: Seq<char>)
    requires
        poll_records(old, obs).contains_key(name),
    ensures
        obs_names(obs).contains(name),
    decreases obs.len(),
{
    let pre = obs.drop_last();
    let m = poll_records(old, pre);
    if m.contains_key(name) {
        lemma_poll_keys(old, pre, name);
        let w = choose|w: int| 0 <= w < obs_names(pre).len() && obs_names(pre)[w] == name;
        assert(obs_names(obs)[w] == name);
    } else {
        assert(obs_names(obs)[obs.len() - 1] == name);
    }
}

proof fn lemma_poll_lookup(old: Map<Seq<char>, BranchRecord>, obs: Seq<BranchObservation>, i: int)
    requires
        0 <= i < obs.len(),
        !obs_names(obs.take(i)).contains(obs[i].name@),
    ensures
        lookup(poll_records(old, obs), obs[i].name@) == next_record(
            lookup(old, obs[i].name@),
            obs_sha(obs[i]),
            obs[i].label,
        ),
    decreases obs.len(),
{
    let pre = obs.drop_last();
    let n = obs[i].name@;
    let m = poll_records(old, pre);
    if i == obs.len() - 1 {
        assert(pre =~= obs.take(i));
        if m.contains_key(n) {
            lemma_poll_keys(old, pre, n);
        }
    } else {
        assert(pre.take(i) =~= obs.take(i));
        assert(pre[i] == obs[i]);
        lemma_poll_lookup(old, pre, i);
        if obs.last().name@ == n {
            assert(obs_names(pre)[i] == n);
        }
    }
}

proof fn lemma_step_settles(prev: Option<BranchRecord>, sha: Option<Seq<char>>, label: Option<StatusLabel>)
    ensures
        step_event(next_record(prev, sha, label), sha, label) is None,
{
}

proof fn lemma_repeat_prefix_silent(old: Map<Seq<char>, BranchRecord>, obs: Seq<BranchObservation>, i: int)
    requires
        0 <= i <= obs.len(),
    ensures
        poll_events(poll_records(old, obs), obs.take(i)) == Seq::<NotificationEvent>::empty(),
    decreases i,
{
    if i > 0 {
        let upto = obs.take(i);
        assert(upto.drop_last() =~= obs.take(i - 1));
        assert(upto.last() == obs[i - 1]);
        lemma_repeat_prefix_silent(old, obs, i - 1);
        if !obs_names(obs.take(i - 1)).contains(obs[i - 1].name@) {
            lemma_poll_lookup(old, obs, i - 1);
            lemma_step_settles(lookup(old, obs[i - 1].name@), obs_sha(obs[i - 1]), obs[i - 1].label);
        }
    }
}

/// A branch seen for the first time gives no event.
pub proof fn lemma_first_sight_silent(sha: Option<Seq<char>>, label: Option<StatusLabel>)
    ensures
        step_event(None, sha, label) is None,
{
}

/// A poll in which no observed branch was recorded before emits no event.
pub proof fn lemma_unseen_poll_silent(old: Map<Seq<char>, BranchRecord>, obs: Seq<BranchObservation>)
    requires
        forall|i: int| 0 <= i < obs.len() ==> !old.contains_key(#[trigger] obs[i].name@),
    ensures
        poll_events(old, obs) == Seq::<NotificationEvent>::empty(),
    decreases obs.len(),
{
    if obs.len() > 0 {
        let pre = obs.drop_last();
        assert forall|i: int| 0 <= i < pre.len() implies !old.contains_key(#[trigger] pre[i].name@) by {
            assert(pre[i] == obs[i]);
        }
        lemma_unseen_poll_silent(old, pre);
        assert(!old.contains_key(obs[obs.len() - 1].name@));
    }
}

/// Polling twice with the same observations: the second poll emits nothing.
pub proof fn lemma_unchanged_poll_silent(old: Map<Seq<char>, BranchRecord>, obs: Seq<BranchObservation>)
    ensures
        poll_events(poll_records(old, obs), obs) == Seq::<NotificationEvent>::empty(),
{
    lemma_repeat_prefix_silent(old, obs, obs.len() as int);
    assert(obs.take(obs.len() as int) =~= obs);
}

/// Once a branch is recorded as merged it stays so, and no pull-request
/// label gives an event for it or changes its record.
pub proof fn lemma_merged_terminal(r: BranchRecord, sha: Option<Seq<char>>, label: Option<StatusLabel>)
    requires
        r.merged,
    ensures
        next_record(Some(r), sha, label) matches Some(n) && n.merged,
        label matches Some(l) && is_pr_level(l) ==> step_event(Some(r), sha, label) is None
            && next_record(Some(r), sha, label) == Some(r),
{
}

/// A branch that is no longer present remotely loses its record, and its
/// old record has no part in the events of the poll.
pub proof fn lemma_vanished_branch(
    old: Map<Seq<char>, BranchRecord>,
    obs: Seq<BranchObservation>,
    name: Seq<char>,
)
    requires
        !obs_names(obs).contains(name),
    ensures
        !poll_records(old, obs).contains_key(name),
        poll_events(old, obs) == poll_events(old.remove(name), obs),
    decreases obs.len(),
{
    if poll_records(old, obs).contains_key(name) {
        lemma_poll_keys(old, obs, name);
    }
    if obs.len() > 0 {
        let pre = obs.drop_last();
        assert forall|i: int| 0 <= i < obs_names(pre).len() implies obs_names(pre)[i] != name by {
            assert(obs_names(pre)[i] == obs_names(obs)[i]);
        }
        lemma_vanished_branch(old, pre, name);
        assert(obs_names(obs)[obs.len() - 1] == obs.last().name@);
        assert(lookup(old, obs.last().name@) == lookup(old.remove(name), obs.last().name@));
    }
}

fn position_of(entries: &Vec<(String, MonitoredBranch)>, name: &String) -> (r: Option<usize>)
    ensures
        match r {
            Some(j) => j < entries.len() && entries@[j as int].0@ == name@,
            None => forall|j: int| 0 <= j < entries.len() ==> #[trigger] entries@[j].0@ != name@,
        },
{
    let mut j: usize = 0;
    while j < entries.len()
        invariant
            j <= entries.len(),
            forall|k: int| 0 <= k < j ==> #[trigger] entries@[k].0@ != name@,
        decreases entries.len() - j,
    {
        if entries[j].0 == *name {
            return Some(j);
        }
        j = j + 1;
    }
    None
}

fn seen_before(obs: &Vec<BranchObservation>, i: usize, name: &String) -> (r: bool)
    requires
        i <= obs.len(),
    ensures
        r == obs_names(obs@.take(i as int)).contains(name@),
{
    let ghost names = obs_names(obs@.take(i as int));
    let mut j: usize = 0;
    while j < i
        invariant
            j <= i <= obs.len(),
            names == obs_names(obs@.take(i as int)),
            forall|k: int| 0 <= k < j ==> names[k] != name@,
        decreases i - j,
    {
        if obs[j].name == *name {
            assert(names[j as int] == name@);
            return true;
        }
        j = j + 1;
    }
    false
}

fn copy_branch(b: &MonitoredBranch) -> (r: MonitoredBranch)
    ensures
        r@ == b@,
{
    MonitoredBranch {
        last_notified_sha: b.last_notified_sha.clone(),
        last_notified_status: b.last_notified_status,
        merged: b.merged,
    }
}

pub open spec fn prev_record(prev: Option<&MonitoredBranch>) -> Option<BranchRecord> {
    match prev {
        Some(p) => Some(p@),
        None => None,
    }
}

pub open spec fn new_record(b: Option<MonitoredBranch>) -> Option<BranchRecord> {
    match b {
        Some(b) => Some(b@),
        None => None,
    }
}

/// One observation of one branch against its record: the new record and the
/// event to emit.
pub fn observe_branch(prev: Option<&MonitoredBranch>, o: &BranchObservation) -> (r: (
    Option<MonitoredBranch>,
    Option<NotificationEvent>,
))
    ensures
        new_record(r.0) == next_record(prev_record(prev), obs_sha(*o), o.label),
        r.1 == step_event(prev_record(prev), obs_sha(*o), o.label),
{
    match (&o.sha, o.label) {
        (Some(sha), Some(label)) => match prev {
            None => (
                Some(
                    MonitoredBranch {
                        last_notified_sha: sha.clone(),
                        last_notified_status: label,
                        merged: matches!(label, StatusLabel::PrMerged),
                    },
                ),
                None,
            ),
            Some(p) => {
                let terminal = p.merged && !matches!(label, StatusLabel::CiFailed | StatusLabel::CiGreen | StatusLabel::NoStatus);
                let differs = !(p.last_notified_sha == *sha) || p.last_notified_status != label;
                if !terminal && differs && !matches!(label, StatusLabel::NoStatus) {
                    (
                        Some(
                            MonitoredBranch {
                                last_notified_sha: sha.clone(),
                                last_notified_status: label,
                                merged: p.merged || matches!(label, StatusLabel::PrMerged),
                            },
                        ),
                        event_for_label(label),
                    )
                } else {
                    (Some(copy_branch(p)), None)
                }
            },
        },
        _ => match prev {
            Some(p) => (Some(copy_branch(p)), None),
            None => (None, None),
        },
    }
}

impl MonitorState {
    /// Well-formed: no branch name is recorded twice.
    pub open spec fn wf(&self) -> bool {
        names_distinct(self.branches@)
    }

    /// An empty state: no branch tracked yet.
    pub fn new() -> (r: MonitorState)
        ensures
            r.wf(),
            r@ == Map::<Seq<char>, BranchRecord>::empty(),
    {
        MonitorState { branches: Vec::new() }
    }

    /// A state rebuilt from persisted entries.
    pub fn from_entries(entries: &Vec<(String, MonitoredBranch)>) -> (r: MonitorState)
        ensures
            r.wf(),
            r@ == first_records(entries@),
    {
        let mut next: Vec<(String, MonitoredBranch)> = Vec::new();
        let mut i: usize = 0;
        while i < entries.len()
            invariant
                i <= entries.len(),
                names_distinct(next@),
                records(next@) == first_records(entries@.take(i as int)),
            decreases entries.len() - i,
        {
            let ghost upto = entries@.take(i as int + 1);
            assert(upto.drop_last() =~= entries@.take(i as int));
            assert(upto.last() == entries@[i as int]);
            match position_of(&next, &entries[i].0) {
                Some(j) => {
                    proof {
                        lemma_records_at(next@, j as int);
                    }
                },
                None => {
                    proof {
                        lemma_records_absent(next@, entries@[i as int].0@);
                    }
                    let ghost before = next@;
                    next.push((entries[i].0.clone(), copy_branch(&entries[i].1)));
                    proof {
                        assert(next@ == before.push(next@.last()));
                        lemma_records_push(before, next@.last());
                    }
                },
            }
            i = i + 1;
        }
        assert(entries@.take(entries.len() as int) =~= entries@);
        MonitorState { branches: next }
    }

    /// The record of a branch, if it is tracked.
    pub fn get(&self, name: &String) -> (r: Option<&MonitoredBranch>)
        requires
            self.wf(),
        ensures
            match r {
                Some(b) => self@.contains_key(name@) && self@[name@] == b@,
                None => !self@.contains_key(name@),
            },
    {
        match position_of(&self.branches, name) {
            Some(j) => {
                proof {
                    lemma_records_at(self.branches@, j as int);
                }
                Some(&self.branches[j].1)
            },
            None => {
                proof {
                    lemma_records_absent(self.branches@, name@);
                }
                None
            },
        }
    }

    /// Whether the branch's pull request is recorded as merged; its
    /// pull-request signals are then no longer evaluated.
    pub fn is_terminal(&self, name: &String) -> (r: bool)
        requires
            self.wf(),
        ensures
            r == (self@.contains_key(name@) && self@[name@].merged),
    {
        match self.get(name) {
            Some(b) => b.merged,
            None => false,
        }
    }

    /// One poll cycle. `observations` holds one entry for each branch present
    /// remotely: records of branches absent from it are deleted, new
    /// branches are recorded silently, and each recorded branch whose label
    /// or commit changed to a label worth announcing gives its event.
    pub fn poll(&mut self, observations: &Vec<BranchObservation>) -> (events: Vec<NotificationEvent>)
        requires
            old(self).wf(),
        ensures
            final(self).wf(),
            final(self)@ == poll_records(old(self)@, observations@),
            events@ == poll_events(old(self)@, observations@),
    {
        let ghost old_map = self@;
        let mut next: Vec<(String, MonitoredBranch)> = Vec::new();
        let mut events: Vec<NotificationEvent> = Vec::new();
        let mut i: usize = 0;
        while i < observations.len()
            invariant
                i <= observations.len(),
                self.wf(),
                self@ == old_map,
                names_distinct(next@),
                forall|k: int|
                    0 <= k < next.len() ==> obs_names(observations@.take(i as int)).contains(
                        #[trigger] next@[k].0@,
                    ),
                records(next@) == poll_records(old_map, observations@.take(i as int)),
                events@ == poll_events(old_map, observations@.take(i as int)),
            decreases observations.len() - i,
        {
            let o = &observations[i];
            let ghost before = next@;
            let ghost pre = observations@.take(i as int);
            let ghost upto = observations@.take(i as int + 1);
            assert(upto.drop_last() =~= pre);
            assert(upto.last() == observations@[i as int]);
            assert(obs_names(upto) =~= obs_names(pre).push(o.name@));
            if !seen_before(observations, i, &o.name) {
                let prev = self.get(&o.name);
                let (rec, ev) = observe_branch(prev, o);
                assert(lookup(old_map, o.name@) == prev_record(prev));
                match rec {
                    Some(b) => {
                        next.push((o.name.clone(), b));
                        proof {
                            assert(next@ == before.push(next@.last()));
                            lemma_records_push(before, next@.last());
                        }
                    },
                    None => {},
                }
                match ev {
                    Some(e) => {
                        events.push(e);
                    },
                    None => {},
                }
            }
            proof {
                assert forall|k: int| 0 <= k < next.len() implies obs_names(upto).contains(
                    #[trigger] next@[k].0@,
                ) by {
                    if k < before.len() {
                        assert(obs_names(pre).contains(before[k].0@));
                        let w = choose|w: int|
                            0 <= w < obs_names(pre).len() && obs_names(pre)[w] == before[k].0@;
                        assert(obs_names(upto)[w] == before[k].0@);
                    } else {
                        assert(obs_names(upto)[i as int] == o.name@);
                    }
                }
            }
            i = i + 1;
        }
        assert(observations@.take(observations.len() as int) =~= observations@);
        self.branches = next;
        events
    }
}

} // verus!
