//! The last agent snapshot fetched from each remote runtime.

use vstd::prelude::*;
use crate::inventory::{AgentInfo, AgentInfoView, agents_view};
use crate::text::{clone_opt_string, clone_pairs, str_eq};

verus! {

/// A copy of an agent row.
pub fn clone_agent(a: &AgentInfo) -> (r: AgentInfo)
    ensures
        r@ == a@,
{
    AgentInfo {
        terminal_id: a.terminal_id.clone(),
        name: clone_opt_string(&a.name),
        agent: clone_opt_string(&a.agent),
        title: clone_opt_string(&a.title),
        terminal_title: clone_opt_string(&a.terminal_title),
        terminal_title_stripped: clone_opt_string(&a.terminal_title_stripped),
        display_agent: clone_opt_string(&a.display_agent),
        agent_status: a.agent_status,
        screen_detection_skipped: a.screen_detection_skipped,
        state_labels: clone_pairs(&a.state_labels),
        tokens: clone_pairs(&a.tokens),
        agent_session: clone_opt_string(&a.agent_session),
        workspace_id: a.workspace_id.clone(),
        tab_id: a.tab_id.clone(),
        pane_id: a.pane_id.clone(),
        focused: a.focused,
        launch_pending: a.launch_pending,
        interactive_ready: a.interactive_ready,
        state_change_seq: a.state_change_seq,
        cwd: clone_opt_string(&a.cwd),
        foreground_cwd: clone_opt_string(&a.foreground_cwd),
        revision: a.revision,
        runtime_id: a.runtime_id.clone(),
        runtime_label: clone_opt_string(&a.runtime_label),
    }
}

/// A copy of a list of agent rows.
pub fn clone_agents(v: &Vec<AgentInfo>) -> (r: Vec<AgentInfo>)
    ensures
        agents_view(r@) == agents_view(v@),
{
    let mut r: Vec<AgentInfo> = Vec::new();
    let mut i: usize = 0;
    while i < v.len()
        invariant
            i <= v.len(),
            agents_view(r@) == agents_view(v@).take(i as int),
        decreases v.len() - i,
    {
        let ghost before = r@;
        r.push(clone_agent(&v[i]));
        assert(agents_view(r@) =~= agents_view(before).push(v@[i as int]@));
        assert(agents_view(v@).take(i + 1) =~= agents_view(v@).take(i as int).push(v@[i as int]@));
        i += 1;
    }
    assert(agents_view(v@).len() == v@.len());
    assert(agents_view(v@).take(i as int) =~= agents_view(v@));
    r
}

/// Snapshots as (runtime id, agents) pairs.
pub type Snapshots = Seq<(Seq<char>, Seq<AgentInfoView>)>;

/// The (key, value) rows of `s` without those of `k`.
pub open spec fn without_key<V>(s: Seq<(Seq<char>, V)>, k: Seq<char>) -> Seq<(Seq<char>, V)>
    decreases s.len(),
{
    if s.len() == 0 {
        s
    } else {
        let rest = without_key(s.drop_last(), k);
        if s.last().0 == k {
            rest
        } else {
            rest.push(s.last())
        }
    }
}

/// The value of the last row of `s` with key `k`, if any.
pub open spec fn value_for<V>(s: Seq<(Seq<char>, V)>, k: Seq<char>) -> Option<V>
    decreases s.len(),
{
    if s.len() == 0 {
        None
    } else if s.last().0 == k {
        Some(s.last().1)
    } else {
        value_for(s.drop_last(), k)
    }
}

/// Dropping the rows of `k` forgets `k` and no other key.
pub proof fn lemma_without_key<V>(s: Seq<(Seq<char>, V)>, k: Seq<char>, other: Seq<char>)
    ensures
        value_for(without_key(s, k), k) is None,
        other != k ==> value_for(without_key(s, k), other) == value_for(s, other),
    decreases s.len(),
{
    if s.len() > 0 {
        lemma_without_key(s.drop_last(), k, other);
        let rest = without_key(s.drop_last(), k);
        if s.last().0 != k {
            assert(rest.push(s.last()).drop_last() =~= rest);
        }
    }
}

/// Storing a value under a key (a snapshot for a runtime, a connection for
/// a runtime) makes it the one found for that key, and leaves the others
/// alone.
pub proof fn lemma_store_then_lookup<V>(s: Seq<(Seq<char>, V)>, k: Seq<char>, v: V, other: Seq<char>)
    ensures
        value_for(without_key(s, k).push((k, v)), k) == Some(v),
        other != k ==> value_for(without_key(s, k).push((k, v)), other) == value_for(s, other),
{
    lemma_without_key(s, k, other);
    assert(without_key(s, k).push((k, v)).drop_last() =~= without_key(s, k));
}

/// The last agent snapshot fetched from each remote runtime.
pub struct AgentCache {
    rows: Vec<(String, Vec<AgentInfo>)>,
}

impl View for AgentCache {
    type V = Snapshots;

    closed spec fn view(&self) -> Snapshots {
        self.rows@.map_values(|p: (String, Vec<AgentInfo>)| (p.0@, agents_view(p.1@)))
    }
}

impl AgentCache {
    /// No snapshots.
    pub fn new() -> (r: Self)
        ensures
            r@ == Seq::<(Seq<char>, Seq<AgentInfoView>)>::empty(),
    {
        let r = AgentCache { rows: Vec::new() };
        assert(r@ =~= Seq::<(Seq<char>, Seq<AgentInfoView>)>::empty());
        r
    }

    /// Forget the snapshot of `k`.
    pub fn remove(&mut self, k: &str)
        ensures
            final(self)@ == without_key(old(self)@, k@),
    {
        let ghost s = self@;
        let mut old_rows = Vec::new();
        std::mem::swap(&mut old_rows, &mut self.rows);
        let ghost all = old_rows@;
        assert(all.len() == old_rows.len());
        assert(s =~= all.map_values(|p: (String, Vec<AgentInfo>)| (p.0@, agents_view(p.1@))));
        let mut kept: Vec<(String, Vec<AgentInfo>)> = Vec::new();
        let mut i: usize = 0;
        assert(s.take(0) =~= Seq::<(Seq<char>, Seq<AgentInfoView>)>::empty());
        while old_rows.len() > 0
            invariant
                i + old_rows@.len() == all.len(),
                all.len() <= usize::MAX,
                old_rows@ == all.skip(i as int),
                s == all.map_values(|p: (String, Vec<AgentInfo>)| (p.0@, agents_view(p.1@))),
                kept@.map_values(|p: (String, Vec<AgentInfo>)| (p.0@, agents_view(p.1@))) == without_key(
                    s.take(i as int),
                    k@,
                ),
            decreases old_rows.len(),
        {
            let row = old_rows.remove(0);
            assert(row == all[i as int]);
            let ghost rv = (row.0@, agents_view(row.1@));
            assert(s.take(i + 1).drop_last() =~= s.take(i as int));
            assert(s.take(i + 1).last() == rv);
            if !str_eq(row.0.as_str(), k) {
                kept.push(row);
                assert(kept@.map_values(|p: (String, Vec<AgentInfo>)| (p.0@, agents_view(p.1@))) =~= without_key(
                    s.take(i as int),
                    k@,
                ).push(rv));
            }
            i += 1;
            assert(old_rows@ =~= all.skip(i as int));
        }
        assert(s.take(i as int) =~= s);
        self.rows = kept;
    }

    /// Store `agents` as the snapshot of `k`, replacing any earlier one.
    pub fn insert(&mut self, k: String, agents: Vec<AgentInfo>)
        ensures
            final(self)@ == without_key(old(self)@, k@).push((k@, agents_view(agents@))),
    {
        self.remove(k.as_str());
        let ghost before = self@;
        let ghost kv = (k@, agents_view(agents@));
        self.rows.push((k, agents));
        assert(self@ =~= before.push(kv));
    }

    /// A copy of the snapshot of `k`, if any.
    pub fn get(&self, k: &str) -> (r: Option<Vec<AgentInfo>>)
        ensures
            match value_for(self@, k@) {
                Some(v) => r matches Some(x) && agents_view(x@) == v,
                None => r is None,
            },
    {
        let ghost s = self@;
        let mut i: usize = self.rows.len();
        assert(s.take(i as int) =~= s);
        while i > 0
            invariant
                i <= self.rows@.len(),
                s == self@,
                value_for(s, k@) == value_for(s.take(i as int), k@),
            decreases i,
        {
            assert(s.take(i as int).last() == (self.rows@[i - 1].0@, agents_view(self.rows@[i - 1].1@)));
            if str_eq(self.rows[i - 1].0.as_str(), k) {
                return Some(clone_agents(&self.rows[i - 1].1));
            }
            assert(s.take(i as int).drop_last() =~= s.take(i - 1));
            i -= 1;
        }
        None
    }
}

} // verus!
