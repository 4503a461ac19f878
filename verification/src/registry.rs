//! A registry of agents keyed by their identifiers, and the routing of a
//! message to its target.

use vstd::prelude::*;
use crate::text::{push_str, str_eq, string_from_chars};

verus! {

/// What the registry records of an agent besides the agent itself.
pub struct AgentInfo {
    pub agent_id: String,
    pub name: String,
    pub role: String,
}

/// A registered agent with its description.
pub struct RegisteredAgent<A> {
    pub info: AgentInfo,
    pub agent: A,
}

/// The registered agents, in the order of registration; no identifier
/// occurs twice.
pub struct AgentRegistry<A> {
    entries: Vec<RegisteredAgent<A>>,
}

/// The identifiers of a list of registered agents.
pub open spec fn ids_of<A>(entries: Seq<RegisteredAgent<A>>) -> Seq<Seq<char>> {
    entries.map_values(|e: RegisteredAgent<A>| e.info.agent_id@)
}

/// The message of a refused registration.
pub open spec fn duplicate_message(id: Seq<char>) -> Seq<char> {
    "Agent with ID "@ + id + " already exists"@
}

/// The message of a refused removal.
pub open spec fn missing_message(id: Seq<char>) -> Seq<char> {
    "Agent "@ + id + " not found"@
}

/// The message of a message whose target is not registered.
pub open spec fn missing_target_message(id: Seq<char>) -> Seq<char> {
    "Target agent "@ + id + " not found"@
}

fn framed(before: &str, id: &str, after: &str) -> (s: String)
    ensures
        s@ == before@ + id@ + after@,
{
    let mut out: Vec<char> = Vec::new();
    push_str(&mut out, before);
    push_str(&mut out, id);
    push_str(&mut out, after);
    let s = string_from_chars(out.as_slice());
    assert(s@ =~= before@ + id@ + after@);
    s
}

impl<A> AgentRegistry<A> {
    /// The registered agents, in the order of registration.
    pub closed spec fn entries(self) -> Seq<RegisteredAgent<A>> {
        self.entries@
    }

    /// The registered identifiers, in the order of registration.
    pub open spec fn ids(self) -> Seq<Seq<char>> {
        ids_of(self.entries())
    }

    /// No identifier is registered twice.
    pub open spec fn well_formed(self) -> bool {
        self.ids().no_duplicates()
    }

    /// An empty registry.
    pub fn new() -> (r: AgentRegistry<A>)
        ensures
            r.entries() == Seq::<RegisteredAgent<A>>::empty(),
            r.well_formed(),
    {
        let r = AgentRegistry { entries: Vec::new() };
        assert(r.ids() =~= Seq::<Seq<char>>::empty());
        r
    }

    /// The position of an identifier, if it is registered.
    fn position(&self, agent_id: &str) -> (p: Option<usize>)
        ensures
            match p {
                Some(i) => i < self.ids().len() && self.ids()[i as int] == agent_id@,
                None => !self.ids().contains(agent_id@),
            },
    {
        let mut i: usize = 0;
        while i < self.entries.len()
            invariant
                i <= self.entries@.len(),
                forall|j: int| 0 <= j < i ==> self.ids()[j] != agent_id@,
            decreases self.entries@.len() - i,
        {
            if str_eq(self.entries[i].info.agent_id.as_str(), agent_id) {
                return Some(i);
            }
            i = i + 1;
        }
        None
    }

    /// Registers an agent under its identifier; an identifier that is
    /// already registered is refused and the registry is left unchanged.
    pub fn register_agent(&mut self, info: AgentInfo, agent: A) -> (r: Result<(), String>)
        requires
            old(self).well_formed(),
        ensures
            final(self).well_formed(),
            old(self).ids().contains(info.agent_id@) ==> r is Err
                && r->Err_0@ == duplicate_message(info.agent_id@)
                && final(self).entries() == old(self).entries(),
            !old(self).ids().contains(info.agent_id@) ==> r is Ok
                && final(self).entries() == old(self).entries().push(RegisteredAgent { info, agent }),
    {
        match self.position(info.agent_id.as_str()) {
            Some(_) => {
                Err(framed("Agent with ID ", info.agent_id.as_str(), " already exists"))
            },
            None => {
                let ghost before = self.entries();
                let ghost id = info.agent_id@;
                self.entries.push(RegisteredAgent { info, agent });
                assert(self.ids() =~= ids_of(before).push(id));
                Ok(())
            },
        }
    }

    /// Removes the agent with the given identifier; an identifier that is
    /// not registered is refused and the registry is left unchanged.
    pub fn unregister_agent(&mut self, agent_id: &str) -> (r: Result<(), String>)
        requires
            old(self).well_formed(),
        ensures
            final(self).well_formed(),
            !old(self).ids().contains(agent_id@) ==> r is Err
                && r->Err_0@ == missing_message(agent_id@)
                && final(self).entries() == old(self).entries(),
            old(self).ids().contains(agent_id@) ==> r is Ok
                && final(self).entries() == old(self).entries().remove(old(self).ids().index_of(agent_id@)),
    {
        match self.position(agent_id) {
            None => Err(framed("Agent ", agent_id, " not found")),
            Some(i) => {
                let ghost before = self.entries();
                proof {
                    let k = self.ids().index_of(agent_id@);
                    assert(self.ids()[k] == agent_id@);
                    assert(k == i as int);
                }
                let _removed = self.entries.remove(i);
                assert(self.ids() =~= ids_of(before).remove(i as int));
                Ok(())
            },
        }
    }

    /// The registered identifiers, in the order of registration.
    pub fn list_agents(&self) -> (v: Vec<String>)
        ensures
            v@.map_values(|s: String| s@) == self.ids(),
    {
        let mut v: Vec<String> = Vec::new();
        let mut i: usize = 0;
        while i < self.entries.len()
            invariant
                i <= self.entries@.len(),
                v@.len() == i,
                forall|j: int| 0 <= j < i ==> (#[trigger] v@[j])@ == self.ids()[j],
            decreases self.entries@.len() - i,
        {
            let id = self.entries[i].info.agent_id.clone();
            v.push(id);
            i = i + 1;
        }
        assert(v@.map_values(|s: String| s@) =~= self.ids());
        v
    }

    /// The identifier, name and role of a registered agent.
    pub fn get_agent_info(&self, agent_id: &str) -> (r: Option<(String, String, String)>)
        requires
            self.well_formed(),
        ensures
            !self.ids().contains(agent_id@) ==> r is None,
            self.ids().contains(agent_id@) ==> (r matches Some((id, name, role)) && {
                let e = self.entries()[self.ids().index_of(agent_id@)];
                &&& id@ == e.info.agent_id@
                &&& name@ == e.info.name@
                &&& role@ == e.info.role@
            }),
    {
        match self.position(agent_id) {
            None => None,
            Some(i) => {
                proof {
                    let k = self.ids().index_of(agent_id@);
                    assert(self.ids()[k] == agent_id@);
                    assert(k == i as int);
                }
                let e = &self.entries[i];
                Some((e.info.agent_id.clone(), e.info.name.clone(), e.info.role.clone()))
            },
        }
    }

    /// Whether an agent with the given identifier is registered.
    pub fn has_agent(&self, agent_id: &str) -> (b: bool)
        ensures
            b == self.ids().contains(agent_id@),
    {
        self.position(agent_id).is_some()
    }

    /// The agent a message for the given identifier goes to; a message for
    /// an identifier that is not registered is refused.
    pub fn target_agent(&self, to_agent_id: &str) -> (r: Result<&A, String>)
        requires
            self.well_formed(),
        ensures
            !self.ids().contains(to_agent_id@) ==> r is Err
                && r->Err_0@ == missing_target_message(to_agent_id@),
            self.ids().contains(to_agent_id@) ==> r is Ok
                && *r->Ok_0 == self.entries()[self.ids().index_of(to_agent_id@)].agent,
    {
        match self.position(to_agent_id) {
            None => Err(framed("Target agent ", to_agent_id, " not found")),
            Some(i) => {
                proof {
                    let k = self.ids().index_of(to_agent_id@);
                    assert(self.ids()[k] == to_agent_id@);
                    assert(k == i as int);
                }
                Ok(&self.entries[i].agent)
            },
        }
    }
}

/// A newly registered agent is found under its identifier: it is the last
/// entry, and no identifier occurs twice afterwards.
pub proof fn law_registered_agent_is_found<A>(before: Seq<RegisteredAgent<A>>, e: RegisteredAgent<A>)
    requires
        ids_of(before).no_duplicates(),
        !ids_of(before).contains(e.info.agent_id@),
    ensures
        ids_of(before.push(e)).no_duplicates(),
        ids_of(before.push(e)).contains(e.info.agent_id@),
        ids_of(before.push(e)).index_of(e.info.agent_id@) == before.len(),
        before.push(e)[ids_of(before.push(e)).index_of(e.info.agent_id@)] == e,
{
    let after = before.push(e);
    let id = e.info.agent_id@;
    assert(ids_of(after) =~= ids_of(before).push(id));
    assert(ids_of(after)[before.len() as int] == id);
    let k = ids_of(after).index_of(id);
    assert(0 <= k < ids_of(after).len() && ids_of(after)[k] == id);
    if k != before.len() {
        assert(ids_of(before)[k] == id);
    }
}

/// Removing an agent right after registering it gives back the registry as
/// it was.
pub proof fn law_unregister_undoes_register<A>(before: Seq<RegisteredAgent<A>>, e: RegisteredAgent<A>)
    requires
        ids_of(before).no_duplicates(),
        !ids_of(before).contains(e.info.agent_id@),
    ensures
        before.push(e).remove(ids_of(before.push(e)).index_of(e.info.agent_id@)) == before,
{
    law_registered_agent_is_found(before, e);
    assert(before.push(e).remove(before.len() as int) =~= before);
}

/// After an agent is removed, its identifier is no longer registered and
/// every other identifier still is.
pub proof fn law_unregistered_agent_is_gone<A>(before: Seq<RegisteredAgent<A>>, id: Seq<char>, other: Seq<char>)
    requires
        ids_of(before).no_duplicates(),
        ids_of(before).contains(id),
    ensures
        !ids_of(before.remove(ids_of(before).index_of(id))).contains(id),
        ids_of(before.remove(ids_of(before).index_of(id))).no_duplicates(),
        other != id ==> (ids_of(before.remove(ids_of(before).index_of(id))).contains(other)
            <==> ids_of(before).contains(other)),
{
    let k = ids_of(before).index_of(id);
    assert(0 <= k < ids_of(before).len() && ids_of(before)[k] == id);
    let after = before.remove(k);
    assert(ids_of(after) =~= ids_of(before).remove(k));
    if ids_of(after).contains(id) {
        let j = choose|j: int| 0 <= j < ids_of(after).len() && ids_of(after)[j] == id;
        if j < k {
            assert(ids_of(before)[j] == id);
        } else {
            assert(ids_of(before)[j + 1] == id);
        }
    }
    if other != id {
        if ids_of(before).contains(other) {
            let j = choose|j: int| 0 <= j < ids_of(before).len() && ids_of(before)[j] == other;
            if j < k {
                assert(ids_of(after)[j] == other);
            } else {
                assert(j != k);
                assert(ids_of(after)[j - 1] == other);
            }
        }
        if ids_of(after).contains(other) {
            let j = choose|j: int| 0 <= j < ids_of(after).len() && ids_of(after)[j] == other;
            if j < k {
                assert(ids_of(before)[j] == other);
            } else {
                assert(ids_of(before)[j + 1] == other);
            }
        }
    }
}

} // verus!
