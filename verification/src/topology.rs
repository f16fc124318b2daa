//! How the configured components are wired together: sinks first, then
//! transforms, then sources, each transform and source sending into the
//! component its `target` names.

use vstd::prelude::*;

use crate::component::ComponentKind;

verus! {

/// The names and targets of the configured components, in the order the
/// configuration yields them.
#[derive(Debug)]
pub struct Topology {
    pub sinks: Vec<String>,
    /// `(name, target)` of each transform.
    pub transforms: Vec<(String, String)>,
    /// `(name, target)` of each source.
    pub sources: Vec<(String, String)>,
}

/// A component as it will be started: its name, its kind, and the position
/// (in the list of components) of the component it sends its events to.
#[derive(Debug)]
pub struct PlannedComponent {
    pub name: String,
    pub kind: ComponentKind,
    pub target: Option<usize>,
}

/// The position of the last entry equal to `name`: a later registration of
/// a name replaces an earlier one.
pub open spec fn last_index(names: Seq<Seq<char>>, name: Seq<char>) -> Option<int>
    decreases names.len(),
{
    if names.len() == 0 {
        None
    } else if names.last() == name {
        Some(names.len() - 1)
    } else {
        last_index(names.drop_last(), name)
    }
}

/// The names of a list of `(name, target)` pairs.
pub open spec fn names_of(pairs: Seq<(String, String)>) -> Seq<Seq<char>> {
    pairs.map_values(|p: (String, String)| p.0@)
}

/// The names components may send to, in the order they become available:
/// every sink, then every transform.
pub open spec fn receivers(t: Topology) -> Seq<Seq<char>> {
    t.sinks@.map_values(|s: String| s@) + names_of(t.transforms@)
}

/// Each transform's target is a sink or an earlier transform, and each
/// source's target is a sink or a transform.
pub open spec fn resolvable(t: Topology) -> bool {
    let s = t.sinks@.len();
    &&& forall|j: int| 0 <= j < t.transforms@.len() ==>
            (#[trigger] last_index(receivers(t).take(s + j), t.transforms@[j].1@)) is Some
    &&& forall|q: int| 0 <= q < t.sources@.len() ==>
            (#[trigger] last_index(receivers(t), t.sources@[q].1@)) is Some
}

/// `plan` lists the sinks, then the transforms, then the sources, each with
/// the component it sends to.
pub open spec fn is_plan(t: Topology, plan: Seq<PlannedComponent>) -> bool {
    let s = t.sinks@.len();
    let n = t.transforms@.len();
    &&& plan.len() == s + n + t.sources@.len()
    &&& forall|i: int| 0 <= i < s ==> {
        &&& (#[trigger] plan[i]).name@ == t.sinks@[i]@
        &&& plan[i].kind == ComponentKind::Sink
        &&& plan[i].target is None
    }
    &&& forall|j: int| 0 <= j < n ==> {
        &&& (#[trigger] plan[s + j]).name@ == t.transforms@[j].0@
        &&& plan[s + j].kind == ComponentKind::Transform
        &&& plan[s + j].target matches Some(x) && last_index(receivers(t).take(s + j), t.transforms@[j].1@) == Some(x as int)
    }
    &&& forall|q: int| 0 <= q < t.sources@.len() ==> {
        &&& (#[trigger] plan[s + n + q]).name@ == t.sources@[q].0@
        &&& plan[s + n + q].kind == ComponentKind::Source
        &&& plan[s + n + q].target matches Some(x) && last_index(receivers(t), t.sources@[q].1@) == Some(x as int)
    }
}

proof fn lemma_last_index_bounds(names: Seq<Seq<char>>, name: Seq<char>)
    ensures
        last_index(names, name) matches Some(i) ==> 0 <= i < names.len() && names[i] == name,
        last_index(names, name) is None ==> forall|i: int| 0 <= i < names.len() ==> names[i] != name,
    decreases names.len(),
{
    if names.len() > 0 {
        lemma_last_index_bounds(names.drop_last(), name);
        if names.last() != name {
            assert forall|i: int| 0 <= i < names.len() - 1 implies names[i] == names.drop_last()[i] by {}
        }
    }
}

/// Searches `names[..len]` from the back for `name`.
fn find_last(names: &Vec<String>, len: usize, name: &String) -> (r: Option<usize>)
    requires
        len <= names@.len(),
    ensures
        r matches Some(i) ==> last_index(names@.map_values(|s: String| s@).take(len as int), name@) == Some(i as int),
        r is None ==> last_index(names@.map_values(|s: String| s@).take(len as int), name@) is None,
{
    let ghost all = names@.map_values(|s: String| s@);
    let mut k = len;
    while k > 0
        invariant
            k <= len <= names@.len(),
            all == names@.map_values(|s: String| s@),
            last_index(all.take(len as int), name@) == last_index(all.take(k as int), name@),
        decreases k,
    {
        assert(all.take(k as int).drop_last() =~= all.take(k - 1));
        if names[k - 1] == *name {
            return Some(k - 1);
        }
        k = k - 1;
    }
    None
}

impl Topology {
    /// Every target names a component that can receive from it.
    pub fn targets_resolve(&self) -> (b: bool)
        ensures
            b == resolvable(*self),
    {
        let mut names: Vec<String> = Vec::new();
        let mut i: usize = 0;
        while i < self.sinks.len()
            invariant
                i <= self.sinks@.len(),
                names@.len() == i,
                names@.map_values(|s: String| s@) == receivers(*self).take(i as int),
            decreases self.sinks@.len() - i,
        {
            names.push(self.sinks[i].clone());
            assert(names@.map_values(|s: String| s@) =~= receivers(*self).take(i + 1));
            i = i + 1;
        }
        let s = self.sinks.len();
        let mut j: usize = 0;
        while j < self.transforms.len()
            invariant
                s == self.sinks@.len(),
                j <= self.transforms@.len(),
                names@.len() == s + j,
                names@.map_values(|s: String| s@) == receivers(*self).take(s + j),
                forall|jj: int| 0 <= jj < j ==>
                    (#[trigger] last_index(receivers(*self).take(s + jj), self.transforms@[jj].1@)) is Some,
            decreases self.transforms@.len() - j,
        {
            let found = find_last(&names, names.len(), &self.transforms[j].1);
            assert(names@.map_values(|s: String| s@).take(names@.len() as int) =~= receivers(*self).take(s + j));
            if found.is_none() {
                return false;
            }
            names.push(self.transforms[j].0.clone());
            assert(names@.map_values(|s: String| s@) =~= receivers(*self).take(s + j + 1));
            j = j + 1;
        }
        assert(receivers(*self).take(names@.len() as int) =~= receivers(*self));
        let mut q: usize = 0;
        while q < self.sources.len()
            invariant
                q <= self.sources@.len(),
                names@.map_values(|s: String| s@) == receivers(*self),
                forall|qq: int| 0 <= qq < q ==> (#[trigger] last_index(receivers(*self), self.sources@[qq].1@)) is Some,
            decreases self.sources@.len() - q,
        {
            let found = find_last(&names, names.len(), &self.sources[q].1);
            assert(names@.map_values(|s: String| s@).take(names@.len() as int) =~= receivers(*self));
            if found.is_none() {
                return false;
            }
            q = q + 1;
        }
        true
    }

    /// The components to start: sinks, then transforms, then sources, each
    /// transform and source sending to the latest registered receiver with
    /// its target's name.
    pub fn components(&self) -> (plan: Vec<PlannedComponent>)
        requires
            resolvable(*self),
        ensures
            is_plan(*self, plan@),
    {
        let mut names: Vec<String> = Vec::new();
        let mut plan: Vec<PlannedComponent> = Vec::new();
        let s = self.sinks.len();
        let mut i: usize = 0;
        while i < s
            invariant
                s == self.sinks@.len(),
                i <= s,
                names@.len() == i,
                names@.map_values(|s: String| s@) == receivers(*self).take(i as int),
                plan@.len() == i,
                forall|k: int| 0 <= k < i ==> {
                    &&& (#[trigger] plan@[k]).name@ == self.sinks@[k]@
                    &&& plan@[k].kind == ComponentKind::Sink
                    &&& plan@[k].target is None
                },
            decreases s - i,
        {
            names.push(self.sinks[i].clone());
            plan.push(PlannedComponent { name: self.sinks[i].clone(), kind: ComponentKind::Sink, target: None });
            assert(names@.map_values(|s: String| s@) =~= receivers(*self).take(i + 1));
            i = i + 1;
        }
        let n = self.transforms.len();
        let mut j: usize = 0;
        while j < n
            invariant
                s == self.sinks@.len(),
                n == self.transforms@.len(),
                resolvable(*self),
                j <= n,
                names@.len() == s + j,
                names@.map_values(|s: String| s@) == receivers(*self).take(s + j),
                plan@.len() == s + j,
                forall|k: int| 0 <= k < s ==> {
                    &&& (#[trigger] plan@[k]).name@ == self.sinks@[k]@
                    &&& plan@[k].kind == ComponentKind::Sink
                    &&& plan@[k].target is None
                },
                forall|jj: int| 0 <= jj < j ==> {
                    &&& (#[trigger] plan@[s + jj]).name@ == self.transforms@[jj].0@
                    &&& plan@[s + jj].kind == ComponentKind::Transform
                    &&& plan@[s + jj].target matches Some(x) && last_index(receivers(*self).take(s + jj), self.transforms@[jj].1@) == Some(x as int)
                },
            decreases n - j,
        {
            let found = find_last(&names, names.len(), &self.transforms[j].1);
            assert(names@.map_values(|s: String| s@).take(names@.len() as int) =~= receivers(*self).take(s + j));
            assert(last_index(receivers(*self).take(s + j), self.transforms@[j as int].1@) is Some);
            let ghost before = plan@;
            plan.push(PlannedComponent { name: self.transforms[j].0.clone(), kind: ComponentKind::Transform, target: found });
            names.push(self.transforms[j].0.clone());
            assert(names@.map_values(|s: String| s@) =~= receivers(*self).take(s + j + 1));
            assert forall|k: int| 0 <= k < s implies #[trigger] plan@[k] == before[k] by {}
            assert forall|jj: int| 0 <= jj < j implies #[trigger] plan@[s + jj] == before[s + jj] by {}
            j = j + 1;
        }
        assert(receivers(*self).take(names@.len() as int) =~= receivers(*self));
        let m = self.sources.len();
        let mut q: usize = 0;
        while q < m
            invariant
                s == self.sinks@.len(),
                n == self.transforms@.len(),
                m == self.sources@.len(),
                resolvable(*self),
                q <= m,
                names@.map_values(|s: String| s@) == receivers(*self),
                plan@.len() == s + n + q,
                forall|k: int| 0 <= k < s ==> {
                    &&& (#[trigger] plan@[k]).name@ == self.sinks@[k]@
                    &&& plan@[k].kind == ComponentKind::Sink
                    &&& plan@[k].target is None
                },
                forall|jj: int| 0 <= jj < n ==> {
                    &&& (#[trigger] plan@[s + jj]).name@ == self.transforms@[jj].0@
                    &&& plan@[s + jj].kind == ComponentKind::Transform
                    &&& plan@[s + jj].target matches Some(x) && last_index(receivers(*self).take(s + jj), self.transforms@[jj].1@) == Some(x as int)
                },
                forall|qq: int| 0 <= qq < q ==> {
                    &&& (#[trigger] plan@[s + n + qq]).name@ == self.sources@[qq].0@
                    &&& plan@[s + n + qq].kind == ComponentKind::Source
                    &&& plan@[s + n + qq].target matches Some(x) && last_index(receivers(*self), self.sources@[qq].1@) == Some(x as int)
                },
            decreases m - q,
        {
            let found = find_last(&names, names.len(), &self.sources[q].1);
            assert(names@.map_values(|s: String| s@).take(names@.len() as int) =~= receivers(*self));
            assert(last_index(receivers(*self), self.sources@[q as int].1@) is Some);
            let ghost before = plan@;
            plan.push(PlannedComponent { name: self.sources[q].0.clone(), kind: ComponentKind::Source, target: found });
            assert forall|k: int| 0 <= k < s implies #[trigger] plan@[k] == before[k] by {}
            assert forall|jj: int| 0 <= jj < n implies #[trigger] plan@[s + jj] == before[s + jj] by {}
            assert forall|qq: int| 0 <= qq < q implies #[trigger] plan@[s + n + qq] == before[s + n + qq] by {}
            q = q + 1;
        }
        plan
    }
}

/// The pipeline has no cycles and no dangling edges: every transform and
/// source sends to a sink or transform placed before it in the plan, and
/// that component bears the target's name.
pub proof fn law_targets_come_first(t: Topology, plan: Seq<PlannedComponent>, i: int)
    requires
        is_plan(t, plan),
        0 <= i < plan.len(),
        plan[i].target is Some,
    ensures
        plan[i].target->0 < i,
        plan[plan[i].target->0 as int].kind != ComponentKind::Source,
        i >= t.sinks@.len() + t.transforms@.len() ==> plan[plan[i].target->0 as int].name@
            == t.sources@[i - t.sinks@.len() - t.transforms@.len()].1@,
        t.sinks@.len() <= i < t.sinks@.len() + t.transforms@.len() ==> plan[plan[i].target->0 as int].name@
            == t.transforms@[i - t.sinks@.len()].1@,
{
    let s = t.sinks@.len();
    let n = t.transforms@.len();
    let recv = receivers(t);
    assert(recv.len() == s + n);
    if i < s {
        assert(plan[i].target is None);
    } else if i < s + n {
        let j = i - s;
        assert(plan[s + j] == plan[i]);
        lemma_last_index_bounds(recv.take(s + j), t.transforms@[j].1@);
        let x = plan[i].target->0 as int;
        if x < s {
            assert(plan[x].kind == ComponentKind::Sink);
            assert(recv.take(s + j)[x] == t.sinks@[x]@);
        } else {
            assert(plan[s + (x - s)].kind == ComponentKind::Transform);
            assert(recv.take(s + j)[x] == t.transforms@[x - s].0@);
        }
    } else {
        let q = i - s - n;
        assert(plan[s + n + q] == plan[i]);
        lemma_last_index_bounds(recv, t.sources@[q].1@);
        let x = plan[i].target->0 as int;
        if x < s {
            assert(plan[x].kind == ComponentKind::Sink);
            assert(recv[x] == t.sinks@[x]@);
        } else {
            assert(plan[s + (x - s)].kind == ComponentKind::Transform);
            assert(recv[x] == t.transforms@[x - s].0@);
        }
    }
}

} // verus!
