//! The decisions of the coordinator and the workers: keeping the uploaded
//! scenarios, finding the one a run asks for, and choosing the workers.
use vstd::prelude::*;

use crate::config::{spec_split, Config};
use crate::services::{CoordinatorError, WorkerError};

verus! {

/// The names and contents of `entries`, as plain values.
pub open spec fn entry_views(entries: Seq<(String, Vec<u8>)>) -> Seq<(Seq<char>, Seq<u8>)> {
    entries.map_values(|e: (String, Vec<u8>)| (e.0@, e.1@))
}

/// The map the pairs of `entries` make, later pairs winning.
pub open spec fn entries_map(entries: Seq<(Seq<char>, Seq<u8>)>) -> Map<Seq<char>, Seq<u8>>
    decreases entries.len(),
{
    if entries.len() == 0 {
        Map::empty()
    } else {
        entries_map(entries.drop_last()).insert(entries.last().0, entries.last().1)
    }
}

/// No name occurs twice.
pub open spec fn unique_names(entries: Seq<(Seq<char>, Seq<u8>)>) -> bool {
    forall|i: int, j: int| 0 <= i < j < entries.len() ==> (#[trigger] entries[i]).0 != (#[trigger] entries[j]).0
}

/// The map holds exactly the names of the pairs, each with its content.
pub proof fn lemma_entries_map(entries: Seq<(Seq<char>, Seq<u8>)>)
    requires
        unique_names(entries),
    ensures
        forall|i: int| 0 <= i < entries.len() ==> entries_map(entries).contains_key((#[trigger] entries[i]).0)
            && entries_map(entries)[entries[i].0] == entries[i].1,
        forall|k: Seq<char>| entries_map(entries).contains_key(k) ==> exists|i: int| 0 <= i < entries.len() && (#[trigger] entries[i]).0 == k,
    decreases entries.len(),
{
    if entries.len() > 0 {
        let p = entries.drop_last();
        assert(unique_names(p)) by {
            assert forall|i: int, j: int| 0 <= i < j < p.len() implies (#[trigger] p[i]).0 != (#[trigger] p[j]).0 by {
                assert(entries[i] == p[i] && entries[j] == p[j]);
            }
        }
        lemma_entries_map(p);
        let n = entries.len() - 1;
        assert forall|i: int| 0 <= i < entries.len() implies entries_map(entries).contains_key((#[trigger] entries[i]).0)
            && entries_map(entries)[entries[i].0] == entries[i].1 by {
            if i < n {
                assert(p[i] == entries[i]);
                assert(entries[i].0 != entries[n].0);
            }
        }
        assert forall|k: Seq<char>| entries_map(entries).contains_key(k) implies exists|i: int| 0 <= i < entries.len() && (#[trigger] entries[i]).0 == k by {
            if k != entries[n].0 {
                assert(entries_map(p).contains_key(k));
                let i = choose|i: int| 0 <= i < p.len() && (#[trigger] p[i]).0 == k;
                assert(entries[i] == p[i]);
            } else {
                assert(entries[n].0 == k);
            }
        }
    }
}

/// Replacing the content of a name that occurs once is inserting it anew.
pub proof fn lemma_entries_map_update(entries: Seq<(Seq<char>, Seq<u8>)>, i: int, content: Seq<u8>)
    requires
        unique_names(entries),
        0 <= i < entries.len(),
    ensures
        entries_map(entries.update(i, (entries[i].0, content))) == entries_map(entries).insert(entries[i].0, content),
    decreases entries.len(),
{
    let e2 = entries.update(i, (entries[i].0, content));
    let n = entries.len() - 1;
    let p = entries.drop_last();
    assert(unique_names(p)) by {
        assert forall|a: int, b: int| 0 <= a < b < p.len() implies (#[trigger] p[a]).0 != (#[trigger] p[b]).0 by {
            assert(entries[a] == p[a] && entries[b] == p[b]);
        }
    }
    if i == n {
        assert(e2.drop_last() =~= p);
        assert(entries_map(e2) =~= entries_map(entries).insert(entries[i].0, content));
    } else {
        lemma_entries_map_update(p, i, content);
        assert(e2.drop_last() =~= p.update(i, (p[i].0, content)));
        assert(entries[i].0 != entries[n].0);
        assert(entries_map(e2) =~= entries_map(entries).insert(entries[i].0, content));
    }
}

/// The uploaded scenarios, by name.
#[derive(Debug)]
pub struct ScenarioStore {
    entries: Vec<(String, Vec<u8>)>,
}

impl View for ScenarioStore {
    type V = Map<Seq<char>, Seq<u8>>;

    closed spec fn view(&self) -> Map<Seq<char>, Seq<u8>> {
        entries_map(entry_views(self.entries@))
    }
}

impl ScenarioStore {
    #[verifier::type_invariant]
    spec fn well_formed(self) -> bool {
        unique_names(entry_views(self.entries@))
    }

    /// A store with no scenarios.
    pub fn new() -> (s: ScenarioStore)
        ensures
            s@ == Map::<Seq<char>, Seq<u8>>::empty(),
    {
        let s = ScenarioStore { entries: Vec::new() };
        assert(entry_views(s.entries@) =~= Seq::<(Seq<char>, Seq<u8>)>::empty());
        s
    }

    /// Where `name` is kept, if it is.
    fn position(&self, name: &String) -> (r: Option<usize>)
        ensures
            r matches Some(i) ==> i < self.entries.len() && self.entries@[i as int].0@ == name@,
            r is None ==> forall|i: int| 0 <= i < self.entries.len() ==> (#[trigger] self.entries@[i]).0@ != name@,
    {
        let mut i: usize = 0;
        while i < self.entries.len()
            invariant
                0 <= i <= self.entries.len(),
                forall|j: int| 0 <= j < i ==> (#[trigger] self.entries@[j]).0@ != name@,
            decreases self.entries.len() - i,
        {
            if self.entries[i].0 == *name {
                return Some(i);
            }
            i += 1;
        }
        None
    }

    /// Keeps `content` under `name`, replacing what was kept there before.
    pub fn insert(&mut self, name: String, content: Vec<u8>)
        ensures
            final(self)@ == old(self)@.insert(name@, content@),
    {
        proof { use_type_invariant(&*self); }
        let ghost views = entry_views(self.entries@);
        let ghost name_view = name@;
        let ghost content_view = content@;
        match self.position(&name) {
            Some(i) => {
                let mut entries: Vec<(String, Vec<u8>)> = Vec::new();
                std::mem::swap(&mut entries, &mut self.entries);
                proof {
                    lemma_entries_map_update(views, i as int, content_view);
                }
                entries.set(i, (name, content));
                proof {
                    assert(entry_views(entries@) =~= views.update(i as int, (views[i as int].0, content_view)));
                }
                self.entries = entries;
            },
            None => {
                let mut entries: Vec<(String, Vec<u8>)> = Vec::new();
                std::mem::swap(&mut entries, &mut self.entries);
                entries.push((name, content));
                proof {
                    assert(entry_views(entries@) =~= views.push((name_view, content_view)));
                    assert(entry_views(entries@).drop_last() =~= views);
                    assert forall|a: int, b: int| 0 <= a < b < entry_views(entries@).len() implies
                        (#[trigger] entry_views(entries@)[a]).0 != (#[trigger] entry_views(entries@)[b]).0 by {
                        if b == views.len() {
                            assert(entries@[a].0@ != name_view);
                        } else {
                            assert(views[a] == entry_views(entries@)[a]);
                            assert(views[b] == entry_views(entries@)[b]);
                        }
                    }
                }
                self.entries = entries;
            },
        }
    }

    /// The content kept under `name`, if any.
    pub fn get(&self, name: &String) -> (r: Option<&Vec<u8>>)
        ensures
            r is Some <==> self@.contains_key(name@),
            r matches Some(c) ==> c@ == self@[name@],
    {
        proof {
            use_type_invariant(self);
            lemma_entries_map(entry_views(self.entries@));
        }
        match self.position(name) {
            Some(i) => {
                assert(entry_views(self.entries@)[i as int].0 == name@);
                Some(&self.entries[i].1)
            },
            None => {
                proof {
                    if self@.contains_key(name@) {
                        let views = entry_views(self.entries@);
                        let j = choose|j: int| 0 <= j < views.len() && (#[trigger] views[j]).0 == name@;
                        assert(self.entries@[j].0@ == name@);
                    }
                }
                None
            },
        }
    }

    /// The kept scenarios, by name, each once.
    pub fn entries(&self) -> (r: &Vec<(String, Vec<u8>)>)
        ensures
            unique_names(entry_views(r@)),
            entries_map(entry_views(r@)) == self@,
    {
        proof { use_type_invariant(self); }
        &self.entries
    }
}

/// Reading a scenario back gives what was last uploaded under its name, and
/// uploading under one name leaves every other name as it was.
pub proof fn lemma_upload_then_read(store: Map<Seq<char>, Seq<u8>>, name: Seq<char>, content: Seq<u8>, other: Seq<char>)
    requires
        other != name,
    ensures
        store.insert(name, content).contains_key(name),
        store.insert(name, content)[name] == content,
        store.insert(name, content).contains_key(other) == store.contains_key(other),
        store.contains_key(other) ==> store.insert(name, content)[other] == store[other],
{
}

/// The scenario the coordinator starts a run of, or `NoSuchModule` naming
/// it when it was never uploaded.
pub fn scenario_for_run(scenarios: &ScenarioStore, name: &String) -> (r: Result<Vec<u8>, CoordinatorError>)
    ensures
        scenarios@.contains_key(name@) ==> (r matches Ok(c) && c@ == scenarios@[name@]),
        !scenarios@.contains_key(name@) ==> (r matches Err(CoordinatorError::NoSuchModule(n)) && n@ == name@),
{
    match scenarios.get(name) {
        Some(content) => Ok(content.clone()),
        None => Err(CoordinatorError::NoSuchModule(name.clone())),
    }
}

/// The scenario a worker starts, or `ScenarioNotFound` when it has none
/// under that name.
pub fn scenario_for_start(scenarios: &ScenarioStore, name: &String) -> (r: Result<Vec<u8>, WorkerError>)
    ensures
        scenarios@.contains_key(name@) ==> (r matches Ok(c) && c@ == scenarios@[name@]),
        !scenarios@.contains_key(name@) ==> r == Err::<Vec<u8>, WorkerError>(WorkerError::ScenarioNotFound),
{
    match scenarios.get(name) {
        Some(content) => Ok(content.clone()),
        None => Err(WorkerError::ScenarioNotFound),
    }
}

/// The names of the first `workers_number` of the available workers, or
/// `NotEnoughWorkers` with the number available when there are fewer.
pub fn select_workers(available: &Vec<String>, workers_number: usize) -> (r: Result<Vec<String>, CoordinatorError>)
    ensures
        workers_number > available.len() ==> r == Err::<Vec<String>, CoordinatorError>(CoordinatorError::NotEnoughWorkers(available.len())),
        workers_number <= available.len() ==> (r matches Ok(names) && names.deep_view() == available.deep_view().take(workers_number as int)),
{
    if workers_number > available.len() {
        return Err(CoordinatorError::NotEnoughWorkers(available.len()));
    }
    let mut names: Vec<String> = Vec::new();
    let mut i: usize = 0;
    while i < workers_number
        invariant
            0 <= i <= workers_number <= available.len(),
            names.deep_view() == available.deep_view().take(i as int),
        decreases workers_number - i,
    {
        let ghost before = names.deep_view();
        let name = available[i].clone();
        names.push(name);
        assert(names.deep_view() =~= before.push(available@[i as int]@));
        assert(available.deep_view().take(i + 1) =~= available.deep_view().take(i as int).push(available@[i as int]@));
        i += 1;
    }
    Ok(names)
}


/// What starting a run on `workers_number` workers amounts to, once the
/// scenario's configuration is known: the configuration each worker runs and
/// the workers chosen, or `NotEnoughWorkers` when fewer are available.
pub fn plan_run(config: &Config, workers_number: usize, available: &Vec<String>) -> (r: Result<(Config, Vec<String>), CoordinatorError>)
    requires
        workers_number > 0,
    ensures
        workers_number > available.len() ==> r == Err::<(Config, Vec<String>), CoordinatorError>(CoordinatorError::NotEnoughWorkers(available.len())),
        workers_number <= available.len() ==> (r matches Ok((c, names))
            && c == spec_split(*config, workers_number as nat)
            && names.deep_view() == available.deep_view().take(workers_number as int)),
{
    let config = config.split(workers_number);
    match select_workers(available, workers_number) {
        Ok(names) => Ok((config, names)),
        Err(e) => Err(e),
    }
}

} // verus!
