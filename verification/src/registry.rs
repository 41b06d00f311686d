//! The registry of a session: the algorithms defined so far, each name once,
//! in the order in which the names were first defined.

use crate::ast::{names_view, AlgorithmDef, AlgorithmDefView};
use crate::eval::{
    defs_view, last_wins, lemma_last_wins_found, lemma_last_wins_missing, registry, World,
};
use crate::text::str_eq;
use vstd::prelude::*;

verus! {

/// The names of a sequence of definitions, in order.
pub open spec fn def_names(defs: Seq<AlgorithmDefView>) -> Seq<Seq<char>> {
    defs.map_values(|d: AlgorithmDefView| d.name)
}

/// Whether no two definitions of the sequence have one name.
pub open spec fn distinct_names(defs: Seq<AlgorithmDefView>) -> bool {
    forall|i: int, j: int|
        0 <= i < j < defs.len() ==> (#[trigger] defs[i]).name != (#[trigger] defs[j]).name
}

/// The position of the first definition named `name` at or after `i`, or
/// the length of the sequence where there is none.
pub open spec fn position(defs: Seq<AlgorithmDefView>, name: Seq<char>, i: int) -> int
    decreases defs.len() - i,
{
    if 0 <= i < defs.len() && defs[i].name != name {
        position(defs, name, i + 1)
    } else {
        i
    }
}

/// The definitions after `def` was put among them: in the place of the
/// definition of the same name where there is one, behind the others where
/// there is none.
pub open spec fn upsert_spec(defs: Seq<AlgorithmDefView>, def: AlgorithmDefView) -> Seq<
    AlgorithmDefView,
> {
    let at = position(defs, def.name, 0);
    if 0 <= at < defs.len() {
        defs.update(at, def)
    } else {
        defs.push(def)
    }
}

/// The position of a name lies within the sequence or at its end; the
/// definition there has the name, and none before it has.
pub proof fn lemma_position(defs: Seq<AlgorithmDefView>, name: Seq<char>, i: int)
    requires
        0 <= i <= defs.len(),
    ensures
        i <= position(defs, name, i) <= defs.len(),
        position(defs, name, i) < defs.len() ==> defs[position(defs, name, i)].name == name,
        forall|j: int| i <= j < position(defs, name, i) ==> (#[trigger] defs[j]).name != name,
    decreases defs.len() - i,
{
    if i < defs.len() && defs[i].name != name {
        lemma_position(defs, name, i + 1);
    }
}

/// What the first `n` entries bind depends on those entries alone.
pub proof fn lemma_last_wins_prefix<V>(
    keys1: Seq<Seq<char>>,
    values1: Seq<V>,
    keys2: Seq<Seq<char>>,
    values2: Seq<V>,
    n: nat,
)
    requires
        n <= keys1.len(),
        n <= keys2.len(),
        n <= values1.len(),
        n <= values2.len(),
        forall|i: int| 0 <= i < n ==> (#[trigger] keys1[i]) == keys2[i],
        forall|i: int| 0 <= i < n ==> (#[trigger] values1[i]) == values2[i],
    ensures
        last_wins(keys1, values1, n) == last_wins(keys2, values2, n),
    decreases n,
{
    if n > 0 {
        lemma_last_wins_prefix(keys1, values1, keys2, values2, (n - 1) as nat);
    }
}

/// A later definition replaces an earlier one of the same name: the registry
/// of a sequence of definitions with one more behind them binds that
/// definition's name to it, and every other name as before.
pub proof fn law_redefinition_replaces(defs: Seq<AlgorithmDefView>, def: AlgorithmDefView)
    ensures
        registry(defs.push(def)) == registry(defs).insert(def.name, def),
        registry(defs.push(def))[def.name] == def,
{
    let longer = defs.push(def);
    lemma_last_wins_prefix(def_names(longer), longer, def_names(defs), defs, defs.len());
    assert(def_names(longer)[defs.len() as int] == def.name);
}

/// Among definitions with distinct names, the registry binds a name to the
/// one definition that has it.
pub proof fn lemma_registry_of_distinct(defs: Seq<AlgorithmDefView>, i: int)
    requires
        distinct_names(defs),
        0 <= i < defs.len(),
    ensures
        registry(defs).dom().contains(defs[i].name),
        registry(defs)[defs[i].name] == defs[i],
{
    let keys = def_names(defs);
    assert forall|j: int| i < j < defs.len() implies keys[j] != defs[i].name by {
        assert(defs[i].name != defs[j].name);
    }
    lemma_last_wins_found(keys, defs, defs.len(), defs[i].name, i);
}

/// Putting a definition among definitions with distinct names keeps the
/// names distinct, binds the definition's name to it and leaves every other
/// name as it was.
pub proof fn law_upsert(defs: Seq<AlgorithmDefView>, def: AlgorithmDefView)
    requires
        distinct_names(defs),
    ensures
        distinct_names(upsert_spec(defs, def)),
        registry(upsert_spec(defs, def)) == registry(defs).insert(def.name, def),
        registry(upsert_spec(defs, def))[def.name] == def,
        def_names(upsert_spec(defs, def)) == if registry(defs).dom().contains(def.name) {
            def_names(defs)
        } else {
            def_names(defs).push(def.name)
        },
{
    let at = position(defs, def.name, 0);
    let after = upsert_spec(defs, def);
    lemma_position(defs, def.name, 0);
    if at < defs.len() {
        lemma_registry_of_distinct(defs, at);
        assert(def_names(after) =~= def_names(defs));
        assert(distinct_names(after)) by {
            assert forall|i: int, j: int| 0 <= i < j < after.len() implies (#[trigger] after[i]).name
                != (#[trigger] after[j]).name by {
                assert(after[i].name == defs[i].name);
                assert(after[j].name == defs[j].name);
            }
        }
        let target = registry(defs).insert(def.name, def);
        assert forall|name: Seq<char>| #[trigger]
            registry(after).dom().contains(name) == target.dom().contains(name) by {
            lemma_registry_binds(defs, name);
            lemma_registry_binds(after, name);
            if exists|i: int| 0 <= i < defs.len() && (#[trigger] defs[i]).name == name {
                let i = choose|i: int| 0 <= i < defs.len() && (#[trigger] defs[i]).name == name;
                assert(after[i].name == name);
            } else if exists|i: int| 0 <= i < after.len() && (#[trigger] after[i]).name == name {
                let i = choose|i: int| 0 <= i < after.len() && (#[trigger] after[i]).name == name;
                assert(defs[i].name == name || i == at);
            }
        }
        assert forall|name: Seq<char>| #[trigger]
            registry(after).dom().contains(name) implies registry(after)[name] == target[name] by {
            lemma_registry_binds(after, name);
            let i = choose|i: int| 0 <= i < after.len() && (#[trigger] after[i]).name == name;
            lemma_registry_of_distinct(after, i);
            if i == at {
                assert(name == def.name);
            } else {
                assert(defs[i].name == name);
                assert(name != def.name) by {
                    if i < at {
                        assert(defs[i].name != defs[at].name);
                    } else {
                        assert(defs[at].name != defs[i].name);
                    }
                }
                lemma_registry_of_distinct(defs, i);
            }
        }
        assert(registry(after) =~= target);
    } else {
        law_redefinition_replaces(defs, def);
        lemma_last_wins_missing(def_names(defs), defs, defs.len(), def.name);
        assert(def_names(after) =~= def_names(defs).push(def.name));
        assert(distinct_names(after)) by {
            assert forall|i: int, j: int| 0 <= i < j < after.len() implies (#[trigger] after[i]).name
                != (#[trigger] after[j]).name by {
                if j < defs.len() {
                    assert(defs[i].name != defs[j].name);
                } else {
                    assert(defs[i].name != def.name);
                }
            }
        }
    }
}

/// The registry binds exactly the names that some definition has.
pub proof fn lemma_registry_binds(defs: Seq<AlgorithmDefView>, name: Seq<char>)
    ensures
        registry(defs).dom().contains(name) <==> exists|i: int|
            0 <= i < defs.len() && (#[trigger] defs[i]).name == name,
{
    let keys = def_names(defs);
    if exists|i: int| 0 <= i < defs.len() && (#[trigger] defs[i]).name == name {
        let last = position_from_end(defs, name, defs.len() as int);
        lemma_position_from_end(defs, name, defs.len() as int);
        assert forall|j: int| last < j < defs.len() implies keys[j] != name by {
            assert(defs[j].name != name);
        }
        lemma_last_wins_found(keys, defs, defs.len(), name, last);
    } else {
        assert forall|j: int| 0 <= j < defs.len() implies keys[j] != name by {
            assert(defs[j].name != name);
        }
        lemma_last_wins_missing(keys, defs, defs.len(), name);
    }
}

/// The position of the last definition named `name` before `n`, or -1.
pub open spec fn position_from_end(defs: Seq<AlgorithmDefView>, name: Seq<char>, n: int) -> int
    decreases n,
{
    if n <= 0 {
        -1
    } else if n <= defs.len() && defs[n - 1].name == name {
        n - 1
    } else {
        position_from_end(defs, name, n - 1)
    }
}

/// The last definition of a name before `n` has the name, and none between
/// it and `n` has.
pub proof fn lemma_position_from_end(defs: Seq<AlgorithmDefView>, name: Seq<char>, n: int)
    requires
        0 <= n <= defs.len(),
    ensures
        -1 <= position_from_end(defs, name, n) < n,
        position_from_end(defs, name, n) >= 0 ==> defs[position_from_end(defs, name, n)].name
            == name,
        forall|j: int|
            position_from_end(defs, name, n) < j < n ==> (#[trigger] defs[j]).name != name,
    decreases n,
{
    if n > 0 && defs[n - 1].name != name {
        lemma_position_from_end(defs, name, n - 1);
    }
}

/// The algorithms of a session, with a version that counts the changes made
/// to them.
pub struct Registry {
    defs: Vec<AlgorithmDef>,
    version: u64,
}

/// The version behind `version`: one more, up to the largest that can be
/// counted.
pub open spec fn next_version(version: nat) -> nat {
    if version < u64::MAX {
        version + 1
    } else {
        version
    }
}

impl Registry {
    /// The definitions, in the order in which their names were first
    /// defined.
    pub closed spec fn defs(&self) -> Seq<AlgorithmDefView> {
        defs_view(self.defs@)
    }

    /// The number of changes that were made to the registry: definitions
    /// and clearings.
    pub closed spec fn version(&self) -> nat {
        self.version as nat
    }

    /// No name is defined twice. Every registry that this module hands out
    /// is well formed.
    pub open spec fn wf(&self) -> bool {
        distinct_names(self.defs())
    }

    /// A registry without definitions: it binds no name, and no change was
    /// made to it yet.
    pub fn new() -> (r: Self)
        ensures
            r.wf(),
            r.defs() == Seq::<AlgorithmDefView>::empty(),
            r@ == Map::<Seq<char>, AlgorithmDefView>::empty(),
            r.version() == 0,
    {
        let r = Registry { defs: Vec::new(), version: 0 };
        assert(r.defs() =~= Seq::<AlgorithmDefView>::empty());
        assert(r@ =~= Map::<Seq<char>, AlgorithmDefView>::empty());
        r
    }

    /// Defines an algorithm: in the place of the definition of the same
    /// name where there is one, as a new one behind the others where there
    /// is none.
    pub fn upsert(&mut self, def: AlgorithmDef)
        requires
            old(self).wf(),
        ensures
            final(self).wf(),
            final(self).defs() == upsert_spec(old(self).defs(), def@),
            final(self)@ == old(self)@.insert(def.name@, def@),
            final(self).version() == next_version(old(self).version()),
    {
        proof {
            law_upsert(self.defs(), def@);
            lemma_position(self.defs(), def.name@, 0);
        }
        let ghost views = self.defs();
        let mut i: usize = 0;
        while i < self.defs.len() && !str_eq(self.defs[i].name.as_str(), def.name.as_str())
            invariant
                i <= self.defs@.len(),
                views == defs_view(self.defs@),
                position(views, def.name@, i as int) == position(views, def.name@, 0),
            decreases self.defs@.len() - i,
        {
            i += 1;
        }
        if i < self.defs.len() {
            self.defs.set(i, def);
        } else {
            self.defs.push(def);
        }
        self.bump_version();
        assert(defs_view(self.defs@) =~= upsert_spec(views, def@));
    }

    /// Counts one change.
    fn bump_version(&mut self)
        ensures
            final(self).defs() == old(self).defs(),
            final(self)@ == old(self)@,
            final(self).version() == next_version(old(self).version()),
    {
        if self.version < u64::MAX {
            self.version += 1;
        }
    }

    /// The number of changes that were made to the registry.
    pub fn current_version(&self) -> (v: u64)
        ensures
            v == self.version(),
    {
        self.version
    }

    /// Forgets every definition: the registry binds no name any more.
    pub fn clear(&mut self)
        ensures
            final(self).wf(),
            final(self).defs() == Seq::<AlgorithmDefView>::empty(),
            final(self)@ == Map::<Seq<char>, AlgorithmDefView>::empty(),
            final(self).version() == next_version(old(self).version()),
    {
        self.defs = Vec::new();
        self.bump_version();
        assert(defs_view(self.defs@) =~= Seq::<AlgorithmDefView>::empty());
        assert(self@ =~= Map::<Seq<char>, AlgorithmDefView>::empty());
    }

    /// The names that are defined, in the order in which they were first
    /// defined.
    pub fn list(&self) -> (names: Vec<String>)
        ensures
            names_view(names@) == def_names(self.defs()),
    {
        let mut names: Vec<String> = Vec::new();
        let mut i: usize = 0;
        while i < self.defs.len()
            invariant
                i <= self.defs@.len(),
                names@.len() == i,
                forall|j: int| 0 <= j < i ==> (#[trigger] names@[j])@ == self.defs@[j].name@,
            decreases self.defs@.len() - i,
        {
            names.push(self.defs[i].name.clone());
            i += 1;
        }
        assert(names_view(names@) =~= def_names(self.defs()));
        names
    }

    /// The definitions, in the order in which their names were first
    /// defined.
    pub fn definitions(&self) -> (defs: &[AlgorithmDef])
        ensures
            defs_view(defs@) == self.defs(),
    {
        self.defs.as_slice()
    }

    /// The number of definitions.
    pub fn len(&self) -> (n: usize)
        ensures
            n == self.defs().len(),
    {
        self.defs.len()
    }

    /// The registry as an evaluation reads it.
    pub fn world(&self) -> (w: World<'_>)
        ensures
            w@ == self@,
            w@ == registry(self.defs()),
    {
        World::new(self.defs.as_slice())
    }
}

impl View for Registry {
    type V = Map<Seq<char>, AlgorithmDefView>;

    closed spec fn view(&self) -> Map<Seq<char>, AlgorithmDefView> {
        registry(defs_view(self.defs@))
    }
}

} // verus!
