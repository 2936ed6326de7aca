//! The namespaces that a type declares: a finite map from an optional
//! prefix to a URI.

use vstd::prelude::*;
use crate::text::{same_text, text_of};

verus! {

/// One declared namespace.
#[derive(Debug, Clone)]
pub struct NamespaceBinding {
    pub prefix: Option<String>,
    pub uri: String,
}

/// The declared namespaces, each prefix bound once. The namespace without a
/// prefix is the default namespace.
#[derive(Debug, Clone)]
pub struct NamespaceTable {
    bindings: Vec<NamespaceBinding>,
}

/// Whether `prefix` is bound in `bindings[index]`.
pub open spec fn binds(bindings: Seq<NamespaceBinding>, index: int, prefix: Option<Seq<char>>) -> bool {
    0 <= index < bindings.len() && text_of(bindings[index].prefix) == prefix
}

/// No prefix is bound twice in `bindings`.
pub open spec fn bound_once(bindings: Seq<NamespaceBinding>) -> bool {
    forall|i: int, j: int|
        0 <= i < bindings.len() && 0 <= j < bindings.len() && text_of(#[trigger] bindings[i].prefix) == text_of(
            #[trigger] bindings[j].prefix,
        ) ==> i == j
}

/// The first place where `prefix` is bound in `bindings`.
pub open spec fn first_binding(bindings: Seq<NamespaceBinding>, prefix: Option<Seq<char>>) -> Option<int> {
    if exists|index: int| binds(bindings, index, prefix) {
        Some(
            choose|index: int|
                binds(bindings, index, prefix) && forall|before: int|
                    !(before < index && binds(bindings, before, prefix)),
        )
    } else {
        None
    }
}

/// Whether the prefix of `ours[at]` is bound to the same URI where `theirs`
/// binds it first.
pub open spec fn agree_at(ours: Seq<NamespaceBinding>, theirs: Seq<NamespaceBinding>, at: int) -> bool {
    first_binding(theirs, text_of(ours[at].prefix)) matches Some(found) && theirs[found].uri@ == ours[at].uri@
}

/// Whether `ours` and `theirs` have as many bindings, and each prefix of
/// `ours` is bound to the same URI where `theirs` binds it first.
pub open spec fn agree(ours: Seq<NamespaceBinding>, theirs: Seq<NamespaceBinding>) -> bool {
    ours.len() == theirs.len() && forall|at: int| 0 <= at < ours.len() ==> #[trigger] agree_at(ours, theirs, at)
}

/// The map that `bindings` stands for.
pub open spec fn bindings_map(bindings: Seq<NamespaceBinding>) -> Map<Option<Seq<char>>, Seq<char>> {
    Map::new(
        |prefix: Option<Seq<char>>| exists|index: int| binds(bindings, index, prefix),
        |prefix: Option<Seq<char>>| bindings[choose|index: int| binds(bindings, index, prefix)].uri@,
    )
}

impl View for NamespaceTable {
    type V = Map<Option<Seq<char>>, Seq<char>>;

    closed spec fn view(&self) -> Map<Option<Seq<char>>, Seq<char>> {
        bindings_map(self.bindings@)
    }
}

impl NamespaceTable {
    /// The invariant of a table: no prefix is bound twice.
    pub closed spec fn wf(&self) -> bool {
        bound_once(self.bindings@)
    }

    /// A table without bindings.
    pub fn new() -> (table: Self)
        ensures
            table.wf(),
            table@ == Map::<Option<Seq<char>>, Seq<char>>::empty(),
    {
        let table = NamespaceTable { bindings: Vec::new() };
        proof {
            assert(table@ =~= Map::<Option<Seq<char>>, Seq<char>>::empty());
        }
        table
    }

    /// The first place where `prefix` is bound, if it is bound.
    fn position(&self, prefix: &Option<String>) -> (found: Option<usize>)
        ensures
            match found {
                Some(index) => first_binding(self.bindings@, text_of(*prefix)) == Some(index as int),
                None => first_binding(self.bindings@, text_of(*prefix)) is None,
            },
    {
        let mut index: usize = 0;
        while index < self.bindings.len()
            invariant
                index <= self.bindings.len(),
                forall|before: int| 0 <= before < index ==> !binds(self.bindings@, before, text_of(*prefix)),
            decreases self.bindings.len() - index,
        {
            if same_text(&self.bindings[index].prefix, prefix) {
                proof {
                    lemma_first_binding_at(self.bindings@, text_of(*prefix), index as int);
                }
                return Some(index);
            }
            index += 1;
        }
        proof {
            lemma_first_binding(self.bindings@, text_of(*prefix));
        }
        None
    }

    /// The number of bound prefixes.
    pub fn len(&self) -> (count: usize)
        requires
            self.wf(),
        ensures
            count == self@.dom().len(),
            self@.dom().finite(),
    {
        proof {
            lemma_bindings_domain(self.bindings@);
        }
        self.bindings.len()
    }

    /// The URI that `prefix` is bound to.
    pub fn get(&self, prefix: &Option<String>) -> (uri: Option<&String>)
        requires
            self.wf(),
        ensures
            match uri {
                Some(bound) => self@.contains_key(text_of(*prefix)) && self@[text_of(*prefix)] == bound@,
                None => !self@.contains_key(text_of(*prefix)),
            },
    {
        proof {
            lemma_first_binding(self.bindings@, text_of(*prefix));
        }
        match self.position(prefix) {
            Some(index) => {
                proof {
                    lemma_bindings_lookup(self.bindings@, index as int);
                }
                Some(&self.bindings[index].uri)
            },
            None => None,
        }
    }

    /// What `==` computes: the two tables have as many bindings, and each
    /// prefix of the first is bound to the same URI where the second binds
    /// it first.
    pub closed spec fn agrees_with(&self, other: &NamespaceTable) -> bool {
        agree(self.bindings@, other.bindings@)
    }

    /// For tables that bind no prefix twice, `==` holds exactly where the
    /// two stand for the same map.
    pub proof fn lemma_eq(&self, other: &NamespaceTable)
        requires
            self.wf(),
            other.wf(),
        ensures
            self.agrees_with(other) <==> self@ == other@,
    {
        let ours = self.bindings@;
        let theirs = other.bindings@;
        lemma_bindings_domain(ours);
        lemma_bindings_domain(theirs);
        if agree(ours, theirs) {
            assert forall|prefix: Option<Seq<char>>| #[trigger]
                self@.dom().contains(prefix) implies other@.dom().contains(prefix) && other@[prefix] == self@[prefix] by {
                let at = choose|at: int| binds(ours, at, prefix);
                lemma_bindings_lookup(ours, at);
                lemma_first_binding(theirs, prefix);
                assert(agree_at(ours, theirs, at));
                let found = first_binding(theirs, prefix)->0;
                lemma_bindings_lookup(theirs, found);
            }
            assert(self@.dom().subset_of(other@.dom()));
            vstd::set_lib::lemma_subset_equality(self@.dom(), other@.dom());
            assert(self@ =~= other@);
        }
        if self@ == other@ {
            assert forall|at: int| 0 <= at < ours.len() implies agree_at(ours, theirs, at) by {
                let prefix = text_of(ours[at].prefix);
                lemma_bindings_lookup(ours, at);
                lemma_first_binding(theirs, prefix);
                assert(other@.contains_key(prefix));
                let chosen = choose|index: int| binds(theirs, index, prefix);
                assert(binds(theirs, chosen, prefix));
                let found = first_binding(theirs, prefix)->0;
                lemma_bindings_lookup(theirs, found);
            }
        }
    }

    /// Binds `prefix` to `uri`, in place of what it was bound to.
    pub fn insert(&mut self, prefix: Option<String>, uri: String)
        requires
            old(self).wf(),
        ensures
            final(self).wf(),
            final(self)@ == old(self)@.insert(text_of(prefix), uri@),
    {
        let ghost before = self.bindings@;
        proof {
            lemma_first_binding(before, text_of(prefix));
        }
        match self.position(&prefix) {
            Some(index) => {
                self.bindings.set(index, NamespaceBinding { prefix, uri });
                proof {
                    let after = self.bindings@;
                    assert forall|i: int| 0 <= i < after.len() implies text_of(#[trigger] after[i].prefix) == text_of(
                        before[i].prefix,
                    ) by {}
                    lemma_bindings_replace(before, after, index as int);
                }
            },
            None => {
                self.bindings.push(NamespaceBinding { prefix, uri });
                proof {
                    lemma_bindings_push(before, self.bindings@);
                }
            },
        }
    }
}

impl PartialEq for NamespaceTable {
    fn eq(&self, other: &NamespaceTable) -> (same: bool) {
        if self.bindings.len() != other.bindings.len() {
            return false;
        }
        let mut index: usize = 0;
        while index < self.bindings.len()
            invariant
                index <= self.bindings.len(),
                self.bindings.len() == other.bindings.len(),
                forall|before: int| 0 <= before < index ==> #[trigger] agree_at(self.bindings@, other.bindings@, before),
            decreases self.bindings.len() - index,
        {
            let binding = &self.bindings[index];
            proof {
                lemma_first_binding(other.bindings@, text_of(binding.prefix));
            }
            match other.position(&binding.prefix) {
                Some(found) => {
                    if other.bindings[found].uri != binding.uri {
                        assert(!agree_at(self.bindings@, other.bindings@, index as int));
                        return false;
                    }
                },
                None => {
                    assert(!agree_at(self.bindings@, other.bindings@, index as int));
                    return false;
                },
            }
            index += 1;
        }
        true
    }
}

impl vstd::std_specs::cmp::PartialEqSpecImpl for NamespaceTable {
    open spec fn obeys_eq_spec() -> bool {
        true
    }

    open spec fn eq_spec(&self, other: &NamespaceTable) -> bool {
        self.agrees_with(other)
    }
}

/// The first place where a prefix is bound is a place where it is bound,
/// with none before it; and there is none only where the prefix is not
/// bound.
pub proof fn lemma_first_binding(bindings: Seq<NamespaceBinding>, prefix: Option<Seq<char>>)
    ensures
        match first_binding(bindings, prefix) {
            Some(index) => binds(bindings, index, prefix) && forall|before: int|
                before < index ==> !binds(bindings, before, prefix),
            None => forall|index: int| !binds(bindings, index, prefix),
        },
{
    if exists|index: int| binds(bindings, index, prefix) {
        let any = choose|index: int| binds(bindings, index, prefix);
        lemma_least_binding(bindings, prefix, any);
    }
}

/// A place where a prefix is bound, with none before it, is the first place
/// where it is bound.
pub proof fn lemma_first_binding_at(bindings: Seq<NamespaceBinding>, prefix: Option<Seq<char>>, index: int)
    requires
        binds(bindings, index, prefix),
        forall|before: int| 0 <= before < index ==> !binds(bindings, before, prefix),
    ensures
        first_binding(bindings, prefix) == Some(index),
{
    lemma_first_binding(bindings, prefix);
    let first = first_binding(bindings, prefix)->0;
    if first < index {
        assert(binds(bindings, first, prefix));
    }
    if index < first {
        assert(!binds(bindings, index, prefix));
    }
}

/// Where a prefix is bound at `index`, there is a first place where it is
/// bound.
proof fn lemma_least_binding(bindings: Seq<NamespaceBinding>, prefix: Option<Seq<char>>, index: int)
    requires
        binds(bindings, index, prefix),
    ensures
        exists|least: int|
            binds(bindings, least, prefix) && forall|before: int| !(before < least && binds(bindings, before, prefix)),
    decreases index,
{
    if exists|before: int| before < index && binds(bindings, before, prefix) {
        let before = choose|before: int| before < index && binds(bindings, before, prefix);
        lemma_least_binding(bindings, prefix, before);
    } else {
        assert(binds(bindings, index, prefix) && forall|before: int|
            !(before < index && binds(bindings, before, prefix)));
    }
}

/// In a table that binds no prefix twice, each binding is found under its
/// own prefix.
pub proof fn lemma_bindings_lookup(bindings: Seq<NamespaceBinding>, index: int)
    requires
        bound_once(bindings),
        0 <= index < bindings.len(),
    ensures
        bindings_map(bindings).contains_key(text_of(bindings[index].prefix)),
        bindings_map(bindings)[text_of(bindings[index].prefix)] == bindings[index].uri@,
{
    let prefix = text_of(bindings[index].prefix);
    assert(binds(bindings, index, prefix));
    let chosen = choose|at: int| binds(bindings, at, prefix);
    assert(chosen == index);
}

/// Replacing a binding by one of the same prefix rebinds that prefix.
pub proof fn lemma_bindings_replace(before: Seq<NamespaceBinding>, after: Seq<NamespaceBinding>, index: int)
    requires
        bound_once(before),
        0 <= index < before.len(),
        after.len() == before.len(),
        text_of(after[index].prefix) == text_of(before[index].prefix),
        forall|i: int| 0 <= i < before.len() && i != index ==> after[i] == before[i],
    ensures
        bound_once(after),
        bindings_map(after) =~= bindings_map(before).insert(text_of(after[index].prefix), after[index].uri@),
{
    assert forall|i: int| 0 <= i < after.len() implies text_of(#[trigger] after[i].prefix) == text_of(
        before[i].prefix,
    ) by {}
    let key = text_of(after[index].prefix);
    let target = bindings_map(before).insert(key, after[index].uri@);
    assert forall|prefix: Option<Seq<char>>| bindings_map(after).contains_key(prefix) <==> target.contains_key(
        prefix,
    ) by {
        if bindings_map(after).contains_key(prefix) {
            let at = choose|at: int| binds(after, at, prefix);
            assert(binds(before, at, prefix));
        }
        if bindings_map(before).contains_key(prefix) {
            let at = choose|at: int| binds(before, at, prefix);
            assert(binds(after, at, prefix));
        }
        if prefix == key {
            assert(binds(after, index, prefix));
        }
    }
    assert forall|prefix: Option<Seq<char>>| bindings_map(after).contains_key(prefix) implies bindings_map(
        after,
    )[prefix] == target[prefix] by {
        let at = choose|at: int| binds(after, at, prefix);
        lemma_bindings_lookup(after, at);
        if at != index {
            assert(binds(before, at, prefix));
            lemma_bindings_lookup(before, at);
        }
    }
}

/// Adding a binding of a prefix that is not bound yet binds it.
pub proof fn lemma_bindings_push(before: Seq<NamespaceBinding>, after: Seq<NamespaceBinding>)
    requires
        bound_once(before),
        after.len() == before.len() + 1,
        forall|i: int| 0 <= i < before.len() ==> after[i] == before[i],
        forall|i: int| !binds(before, i, text_of(after.last().prefix)),
    ensures
        bound_once(after),
        bindings_map(after) =~= bindings_map(before).insert(text_of(after.last().prefix), after.last().uri@),
{
    let last = before.len() as int;
    let key = text_of(after[last].prefix);
    assert forall|i: int, j: int|
        0 <= i < after.len() && 0 <= j < after.len() && text_of(#[trigger] after[i].prefix) == text_of(
            #[trigger] after[j].prefix,
        ) implies i == j by {
        if i < last && j == last {
            assert(binds(before, i, key));
        }
        if j < last && i == last {
            assert(binds(before, j, key));
        }
    }
    let target = bindings_map(before).insert(key, after[last].uri@);
    assert forall|prefix: Option<Seq<char>>| bindings_map(after).contains_key(prefix) <==> target.contains_key(
        prefix,
    ) by {
        if bindings_map(after).contains_key(prefix) {
            let at = choose|at: int| binds(after, at, prefix);
            if at < last {
                assert(binds(before, at, prefix));
            }
        }
        if bindings_map(before).contains_key(prefix) {
            let at = choose|at: int| binds(before, at, prefix);
            assert(binds(after, at, prefix));
        }
        if prefix == key {
            assert(binds(after, last, prefix));
        }
    }
    assert forall|prefix: Option<Seq<char>>| bindings_map(after).contains_key(prefix) implies bindings_map(
        after,
    )[prefix] == target[prefix] by {
        let at = choose|at: int| binds(after, at, prefix);
        lemma_bindings_lookup(after, at);
        if at < last {
            assert(binds(before, at, prefix));
            lemma_bindings_lookup(before, at);
        }
    }
}

/// A table that binds no prefix twice binds as many prefixes as it has
/// bindings.
pub proof fn lemma_bindings_domain(bindings: Seq<NamespaceBinding>)
    requires
        bound_once(bindings),
    ensures
        bindings_map(bindings).dom().finite(),
        bindings_map(bindings).dom().len() == bindings.len(),
    decreases bindings.len(),
{
    if bindings.len() == 0 {
        assert(bindings_map(bindings).dom() =~= Set::<Option<Seq<char>>>::empty());
    } else {
        let before = bindings.drop_last();
        assert forall|i: int, j: int|
            0 <= i < before.len() && 0 <= j < before.len() && text_of(#[trigger] before[i].prefix) == text_of(
                #[trigger] before[j].prefix,
            ) implies i == j by {
            assert(before[i] == bindings[i]);
            assert(before[j] == bindings[j]);
        }
        lemma_bindings_domain(before);
        assert forall|i: int| !binds(before, i, text_of(bindings.last().prefix)) by {
            if binds(before, i, text_of(bindings.last().prefix)) {
                assert(before[i] == bindings[i]);
            }
        }
        lemma_bindings_push(before, bindings);
        let key = text_of(bindings.last().prefix);
        assert(!bindings_map(before).dom().contains(key)) by {
            if bindings_map(before).dom().contains(key) {
                let at = choose|at: int| binds(before, at, key);
                assert(binds(before, at, key));
            }
        }
        assert(bindings_map(bindings).dom() =~= bindings_map(before).dom().insert(key));
    }
}

} // verus!
