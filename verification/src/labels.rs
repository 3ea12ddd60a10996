//! Label sets: mappings from label keys to label values, and the membership
//! test that decides which instances belong to the managed fleet.

use vstd::prelude::*;

verus! {

/// One label: a key and the value that the key carries.
#[derive(Debug)]
pub struct Label {
    pub key: String,
    pub value: String,
}

impl Clone for Label {
    fn clone(&self) -> (copy: Self)
        ensures
            copy == *self,
    {
        Label { key: self.key.clone(), value: self.value.clone() }
    }
}

/// A finite mapping from label keys to label values. No key is held twice.
#[derive(Debug)]
pub struct LabelSet {
    entries: Vec<Label>,
}

/// Whether the label at `i` carries the key `key`.
pub open spec fn has_key_at(entries: Seq<Label>, key: Seq<char>, i: int) -> bool {
    0 <= i < entries.len() && entries[i].key@ == key
}

/// Whether no two labels of `entries` carry the same key.
pub open spec fn keys_distinct(entries: Seq<Label>) -> bool {
    forall|i: int, j: int|
        0 <= i < j < entries.len() ==> (#[trigger] entries[i]).key@ != (#[trigger] entries[j]).key@
}

/// The mapping that a sequence of labels stands for.
pub open spec fn mapping_of(entries: Seq<Label>) -> Map<Seq<char>, Seq<char>> {
    Map::new(
        |key: Seq<char>| exists|i: int| has_key_at(entries, key, i),
        |key: Seq<char>| entries[choose|i: int| has_key_at(entries, key, i)].value@,
    )
}

/// Whether an instance with the labels `instance` belongs to the fleet that
/// `required` defines: every required key is present with the required value.
/// Labels beyond the required ones do not matter.
pub open spec fn is_member(
    instance: Map<Seq<char>, Seq<char>>,
    required: Map<Seq<char>, Seq<char>>,
) -> bool {
    forall|key: Seq<char>| #[trigger]
        required.contains_key(key) ==> instance.contains_key(key) && instance[key] == required[key]
}

/// Labels beyond the required ones never cost an instance its membership: an
/// instance that belongs to the fleet still belongs to it when it is given
/// one more label under a key that the requirement does not hold.
pub proof fn lemma_unrelated_label_keeps_membership(
    instance: Map<Seq<char>, Seq<char>>,
    required: Map<Seq<char>, Seq<char>>,
    key: Seq<char>,
    value: Seq<char>,
)
    requires
        is_member(instance, required),
        !required.contains_key(key),
    ensures
        is_member(instance.insert(key, value), required),
{
}

/// The requirement without labels admits every instance.
pub proof fn lemma_empty_requirement_admits_all(instance: Map<Seq<char>, Seq<char>>)
    ensures
        is_member(instance, Map::<Seq<char>, Seq<char>>::empty()),
{
}

/// With distinct keys, the mapping holds each label's key with that label's
/// value, and no other key.
pub proof fn lemma_mapping_of(entries: Seq<Label>)
    requires
        keys_distinct(entries),
    ensures
        forall|key: Seq<char>, i: int| #[trigger]
            has_key_at(entries, key, i) ==> mapping_of(entries).contains_key(key) && mapping_of(
                entries,
            )[key] == entries[i].value@,
        forall|key: Seq<char>| #[trigger]
            mapping_of(entries).contains_key(key) ==> exists|i: int| has_key_at(entries, key, i),
{
    assert forall|key: Seq<char>, i: int| #[trigger] has_key_at(entries, key, i) implies mapping_of(
        entries,
    ).contains_key(key) && mapping_of(entries)[key] == entries[i].value@ by {
        let chosen = choose|j: int| has_key_at(entries, key, j);
        assert(chosen == i);
    }
}

impl View for LabelSet {
    type V = Map<Seq<char>, Seq<char>>;

    closed spec fn view(&self) -> Map<Seq<char>, Seq<char>> {
        mapping_of(self.entries@)
    }
}

impl LabelSet {
    #[verifier::type_invariant]
    spec fn well_formed(self) -> bool {
        keys_distinct(self.entries@)
    }

    /// The label set without labels.
    pub fn new() -> (labels: Self)
        ensures
            labels@ == Map::<Seq<char>, Seq<char>>::empty(),
    {
        LabelSet { entries: Vec::new() }
    }

    /// The position of the label with the key `key`, if there is one.
    fn position(&self, key: &String) -> (found: Option<usize>)
        ensures
            match found {
                Some(i) => has_key_at(self.entries@, key@, i as int),
                None => forall|i: int| !has_key_at(self.entries@, key@, i),
            },
    {
        let mut i: usize = 0;
        while i < self.entries.len()
            invariant
                i <= self.entries.len(),
                forall|j: int| 0 <= j < i ==> !has_key_at(self.entries@, key@, j),
            decreases self.entries.len() - i,
        {
            if self.entries[i].key == *key {
                return Some(i);
            }
            i += 1;
        }
        None
    }

    /// The value that `key` carries, if the set holds the key.
    pub fn get(&self, key: &str) -> (value: Option<&String>)
        ensures
            match value {
                Some(v) => self@.contains_key(key@) && self@[key@] == v@,
                None => !self@.contains_key(key@),
            },
    {
        proof {
            use_type_invariant(self);
        }
        let wanted = key.to_owned();
        match self.position(&wanted) {
            Some(i) => Some(&self.entries[i].value),
            None => None,
        }
    }

    /// Gives `key` the value `value`, whether or not the set held the key.
    pub fn insert(&mut self, key: String, value: String)
        ensures
            final(self)@ == old(self)@.insert(key@, value@),
    {
        proof {
            use_type_invariant(&*self);
        }
        let found = self.position(&key);
        let mut entries: Vec<Label> = Vec::new();
        core::mem::swap(&mut self.entries, &mut entries);
        let ghost before = entries@;
        match found {
            Some(i) => {
                entries[i].value = value;
            },
            None => {
                entries.push(Label { key, value });
            },
        }
        proof {
            let after = entries@;
            let updated = mapping_of(before).insert(key@, value@);
            assert forall|a: int, b: int| 0 <= a < b < after.len() implies (#[trigger] after[a]).key@
                != (#[trigger] after[b]).key@ by {
                if b >= before.len() {
                    assert(!has_key_at(before, key@, a));
                }
            }
            lemma_mapping_of(before);
            lemma_mapping_of(after);
            assert forall|k: Seq<char>| #[trigger]
                mapping_of(after).dom().contains(k) implies updated.dom().contains(k) by {
                let i = choose|i: int| has_key_at(after, k, i);
                if k != key@ {
                    assert(has_key_at(before, k, i));
                }
            }
            assert forall|k: Seq<char>| #[trigger] updated.dom().contains(k) implies mapping_of(
                after,
            ).dom().contains(k) && mapping_of(after)[k] == updated[k] by {
                if k == key@ {
                    match found {
                        Some(i) => {
                            assert(has_key_at(after, k, i as int));
                        },
                        None => {
                            assert(has_key_at(after, k, before.len() as int));
                        },
                    }
                } else {
                    let i = choose|i: int| has_key_at(before, k, i);
                    assert(has_key_at(after, k, i));
                }
            }
        }
        core::mem::swap(&mut self.entries, &mut entries);
    }

    /// The labels one by one, each key once.
    pub fn pairs(&self) -> (out: &Vec<Label>)
        ensures
            keys_distinct(out@),
            mapping_of(out@) == self@,
    {
        proof {
            use_type_invariant(self);
        }
        &self.entries
    }
}

impl Clone for LabelSet {
    fn clone(&self) -> (copy: Self)
        ensures
            copy@ == self@,
    {
        proof {
            use_type_invariant(self);
        }
        let entries = self.entries.clone();
        LabelSet { entries }
    }
}

/// Tests whether an instance with the labels `instance` belongs to the fleet
/// that the labels `required` define.
pub fn labels_match(instance: &LabelSet, required: &LabelSet) -> (member: bool)
    ensures
        member == is_member(instance@, required@),
{
    let wanted = required.pairs();
    let mut i: usize = 0;
    while i < wanted.len()
        invariant
            i <= wanted.len(),
            keys_distinct(wanted@),
            mapping_of(wanted@) == required@,
            forall|j: int|
                0 <= j < i ==> instance@.contains_key(#[trigger] wanted@[j].key@) && instance@[wanted@[j].key@]
                    == wanted@[j].value@,
        decreases wanted.len() - i,
    {
        proof {
            lemma_mapping_of(wanted@);
            assert(has_key_at(wanted@, wanted@[i as int].key@, i as int));
        }
        match instance.get(wanted[i].key.as_str()) {
            Some(value) => {
                if *value != wanted[i].value {
                    return false;
                }
            },
            None => {
                return false;
            },
        }
        i += 1;
    }
    proof {
        lemma_mapping_of(wanted@);
        assert forall|key: Seq<char>| #[trigger] required@.contains_key(key) implies instance@.contains_key(
            key,
        ) && instance@[key] == required@[key] by {
            let j = choose|j: int| has_key_at(wanted@, key, j);
        }
    }
    true
}

} // verus!
