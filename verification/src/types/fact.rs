//! Facts — assertions about entities, with provenance.

use vstd::prelude::*;
use vstd::string::*;
use crate::provenance::Provenance;
use crate::text::{chars_of, decimal, push_decimal};
use crate::types::entity_ref::EntityRef;

verus! {

/// Identifies a single fact: at most one value per `(entity,
/// attribute)` at a time. The attribute is slash-namespaced; the part
/// before the first `/` is the fact family.
#[derive(Debug, PartialEq, Eq, Hash)]
pub struct FactKey {
    pub entity: EntityRef,
    pub attribute: String,
}

/// The text of `s` up to (not including) its first `/`; all of `s`
/// when it has none.
pub open spec fn family_prefix(s: Seq<char>) -> Seq<char>
    decreases s.len(),
{
    if s.len() == 0 {
        s
    } else if s[0] == '/' {
        Seq::empty()
    } else {
        seq![s[0]] + family_prefix(s.drop_first())
    }
}

/// `k` is the index of the first `/` in `s` (or `s.len()` if none).
pub open spec fn first_slash_at(s: Seq<char>, k: int) -> bool {
    &&& 0 <= k <= s.len()
    &&& forall|j: int| 0 <= j < k ==> s[j] != '/'
    &&& k < s.len() ==> s[k] == '/'
}

/// The family prefix ends at the first slash.
pub proof fn lemma_family_prefix(s: Seq<char>, k: int)
    requires
        first_slash_at(s, k),
    ensures
        family_prefix(s) == s.subrange(0, k),
    decreases s.len(),
{
    if s.len() == 0 {
        assert(s.subrange(0, 0) =~= s);
    } else if s[0] == '/' {
        assert(s.subrange(0, 0) =~= Seq::<char>::empty());
    } else {
        let t = s.drop_first();
        assert(first_slash_at(t, k - 1)) by {
            assert forall|j: int| 0 <= j < k - 1 implies t[j] != '/' by {
                assert(t[j] == s[j + 1]);
            }
        }
        lemma_family_prefix(t, k - 1);
        assert(seq![s[0]] + t.subrange(0, k - 1) =~= s.subrange(0, k));
    }
}

/// Same entity and same attribute text.
pub open spec fn same_key(a: FactKey, b: FactKey) -> bool {
    a.entity == b.entity && a.attribute@ == b.attribute@
}

/// `(EntityRef(<n>), <attribute>)`.
pub open spec fn spec_fact_key_display(k: FactKey) -> Seq<char> {
    "(EntityRef("@ + decimal(k.entity.0 as nat) + "), "@ + k.attribute@ + ")"@
}

impl Clone for FactKey {
    fn clone(&self) -> (r: Self)
        ensures
            r == *self,
    {
        FactKey { entity: self.entity, attribute: self.attribute.clone() }
    }
}

impl FactKey {
    pub fn new(entity: EntityRef, attribute: &str) -> (r: Self)
        ensures
            r.entity == entity,
            r.attribute@ == attribute@,
    {
        FactKey { entity, attribute: attribute.to_owned() }
    }

    /// The fact-family namespace: the attribute up to its first `/`, or
    /// the whole attribute when it has none.
    pub fn family(&self) -> (r: &str)
        ensures
            r@ == family_prefix(self.attribute@),
    {
        let cs = chars_of(self.attribute.as_str());
        let mut k: usize = 0;
        while k < cs.len() && cs[k] != '/'
            invariant
                cs@ == self.attribute@,
                k <= cs@.len(),
                forall|j: int| 0 <= j < k ==> cs@[j] != '/',
            decreases cs@.len() - k,
        {
            k = k + 1;
        }
        proof {
            lemma_family_prefix(self.attribute@, k as int);
        }
        self.attribute.as_str().substring_char(0, k)
    }

    /// Human-readable rendering, `(EntityRef(<n>), <attribute>)`.
    pub fn to_display_string(&self) -> (s: String)
        ensures
            s@ == spec_fact_key_display(*self),
    {
        let mut s = String::from_str("(EntityRef(");
        push_decimal(&mut s, self.entity.0);
        s.append("), ");
        s.append(self.attribute.as_str());
        s.append(")");
        s
    }

    /// Whether two keys name the same fact.
    pub fn same_as(&self, other: &FactKey) -> (r: bool)
        ensures
            r == same_key(*self, *other),
    {
        self.entity.0 == other.entity.0 && self.attribute == other.attribute
    }
}

/// The value side of a fact.
#[derive(Debug, PartialEq, Eq)]
pub enum FactValue {
    Bool(bool),
    String(String),
    Int(i64),
    U64(u64),
    Null,
}

impl Clone for FactValue {
    fn clone(&self) -> (r: Self)
        ensures
            r == *self,
    {
        match self {
            FactValue::Bool(b) => FactValue::Bool(*b),
            FactValue::String(s) => FactValue::String(s.clone()),
            FactValue::Int(i) => FactValue::Int(*i),
            FactValue::U64(u) => FactValue::U64(*u),
            FactValue::Null => FactValue::Null,
        }
    }
}

/// A fact asserted on an entity, with provenance.
#[derive(Debug, PartialEq, Eq)]
pub struct Fact {
    pub key: FactKey,
    pub value: FactValue,
    pub provenance: Provenance,
}

impl Clone for Fact {
    fn clone(&self) -> (r: Self)
        ensures
            r == *self,
    {
        Fact { key: self.key.clone(), value: self.value.clone(), provenance: self.provenance.clone() }
    }
}

} // verus!
