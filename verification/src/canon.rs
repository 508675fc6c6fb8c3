//! The vertex canonicalizer's lookup table: a hash map from resolved
//! corner keys to compact output vertex indices. The three key fields
//! are packed injectively into one 128-bit table key.

use vstd::prelude::*;

use std::collections::HashMap;

use crate::face::ObjVertexAbsolute;

verus! {

broadcast use vstd::std_specs::hash::group_hash_axioms;

/// The packing base: one more than the number of distinct optional-index
/// codes, so that each packed digit stays below it.
pub const KEY_BASE: u128 = 0x1_0000_0001;

/// The code of an optional index: 0 for absent, the index plus one
/// for present.
pub open spec fn spec_opt_code(o: Option<u32>) -> int {
    match o {
        None => 0,
        Some(v) => v + 1,
    }
}

/// The packed table key of a resolved corner key.
pub open spec fn spec_encode_key(k: ObjVertexAbsolute) -> int {
    k.position_index + (KEY_BASE as int) * (spec_opt_code(k.texcoord_index) + (KEY_BASE as int)
        * spec_opt_code(k.normal_index))
}

/// Packing is injective: equal packed keys come from equal corner keys.
pub proof fn lemma_encode_injective(k1: ObjVertexAbsolute, k2: ObjVertexAbsolute)
    requires
        spec_encode_key(k1) == spec_encode_key(k2),
    ensures
        k1 == k2,
{
    let b = KEY_BASE as int;
    let p1 = k1.position_index as int;
    let p2 = k2.position_index as int;
    let r1 = spec_opt_code(k1.texcoord_index) + b * spec_opt_code(k1.normal_index);
    let r2 = spec_opt_code(k2.texcoord_index) + b * spec_opt_code(k2.normal_index);
    assert(0 <= p1 < b && 0 <= p2 < b);
    assert(0 <= spec_opt_code(k1.texcoord_index) < b);
    assert(0 <= spec_opt_code(k2.texcoord_index) < b);
    assert(p1 + b * r1 == p2 + b * r2);
    if r1 < r2 {
        assert(b * r1 + b <= b * r2);
        assert(false);
    }
    if r2 < r1 {
        assert(b * r2 + b <= b * r1);
        assert(false);
    }
    assert(r1 == r2 && p1 == p2);
    let t1 = spec_opt_code(k1.texcoord_index);
    let t2 = spec_opt_code(k2.texcoord_index);
    let m1 = spec_opt_code(k1.normal_index);
    let m2 = spec_opt_code(k2.normal_index);
    if m1 < m2 {
        assert(b * m1 + b <= b * m2);
        assert(false);
    }
    if m2 < m1 {
        assert(b * m2 + b <= b * m1);
        assert(false);
    }
    assert(t1 == t2 && m1 == m2);
}

/// Packs a resolved corner key into its 128-bit table key.
pub fn encode_key(key: &ObjVertexAbsolute) -> (e: u128)
    ensures
        e as int == spec_encode_key(*key),
{
    let p = key.position_index as u128;
    let t: u128 = match key.texcoord_index {
        None => 0,
        Some(v) => v as u128 + 1,
    };
    let m: u128 = match key.normal_index {
        None => 0,
        Some(v) => v as u128 + 1,
    };
    p + KEY_BASE * (t + KEY_BASE * m)
}

/// The canonicalization table: a bijection from the resolved corner keys
/// seen so far to their assigned output vertex indices. The abstract
/// content is the map from keys to indices; the injectivity of the
/// assignment is maintained by the parser, which only ever inserts a
/// fresh index.
pub struct VertexCanonicalizer {
    table: HashMap<u128, u32>,
    model: Ghost<Map<ObjVertexAbsolute, u32>>,
}

impl View for VertexCanonicalizer {
    type V = Map<ObjVertexAbsolute, u32>;

    closed spec fn view(&self) -> Map<ObjVertexAbsolute, u32> {
        self.model@
    }
}

impl VertexCanonicalizer {
    /// The table stores exactly the packed image of the abstract map.
    pub closed spec fn wf(&self) -> bool {
        &&& forall|k: ObjVertexAbsolute| #[trigger]
            self.model@.contains_key(k) ==> self.table@.contains_key(
                spec_encode_key(k) as u128,
            ) && self.table@[spec_encode_key(k) as u128] == self.model@[k]
        &&& forall|e: u128| #[trigger]
            self.table@.contains_key(e) ==> exists|k: ObjVertexAbsolute| #[trigger]
                self.model@.contains_key(k) && spec_encode_key(k) as u128 == e
    }

    /// An empty table.
    pub fn new() -> (c: VertexCanonicalizer)
        ensures
            c.wf(),
            c@ == Map::<ObjVertexAbsolute, u32>::empty(),
    {
        let c = VertexCanonicalizer {
            table: HashMap::new(),
            model: Ghost(Map::empty()),
        };
        proof {
            assert(c.table@ =~= Map::<u128, u32>::empty());
        }
        c
    }

    /// Looks a resolved corner key up.
    pub fn get(&self, key: &ObjVertexAbsolute) -> (r: Option<u32>)
        requires
            self.wf(),
        ensures
            match r {
                Some(i) => self@.contains_key(*key) && self@[*key] == i,
                None => !self@.contains_key(*key),
            },
    {
        let e = encode_key(key);
        match self.table.get(&e) {
            Some(i) => {
                proof {
                    let k0 = choose|k: ObjVertexAbsolute| #[trigger]
                        self.model@.contains_key(k) && spec_encode_key(k) as u128 == e;
                    lemma_encode_injective(k0, *key);
                }
                Some(*i)
            },
            None => {
                proof {
                    if self.model@.contains_key(*key) {
                        assert(self.table@.contains_key(e));
                    }
                }
                None
            },
        }
    }

    /// Records a fresh key with its assigned output index.
    pub fn insert(&mut self, key: ObjVertexAbsolute, idx: u32)
        requires
            old(self).wf(),
        ensures
            final(self).wf(),
            final(self)@ == old(self)@.insert(key, idx),
    {
        let e = encode_key(&key);
        self.table.insert(e, idx);
        proof {
            self.model@ = self.model@.insert(key, idx);
            assert forall|k: ObjVertexAbsolute| #[trigger]
                self.model@.contains_key(k) implies self.table@.contains_key(
                spec_encode_key(k) as u128,
            ) && self.table@[spec_encode_key(k) as u128] == self.model@[k] by {
                if k != key {
                    lemma_encode_injective_contra(k, key);
                }
            }
            assert forall|e2: u128| #[trigger]
                self.table@.contains_key(e2) implies exists|k: ObjVertexAbsolute| #[trigger]
                self.model@.contains_key(k) && spec_encode_key(k) as u128 == e2 by {
                if e2 == e {
                    assert(self.model@.contains_key(key) && spec_encode_key(key) as u128 == e2);
                } else {
                    let k0 = choose|k: ObjVertexAbsolute| #[trigger]
                        old(self).model@.contains_key(k) && spec_encode_key(k) as u128 == e2;
                    assert(self.model@.contains_key(k0) && spec_encode_key(k0) as u128 == e2);
                }
            }
        }
    }
}

/// Distinct corner keys pack to distinct table keys.
proof fn lemma_encode_injective_contra(k1: ObjVertexAbsolute, k2: ObjVertexAbsolute)
    requires
        k1 != k2,
    ensures
        spec_encode_key(k1) != spec_encode_key(k2),
{
    if spec_encode_key(k1) == spec_encode_key(k2) {
        lemma_encode_injective(k1, k2);
    }
}

} // verus!
