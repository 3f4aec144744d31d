//! A key together with the slots where it may be placed.
use vstd::prelude::*;

use rand::rngs::SmallRng;

use crate::key_template::KeyTemplate;
use crate::random::random_range_inclusive;

verus! {

broadcast use vstd::seq_lib::group_to_multiset_ensures;

/// `p` is a permutation of the positions `0..n`.
pub open spec fn is_permutation(p: Seq<int>, n: int) -> bool {
    &&& p.len() == n
    &&& forall|k: int| 0 <= k < n ==> 0 <= #[trigger] p[k] < n
    &&& forall|k1: int, k2: int| 0 <= k1 < n && 0 <= k2 < n && k1 != k2 ==> #[trigger] p[k1] != #[trigger] p[k2]
}

/// `new` holds at each position `k` the element of `old` at position `p[k]`.
pub open spec fn rearranged(new: Seq<(usize, usize)>, old: Seq<(usize, usize)>, p: Seq<int>) -> bool {
    &&& new.len() == old.len()
    &&& is_permutation(p, old.len() as int)
    &&& forall|k: int| 0 <= k < new.len() ==> #[trigger] new[k] == old[p[k]]
}

#[derive(Debug, Clone)]
pub struct Key {
    base: u8,
    shift: u8,
    valid_locations: Vec<(usize, usize)>,
    is_static: bool,
    template: KeyTemplate,
}

impl Key {
    pub closed spec fn spec_base(&self) -> u8 {
        self.base
    }

    pub closed spec fn spec_shift(&self) -> u8 {
        self.shift
    }

    /// The slots, as (row, column), where the key may be placed.
    pub closed spec fn spec_valid_locations(&self) -> Seq<(usize, usize)> {
        self.valid_locations@
    }

    pub closed spec fn spec_template(&self) -> KeyTemplate {
        self.template
    }

    /// The key has at least one valid location, and it is static exactly
    /// when it has only one.
    pub closed spec fn wf(&self) -> bool {
        &&& self.valid_locations@.len() >= 1
        &&& self.is_static == (self.valid_locations@.len() == 1)
    }

    pub fn from_template(template: KeyTemplate) -> (key: Self)
        ensures
            key.wf(),
            key.spec_base() == template.spec_base(),
            key.spec_shift() == template.spec_shift(),
            key.spec_valid_locations() == template.spec_valid_locations(),
            key.spec_template() == template,
    {
        let base: u8 = template.get_base();
        let shift: u8 = template.get_shift();
        let valid_locations: Vec<(usize, usize)> = template.get_valid_locations();
        let is_static = valid_locations.len() == 1;
        Self { base, shift, valid_locations, is_static, template }
    }

    pub fn get_base(&self) -> (base: u8)
        ensures
            base == self.spec_base(),
    {
        self.base
    }

    pub fn get_shift(&self) -> (shift: u8)
        ensures
            shift == self.spec_shift(),
    {
        self.shift
    }

    pub fn is_static(&self) -> (is_static: bool)
        requires
            self.wf(),
        ensures
            is_static == (self.spec_valid_locations().len() == 1),
    {
        self.is_static
    }

    pub fn get_cnt_valid_locations(&self) -> (cnt: usize)
        ensures
            cnt == self.spec_valid_locations().len(),
    {
        self.valid_locations.len()
    }

    pub fn get_valid_locations(&self) -> (locs: &[(usize, usize)])
        ensures
            locs@ == self.spec_valid_locations(),
    {
        self.valid_locations.as_slice()
    }

    /// Puts the valid locations in a random order: each position from the
    /// first to the second last is swapped with a later position. No location
    /// keeps its position when there are two or more.
    pub fn shuffle_valid_locations(&mut self, rng: &mut SmallRng)
        requires
            old(self).wf(),
        ensures
            final(self).wf(),
            final(self).spec_valid_locations().to_multiset() == old(
                self,
            ).spec_valid_locations().to_multiset(),
            final(self).spec_valid_locations().len() == old(self).spec_valid_locations().len(),
            exists|p: Seq<int>|
                #[trigger] rearranged(
                    final(self).spec_valid_locations(),
                    old(self).spec_valid_locations(),
                    p,
                ) && (old(self).spec_valid_locations().len() >= 2 ==> forall|k: int|
                    0 <= k < p.len() ==> #[trigger] p[k] != k),
            final(self).spec_base() == old(self).spec_base(),
            final(self).spec_shift() == old(self).spec_shift(),
            final(self).spec_template() == old(self).spec_template(),
    {
        let len = self.valid_locations.len();
        let ghost orig = self.valid_locations@;
        let ghost mut perm: Seq<int> = Seq::new(len as nat, |k: int| k);
        assert(rearranged(self.valid_locations@, orig, perm));
        let mut i: usize = 0;
        while i < len - 1
            invariant
                len == self.valid_locations@.len(),
                len == orig.len(),
                len >= 1,
                i <= len - 1,
                rearranged(self.valid_locations@, orig, perm),
                forall|k: int| 0 <= k < i ==> #[trigger] perm[k] != k,
                forall|k: int| i <= k < len && #[trigger] perm[k] >= i ==> perm[k] == k,
                i == len - 1 && len >= 2 ==> perm[len - 1] != len - 1,
                self.valid_locations@.to_multiset() == orig.to_multiset(),
                self.is_static == (len == 1),
                self.base == old(self).base,
                self.shift == old(self).shift,
                self.template == old(self).template,
            decreases len - 1 - i,
        {
            let j = random_range_inclusive(rng, i + 1, len - 1);
            let ghost before = self.valid_locations@;
            let a = self.valid_locations[i];
            let b = self.valid_locations[j];
            self.valid_locations[i] = b;
            self.valid_locations[j] = a;
            proof {
                let mid = before.update(i as int, b);
                assert(mid.to_multiset() == before.to_multiset().insert(b).remove(a));
                assert(mid[j as int] == b);
                assert(mid.update(j as int, a).to_multiset() == mid.to_multiset().insert(a).remove(b));
                assert(self.valid_locations@ == mid.update(j as int, a));
                assert(before.to_multiset().insert(b).remove(a).insert(a).remove(b)
                    =~= before.to_multiset());
                let old_perm = perm;
                let pi = old_perm[i as int];
                let pj = old_perm[j as int];
                // The element now moved to position i did not start there:
                // an element still at or after i sits at its own position.
                assert(pj != i);
                perm = old_perm.update(i as int, pj).update(j as int, pi);
                assert(is_permutation(perm, len as int)) by {
                    assert forall|k1: int, k2: int|
                        0 <= k1 < len && 0 <= k2 < len && k1 != k2 implies #[trigger] perm[k1]
                        != #[trigger] perm[k2] by {
                        assert(old_perm[k1] != old_perm[k2] || k1 == k2);
                        if k1 == i as int || k1 == j as int || k2 == i as int || k2 == j as int {
                            assert(old_perm[i as int] != old_perm[j as int]);
                            assert(k1 != i ==> k1 != j ==> old_perm[k1] != old_perm[i as int] && old_perm[k1] != old_perm[j as int]);
                            assert(k2 != i ==> k2 != j ==> old_perm[k2] != old_perm[i as int] && old_perm[k2] != old_perm[j as int]);
                        }
                    }
                    assert forall|k: int| 0 <= k < len implies 0 <= #[trigger] perm[k] < len by {
                        assert(0 <= old_perm[k] < len);
                    }
                }
                assert forall|k: int| 0 <= k < len implies #[trigger] self.valid_locations@[k] == orig[perm[k]] by {
                    assert(before[k] == orig[old_perm[k]]);
                    assert(before[i as int] == orig[old_perm[i as int]]);
                    assert(before[j as int] == orig[old_perm[j as int]]);
                }
                assert forall|k: int| i + 1 <= k < len && #[trigger] perm[k] >= i + 1 implies perm[k] == k by {
                    if k == j as int {
                        assert(pi == i as int || pi < i) by {
                            if pi >= i {
                                assert(old_perm[i as int] >= i);
                            }
                        }
                    } else {
                        assert(perm[k] == old_perm[k]);
                    }
                }
                assert(pi <= i) by {
                    if pi >= i {
                        assert(old_perm[i as int] >= i);
                    }
                }
                assert(i + 1 == len - 1 ==> perm[len - 1] != len - 1);
                assert forall|k: int| 0 <= k < i + 1 implies #[trigger] perm[k] != k by {
                    if k < i {
                        assert(perm[k] == old_perm[k]);
                    }
                }
            }
            i = i + 1;
        }
        proof {
            assert(rearranged(self.valid_locations@, orig, perm));
            assert(len >= 2 ==> forall|k: int| 0 <= k < perm.len() ==> #[trigger] perm[k] != k);
            assert(orig == old(self).spec_valid_locations());
            assert(self.valid_locations@ == self.spec_valid_locations());
            assert(rearranged(self.spec_valid_locations(), old(self).spec_valid_locations(), perm)
                && (old(self).spec_valid_locations().len() >= 2 ==> forall|k: int|
                0 <= k < perm.len() ==> #[trigger] perm[k] != k));
        }
    }

    pub fn get_valid_location_at_idx(&self, idx: usize) -> (loc: (usize, usize))
        requires
            idx < self.spec_valid_locations().len(),
        ensures
            loc == self.spec_valid_locations()[idx as int],
    {
        self.valid_locations[idx]
    }

    pub fn get_template(&self) -> (template: KeyTemplate)
        ensures
            template == self.spec_template(),
    {
        self.template
    }
}

/// A key without its valid locations.
#[derive(Debug, Clone)]
pub struct LightKey {
    base: u8,
    shift: u8,
    template: KeyTemplate,
}

impl LightKey {
    pub closed spec fn spec_base(&self) -> u8 {
        self.base
    }

    pub closed spec fn spec_shift(&self) -> u8 {
        self.shift
    }

    pub closed spec fn spec_template(&self) -> KeyTemplate {
        self.template
    }

    pub fn from_template(template: KeyTemplate) -> (key: Self)
        ensures
            key.spec_base() == template.spec_base(),
            key.spec_shift() == template.spec_shift(),
            key.spec_template() == template,
    {
        let base: u8 = template.get_base();
        let shift: u8 = template.get_shift();
        Self { base, shift, template }
    }

    pub fn get_base(&self) -> (base: u8)
        ensures
            base == self.spec_base(),
    {
        self.base
    }

    pub fn get_shift(&self) -> (shift: u8)
        ensures
            shift == self.spec_shift(),
    {
        self.shift
    }

    pub fn get_template(&self) -> (template: KeyTemplate)
        ensures
            template == self.spec_template(),
    {
        self.template
    }
}

} // verus!
