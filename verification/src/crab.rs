//! Crabs and the hunting protocol they run against shared reefs.
//!
//! A crab does not own its reefs: it keeps the indices of the reefs it feeds
//! from, all of which live in one arena (`Vec<Reef>`) owned by the caller.
//! Two crabs holding the same index therefore observe the same mutations.

use vstd::prelude::*;
use vstd::multiset::Multiset;
use crate::color::{cross_spec, Color};
use crate::cookbook::{Cookbook, Recipe};
use crate::diet::Diet;
use crate::prey::Prey;
use crate::reef::Reef;

verus! {

broadcast use {vstd::multiset::group_multiset_axioms, vstd::seq_lib::group_to_multiset_ensures};

/// The mathematical state of a crab: its attributes and the arena indices of
/// the reefs it feeds from, in discovery order.
#[verifier::ext_equal]
pub ghost struct CrabView {
    pub name: Seq<char>,
    pub speed: u32,
    pub color: Color,
    pub diet: Diet,
    pub reefs: Seq<usize>,
}

/// A crab: named, with a speed, a shell color, a diet preference, and the
/// reefs it knows of.
#[derive(Debug)]
pub struct Crab {
    name: String,
    speed: u32,
    color: Color,
    diet: Diet,
    reefs: Vec<usize>,
}

impl View for Crab {
    type V = CrabView;

    closed spec fn view(&self) -> CrabView {
        CrabView {
            name: self.name@,
            speed: self.speed,
            color: self.color,
            diet: self.diet,
            reefs: self.reefs@,
        }
    }
}

impl Clone for Crab {
    /// A clone is a full snapshot: it carries the same attributes and the
    /// same reef indices as the original, and shares no state with it.
    fn clone(&self) -> (res: Self)
        ensures
            res@ == self@,
    {
        let res = Crab {
            name: self.name.clone(),
            speed: self.speed,
            color: self.color,
            diet: self.diet,
            reefs: self.reefs.clone(),
        };
        proof {
            assert(res.reefs@ =~= self.reefs@);
            assert(res@ =~= self@);
        }
        res
    }
}

impl Crab {
    /// A new crab with the given attributes and no reefs yet.
    pub fn new(name: String, speed: u32, color: Color, diet: Diet) -> (c: Crab)
        ensures
            c@.name == name@,
            c@.speed == speed,
            c@.color == color,
            c@.diet == diet,
            c@.reefs.len() == 0,
    {
        Crab { name, speed, color, diet, reefs: Vec::new() }
    }

    /// This crab's name.
    pub fn name(&self) -> (n: &String)
        ensures
            n@ == self@.name,
    {
        &self.name
    }

    /// This crab's speed.
    pub fn speed(&self) -> (s: u32)
        ensures
            s == self@.speed,
    {
        self.speed
    }

    /// This crab's shell color.
    pub fn color(&self) -> (c: &Color)
        ensures
            *c == self@.color,
    {
        &self.color
    }

    /// This crab's diet preference.
    pub fn diet(&self) -> (d: Diet)
        ensures
            d == self@.diet,
    {
        self.diet
    }

    /// An offspring of the two given parents: it carries the given name, a
    /// speed of 1, the cross of the parents' colors and a fresh random diet,
    /// and starts with no reefs. Nothing is promised of the diet, since it is
    /// drawn at random.
    pub fn breed(name: String, crab1: &Crab, crab2: &Crab) -> (c: Crab)
        ensures
            c@.name == name@,
            c@.speed == 1,
            c@.color == cross_spec(crab1@.color, crab2@.color),
            c@.reefs.len() == 0,
    {
        Crab {
            name,
            speed: 1,
            color: Color::cross(crab1.color(), crab2.color()),
            diet: Diet::random_diet(),
            reefs: Vec::new(),
        }
    }

    /// Adds a reef, given by its index in the caller's arena, to the end of
    /// this crab's list of known reefs. Everything else is unchanged.
    pub fn discover_reef(&mut self, reef: usize)
        ensures
            final(self)@.reefs == old(self)@.reefs.push(reef),
            final(self)@.name == old(self)@.name,
            final(self)@.speed == old(self)@.speed,
            final(self)@.color == old(self)@.color,
            final(self)@.diet == old(self)@.diet,
    {
        self.reefs.push(reef);
    }

    /// Whether this crab catches the given prey once it has hold of it: the
    /// prey must not escape, and its diet classification must match the
    /// crab's preference. Either an escape or a diet mismatch alone loses it.
    pub open spec fn can_catch(self, p: Prey) -> bool {
        !p.spec_escapes(self) && p.spec_diet() == self@.diet
    }

    /// One attempt round: queries this crab's reefs in discovery order, each
    /// once, and takes the first prey offered, together with the position of
    /// the reef that yielded it in this crab's list. Reefs ahead of that one
    /// were seen empty. Reports `None`, changing nothing, when every known
    /// reef is empty or the crab knows none.
    #[verifier::loop_isolation(false)]
    fn catch_prey(&self, reefs: &mut Vec<Reef>) -> (r: Option<(Prey, usize)>)
        requires
            refs_valid(self@.reefs, old(reefs)@.len() as int),
        ensures
            final(reefs)@.len() == old(reefs)@.len(),
            r is None ==> final(reefs)@ == old(reefs)@ && forall|m: int|
                0 <= m < self@.reefs.len() ==> old(reefs)@[self@.reefs[m] as int]@.len() == 0,
            r matches Some((p, pos)) ==> ({
                let slot = self@.reefs[pos as int] as int;
                &&& (pos as int) < self@.reefs.len()
                &&& forall|m: int|
                    0 <= m < pos ==> old(reefs)@[self@.reefs[m] as int]@.len() == 0
                &&& old(reefs)@[slot]@.len() > 0
                &&& p == old(reefs)@[slot]@.last()
                &&& final(reefs)@ == old(reefs)@.update(slot, final(reefs)@[slot])
                &&& final(reefs)@[slot]@ == old(reefs)@[slot]@.drop_last()
            }),
    {
        let ghost reefs0 = reefs@;
        let n = self.reefs.len();
        let mut i: usize = 0;
        while i < n
            invariant
                i <= n,
                reefs@ == reefs0,
                forall|m: int| 0 <= m < i ==> reefs0[self@.reefs[m] as int]@.len() == 0,
            decreases n - i,
        {
            let slot = self.reefs[i];
            if reefs[slot].population() > 0 {
                let mut reef = reefs.remove(slot);
                let got = reef.take_prey();
                reefs.insert(slot, reef);
                proof {
                    assert(reefs@ =~= reefs0.update(slot as int, reefs@[slot as int]));
                }
                let p = got.unwrap();
                return Some((p, i));
            }
            i = i + 1;
        }
        None
    }

    /// Returns the given prey to the reef at the given position in this
    /// crab's list of reefs.
    fn release_prey(&self, reefs: &mut Vec<Reef>, p: Prey, reef_index: usize)
        requires
            (reef_index as int) < self@.reefs.len(),
            refs_valid(self@.reefs, old(reefs)@.len() as int),
        ensures
            final(reefs)@.len() == old(reefs)@.len(),
            ({
                let slot = self@.reefs[reef_index as int] as int;
                &&& final(reefs)@ == old(reefs)@.update(slot, final(reefs)@[slot])
                &&& final(reefs)@[slot]@ == old(reefs)@[slot]@.push(p)
            }),
    {
        let ghost reefs0 = reefs@;
        let slot = self.reefs[reef_index];
        let mut reef = reefs.remove(slot);
        reef.add_prey(p);
        reefs.insert(slot, reef);
        proof {
            assert(reefs@ =~= reefs0.update(slot as int, reefs@[slot as int]));
        }
    }

    /// Goes hunting: the crab repeatedly takes one prey from the first
    /// non-empty reef it knows, keeps it when it neither escapes nor fails
    /// the diet match, and otherwise holds it aside and tries again. Every
    /// prey held aside is returned to a reef before the hunt reports back.
    ///
    /// The contract is stated over the pool: the multiset of prey resident
    /// in the reefs this crab references. The hunt succeeds exactly when the
    /// pool held a catchable prey; on success the pool loses exactly that
    /// one prey, and otherwise it is restored unchanged. Reefs the crab does
    /// not reference are never touched, and a crab with no reefs changes
    /// nothing and comes back empty-handed.
    pub fn hunt(&self, reefs: &mut Vec<Reef>) -> (caught: bool)
        requires
            refs_valid(self@.reefs, old(reefs)@.len() as int),
        ensures
            final(reefs)@.len() == old(reefs)@.len(),
            forall|k: int|
                0 <= k < final(reefs)@.len() && !refs_contain(self@.reefs, k) ==> final(reefs)@[k]
                    == old(reefs)@[k],
            caught <==> exists|p: Prey|
                prey_pool(self@.reefs, old(reefs)@).count(p) > 0 && self.can_catch(p),
            caught ==> exists|p: Prey|
                self.can_catch(p) && prey_pool(self@.reefs, old(reefs)@) == prey_pool(
                    self@.reefs,
                    final(reefs)@,
                ).insert(p),
            !caught ==> prey_pool(self@.reefs, final(reefs)@) == prey_pool(
                self@.reefs,
                old(reefs)@,
            ),
            prey_pool(self@.reefs, old(reefs)@).len() == prey_pool(self@.reefs, final(reefs)@).len()
                + (if caught {
                1int
            } else {
                0int
            }),
            self@.reefs.len() == 0 ==> !caught && final(reefs)@ == old(reefs)@,
    {
        let ghost refs = self@.reefs;
        let ghost reefs0 = reefs@;
        let mut escaped: Vec<(Prey, usize)> = Vec::new();
        let mut prey_caught = false;
        let ghost mut caught_prey: Prey = Prey::Seaweed;

        proof {
            assert(escaped_prey_seq(escaped@) =~= Seq::<Prey>::empty());
            assert(prey_pool(refs, reefs0) =~= prey_pool(refs, reefs@).add(
                escaped_mset(escaped@),
            ));
        }
        loop
            invariant_except_break
                !prey_caught,
            invariant
                refs == self@.reefs,
                refs_valid(refs, reefs@.len() as int),
                reefs@.len() == reefs0.len(),
                forall|k: int|
                    0 <= k < reefs@.len() && !refs_contain(refs, k) ==> reefs@[k] == reefs0[k],
                forall|e: int|
                    #![trigger escaped@[e]]
                    0 <= e < escaped@.len() ==> !self.can_catch(escaped@[e].0) && (escaped@[e].1
                        as int) < refs.len(),
                !prey_caught ==> prey_pool(refs, reefs0) == prey_pool(refs, reefs@).add(
                    escaped_mset(escaped@),
                ),
            ensures
                reefs@.len() == reefs0.len(),
                forall|k: int|
                    0 <= k < reefs@.len() && !refs_contain(refs, k) ==> reefs@[k] == reefs0[k],
                forall|e: int|
                    #![trigger escaped@[e]]
                    0 <= e < escaped@.len() ==> !self.can_catch(escaped@[e].0) && (escaped@[e].1
                        as int) < refs.len(),
                prey_caught ==> self.can_catch(caught_prey) && prey_pool(refs, reefs0)
                    == prey_pool(refs, reefs@).add(escaped_mset(escaped@)).insert(caught_prey),
                !prey_caught ==> prey_pool(refs, reefs0) == prey_pool(refs, reefs@).add(
                    escaped_mset(escaped@),
                ) && (forall|m: int|
                    0 <= m < refs.len() ==> reefs@[refs[m] as int]@.len() == 0),
            decreases prey_pool(refs, reefs@).len(),
        {
            let ghost pre = reefs@;
            let ghost esc_pre = escaped@;
            let res = self.catch_prey(reefs);
            match res {
                Some((p, pos)) => {
                    proof {
                        let slot = refs[pos as int] as int;
                        lemma_pool_take(refs, pre, reefs@, slot);
                        assert(prey_pool(refs, pre) == prey_pool(refs, reefs@).insert(p));
                        assert(prey_pool(refs, reefs@).len() < prey_pool(refs, pre).len());
                    }
                    if p.try_escape(self) || self.diet() != p.diet() {
                        escaped.push((p, pos));
                        proof {
                            assert(escaped_prey_seq(escaped@) =~= escaped_prey_seq(esc_pre).push(
                                p,
                            ));
                            assert(escaped_mset(escaped@) =~= escaped_mset(esc_pre).insert(p));
                            assert forall|x: Prey|
                                prey_pool(refs, reefs0).count(x) == prey_pool(refs, reefs@).add(
                                    escaped_mset(escaped@),
                                ).count(x) by {
                                assert(prey_pool(refs, reefs0).count(x) == prey_pool(refs, pre).add(
                                    escaped_mset(esc_pre),
                                ).count(x));
                                assert(prey_pool(refs, pre).count(x) == prey_pool(refs, reefs@)
                                    .insert(p).count(x));
                            }
                            assert(prey_pool(refs, reefs0) =~= prey_pool(refs, reefs@).add(
                                escaped_mset(escaped@),
                            ));
                        }
                    } else {
                        prey_caught = true;
                        proof {
                            caught_prey = p;
                            assert(self.can_catch(p));
                            assert forall|x: Prey|
                                prey_pool(refs, reefs0).count(x) == prey_pool(refs, reefs@).add(
                                    escaped_mset(escaped@),
                                ).insert(p).count(x) by {
                                assert(prey_pool(refs, reefs0).count(x) == prey_pool(refs, pre).add(
                                    escaped_mset(escaped@),
                                ).count(x));
                                assert(prey_pool(refs, pre).count(x) == prey_pool(refs, reefs@)
                                    .insert(p).count(x));
                            }
                            assert(prey_pool(refs, reefs0) =~= prey_pool(refs, reefs@).add(
                                escaped_mset(escaped@),
                            ).insert(p));
                        }
                        break;
                    }
                },
                None => {
                    break;
                },
            }
        }
        proof {
            if !prey_caught {
                lemma_pool_prefix_all_empty(refs, reefs@, reefs@.len() as int);
                assert(prey_pool(refs, reefs@) =~= Multiset::<Prey>::empty());
                assert forall|p: Prey|
                    !(prey_pool(refs, reefs0).count(p) > 0 && self.can_catch(p)) by {
                    if prey_pool(refs, reefs0).count(p) > 0 {
                        assert(escaped_mset(escaped@).count(p) > 0);
                        assert(escaped_prey_seq(escaped@).contains(p));
                        let e = choose|e: int|
                            0 <= e < escaped_prey_seq(escaped@).len() && escaped_prey_seq(
                                escaped@,
                            )[e] == p;
                        assert(escaped@[e].0 == p);
                        assert(!self.can_catch(p));
                    }
                }
            }
        }
        let ghost no_catchable = !prey_caught;
        while escaped.len() > 0
            invariant
                refs == self@.reefs,
                refs_valid(refs, reefs@.len() as int),
                reefs@.len() == reefs0.len(),
                forall|k: int|
                    0 <= k < reefs@.len() && !refs_contain(refs, k) ==> reefs@[k] == reefs0[k],
                forall|e: int|
                    #![trigger escaped@[e]]
                    0 <= e < escaped@.len() ==> (escaped@[e].1 as int) < refs.len(),
                prey_caught ==> self.can_catch(caught_prey) && prey_pool(refs, reefs0)
                    == prey_pool(refs, reefs@).add(escaped_mset(escaped@)).insert(caught_prey),
                !prey_caught ==> prey_pool(refs, reefs0) == prey_pool(refs, reefs@).add(
                    escaped_mset(escaped@),
                ),
            decreases escaped@.len(),
        {
            let ghost pre = reefs@;
            let ghost esc_pre = escaped@;
            let e = escaped.pop().unwrap();
            self.release_prey(reefs, e.0, e.1);
            proof {
                let slot = refs[e.1 as int] as int;
                assert(refs_contain(refs, slot)) by {
                    assert(refs[e.1 as int] == slot);
                }
                lemma_pool_give(refs, pre, reefs@, slot, e.0);
                assert(esc_pre =~= escaped@.push(e));
                assert(escaped_prey_seq(esc_pre) =~= escaped_prey_seq(escaped@).push(e.0));
                assert(escaped_mset(esc_pre) =~= escaped_mset(escaped@).insert(e.0));
                if prey_caught {
                    assert forall|x: Prey|
                        prey_pool(refs, reefs0).count(x) == prey_pool(refs, reefs@).add(
                            escaped_mset(escaped@),
                        ).insert(caught_prey).count(x) by {
                        assert(prey_pool(refs, reefs0).count(x) == prey_pool(refs, pre).add(
                            escaped_mset(esc_pre),
                        ).insert(caught_prey).count(x));
                        assert(prey_pool(refs, reefs@).count(x) == prey_pool(refs, pre).insert(
                            e.0,
                        ).count(x));
                    }
                    assert(prey_pool(refs, reefs0) =~= prey_pool(refs, reefs@).add(
                        escaped_mset(escaped@),
                    ).insert(caught_prey));
                } else {
                    assert forall|x: Prey|
                        prey_pool(refs, reefs0).count(x) == prey_pool(refs, reefs@).add(
                            escaped_mset(escaped@),
                        ).count(x) by {
                        assert(prey_pool(refs, reefs0).count(x) == prey_pool(refs, pre).add(
                            escaped_mset(esc_pre),
                        ).count(x));
                        assert(prey_pool(refs, reefs@).count(x) == prey_pool(refs, pre).insert(
                            e.0,
                        ).count(x));
                    }
                    assert(prey_pool(refs, reefs0) =~= prey_pool(refs, reefs@).add(
                        escaped_mset(escaped@),
                    ));
                }
            }
        }
        proof {
            assert(escaped_prey_seq(escaped@) =~= Seq::<Prey>::empty());
            assert(escaped_mset(escaped@).len() == 0);
            assert forall|x: Prey| escaped_mset(escaped@).count(x) == 0 by {}
            if prey_caught {
                assert(prey_pool(refs, reefs0) =~= prey_pool(refs, reefs@).insert(caught_prey));
                assert(prey_pool(refs, reefs0).count(caught_prey) > 0);
                assert(prey_pool(refs, reefs0).len() == prey_pool(refs, reefs@).len() + 1);
            } else {
                assert(prey_pool(refs, reefs0) =~= prey_pool(refs, reefs@));
            }
            if refs.len() == 0 {
                lemma_pool_prefix_all_empty(refs, reefs0, reefs0.len() as int);
                assert(prey_pool(refs, reefs0) =~= Multiset::<Prey>::empty());
                assert(!prey_caught);
                assert(reefs@ =~= reefs0);
            }
        }
        prey_caught
    }

    /// The first recipe in the given cookbook that matches this crab's diet
    /// preference, or `None` when no recipe does.
    pub fn choose_recipe<'a>(&self, cookbook: &'a Cookbook) -> (r: Option<&'a Recipe>)
        ensures
            r is Some <==> exists|i: int|
                0 <= i < cookbook@.len() && (#[trigger] cookbook@[i])@.diet == self@.diet,
            r matches Some(rec) ==> exists|i: int|
                {
                    &&& 0 <= i < cookbook@.len()
                    &&& *rec == cookbook@[i]
                    &&& rec@.diet == self@.diet
                    &&& forall|j: int|
                        0 <= j < i ==> (#[trigger] cookbook@[j])@.diet != self@.diet
                },
    {
        let recipes = cookbook.recipes();
        let n = recipes.len();
        let mut i: usize = 0;
        while i < n
            invariant
                i <= n,
                n == cookbook@.len(),
                recipes@ == cookbook@,
                forall|j: int| 0 <= j < i ==> (#[trigger] cookbook@[j])@.diet != self@.diet,
            decreases n - i,
        {
            if self.diet() == recipes[i].diet() {
                return Some(&recipes[i]);
            }
            i = i + 1;
        }
        None
    }
}

/// Whether `k` is among the reef indices `refs`.
pub open spec fn refs_contain(refs: Seq<usize>, k: int) -> bool {
    exists|m: int| 0 <= m < refs.len() && refs[m] == k
}

/// Whether every index in `refs` points into an arena of `n_reefs` reefs.
pub open spec fn refs_valid(refs: Seq<usize>, n_reefs: int) -> bool {
    forall|m: int| 0 <= m < refs.len() ==> refs[m] < n_reefs
}

/// The prey resident in the first `n` arena slots that `refs` points to.
/// Each slot counts once, however often its index occurs in `refs`.
pub open spec fn pool_prefix(refs: Seq<usize>, reefs: Seq<Reef>, n: int) -> Multiset<Prey>
    decreases n,
{
    if n <= 0 {
        Multiset::empty()
    } else {
        let rest = pool_prefix(refs, reefs, n - 1);
        if refs_contain(refs, n - 1) {
            rest.add(reefs[n - 1]@.to_multiset())
        } else {
            rest
        }
    }
}

/// All prey resident in the reefs that `refs` points to: the shared pool a
/// crab with those reef indices hunts from.
pub open spec fn prey_pool(refs: Seq<usize>, reefs: Seq<Reef>) -> Multiset<Prey> {
    pool_prefix(refs, reefs, reefs.len() as int)
}

/// Replacing the contents of one referenced arena slot exchanges exactly that
/// slot's prey in the pool prefix; every other slot contributes as before.
proof fn lemma_pool_prefix_update(refs: Seq<usize>, r1: Seq<Reef>, r2: Seq<Reef>, k: int, n: int)
    requires
        r1.len() == r2.len(),
        0 <= k < r1.len(),
        forall|j: int| 0 <= j < r1.len() && j != k ==> r1[j] == r2[j],
        refs_contain(refs, k),
        0 <= n <= r1.len(),
    ensures
        n <= k ==> pool_prefix(refs, r2, n) == pool_prefix(refs, r1, n),
        n > k ==> pool_prefix(refs, r2, n).add(r1[k]@.to_multiset())
            =~= pool_prefix(refs, r1, n).add(r2[k]@.to_multiset()),
    decreases n,
{
    broadcast use vstd::multiset::group_multiset_axioms;

    if n > 0 {
        lemma_pool_prefix_update(refs, r1, r2, k, n - 1);
        let p1 = pool_prefix(refs, r1, n - 1);
        let p2 = pool_prefix(refs, r2, n - 1);
        let m1 = r1[k]@.to_multiset();
        let m2 = r2[k]@.to_multiset();
        if n - 1 == k {
            assert(p1 == p2);
            assert(pool_prefix(refs, r1, n) == p1.add(m1));
            assert(pool_prefix(refs, r2, n) == p2.add(m2));
            assert forall|x: Prey|
                pool_prefix(refs, r2, n).add(m1).count(x)
                    == pool_prefix(refs, r1, n).add(m2).count(x) by {
                assert(p2.add(m2).add(m1).count(x) == p2.count(x) + m2.count(x) + m1.count(x));
                assert(p1.add(m1).add(m2).count(x) == p1.count(x) + m1.count(x) + m2.count(x));
            }
            assert(pool_prefix(refs, r2, n).add(m1) =~= pool_prefix(refs, r1, n).add(m2));
        } else if n > k {
            assert(r1[n - 1] == r2[n - 1]);
            assert(p2.add(m1) =~= p1.add(m2));
            if refs_contain(refs, n - 1) {
                let s = r1[n - 1]@.to_multiset();
                assert(pool_prefix(refs, r1, n) == p1.add(s));
                assert(pool_prefix(refs, r2, n) == p2.add(s));
                assert forall|x: Prey|
                    pool_prefix(refs, r2, n).add(m1).count(x)
                        == pool_prefix(refs, r1, n).add(m2).count(x) by {
                    assert(p2.add(m1).count(x) == p1.add(m2).count(x));
                }
                assert(pool_prefix(refs, r2, n).add(m1) =~= pool_prefix(refs, r1, n).add(m2));
            }
        }
    }
}

/// Taking the last prey out of a referenced reef removes exactly that prey
/// from the pool.
proof fn lemma_pool_take(refs: Seq<usize>, r1: Seq<Reef>, r2: Seq<Reef>, k: int)
    requires
        r1.len() == r2.len(),
        0 <= k < r1.len(),
        forall|j: int| 0 <= j < r1.len() && j != k ==> r1[j] == r2[j],
        refs_contain(refs, k),
        r1[k]@.len() > 0,
        r2[k]@ == r1[k]@.drop_last(),
    ensures
        prey_pool(refs, r1) =~= prey_pool(refs, r2).insert(r1[k]@.last()),
{
    broadcast use vstd::multiset::group_multiset_axioms;
    broadcast use vstd::seq_lib::group_to_multiset_ensures;

    lemma_pool_prefix_update(refs, r1, r2, k, r1.len() as int);
    let p = r1[k]@.last();
    assert(r1[k]@ =~= r2[k]@.push(p));
    assert(r1[k]@.to_multiset() =~= r2[k]@.to_multiset().insert(p));
    let q1 = prey_pool(refs, r1);
    let q2 = prey_pool(refs, r2);
    assert forall|x: Prey| q1.count(x) == q2.insert(p).count(x) by {
        assert(q2.add(r1[k]@.to_multiset()).count(x) == q1.add(r2[k]@.to_multiset()).count(x));
        assert(r1[k]@.to_multiset().count(x)
            == r2[k]@.to_multiset().insert(p).count(x));
        assert(q2.insert(p).count(x) == q2.count(x) + Multiset::singleton(p).count(x));
        assert(r2[k]@.to_multiset().insert(p).count(x)
            == r2[k]@.to_multiset().count(x) + Multiset::singleton(p).count(x));
    }
}

/// Returning a prey to a referenced reef adds exactly that prey to the pool.
proof fn lemma_pool_give(refs: Seq<usize>, r1: Seq<Reef>, r2: Seq<Reef>, k: int, p: Prey)
    requires
        r1.len() == r2.len(),
        0 <= k < r1.len(),
        forall|j: int| 0 <= j < r1.len() && j != k ==> r1[j] == r2[j],
        refs_contain(refs, k),
        r2[k]@ == r1[k]@.push(p),
    ensures
        prey_pool(refs, r2) =~= prey_pool(refs, r1).insert(p),
{
    broadcast use vstd::multiset::group_multiset_axioms;
    broadcast use vstd::seq_lib::group_to_multiset_ensures;

    lemma_pool_prefix_update(refs, r1, r2, k, r1.len() as int);
    assert(r2[k]@.to_multiset() =~= r1[k]@.to_multiset().insert(p));
    let q1 = prey_pool(refs, r1);
    let q2 = prey_pool(refs, r2);
    assert forall|x: Prey| q2.count(x) == q1.insert(p).count(x) by {
        assert(q2.add(r1[k]@.to_multiset()).count(x) == q1.add(r2[k]@.to_multiset()).count(x));
        assert(r2[k]@.to_multiset().count(x)
            == r1[k]@.to_multiset().count(x) + Multiset::singleton(p).count(x));
        assert(q1.insert(p).count(x) == q1.count(x) + Multiset::singleton(p).count(x));
    }
}

/// When every referenced reef is empty, the pool is empty.
proof fn lemma_pool_prefix_all_empty(refs: Seq<usize>, reefs: Seq<Reef>, n: int)
    requires
        refs_valid(refs, reefs.len() as int),
        forall|m: int| 0 <= m < refs.len() ==> reefs[refs[m] as int]@.len() == 0,
        0 <= n <= reefs.len(),
    ensures
        pool_prefix(refs, reefs, n) =~= Multiset::<Prey>::empty(),
    decreases n,
{
    broadcast use vstd::multiset::group_multiset_axioms;
    broadcast use vstd::seq_lib::group_to_multiset_ensures;

    if n > 0 {
        lemma_pool_prefix_all_empty(refs, reefs, n - 1);
        if refs_contain(refs, n - 1) {
            let m = choose|m: int| 0 <= m < refs.len() && refs[m] == n - 1;
            assert(reefs[n - 1]@.len() == 0);
            assert(reefs[n - 1]@.to_multiset().len() == 0);
        }
    }
}

/// With a single reef at slot 0, referenced at least once, the pool is
/// exactly that reef's contents.
pub proof fn lemma_pool_single(refs: Seq<usize>, reefs: Seq<Reef>)
    requires
        reefs.len() == 1,
        refs.len() > 0,
        forall|m: int| 0 <= m < refs.len() ==> refs[m] == 0,
    ensures
        prey_pool(refs, reefs) =~= reefs[0]@.to_multiset(),
{
    broadcast use vstd::multiset::group_multiset_axioms;

    assert(refs[0] == 0);
    assert(refs_contain(refs, 0));
    assert(pool_prefix(refs, reefs, 0) =~= Multiset::<Prey>::empty());
}

/// With a single reef holding exactly one prey that the crab can catch, any
/// outcome `hunt`'s contract permits is a catch that leaves the reef empty.
/// The last two hypotheses are the corresponding clauses of that contract,
/// stated over the arena before (`reefs0`) and after (`reefs1`) the hunt.
pub proof fn lemma_hunt_single_catchable(
    crab: Crab,
    reefs0: Seq<Reef>,
    reefs1: Seq<Reef>,
    caught: bool,
    p: Prey,
)
    requires
        reefs0.len() == 1,
        reefs1.len() == 1,
        crab@.reefs.len() > 0,
        forall|m: int| 0 <= m < crab@.reefs.len() ==> crab@.reefs[m] == 0,
        reefs0[0]@ == seq![p],
        crab.can_catch(p),
        caught <==> (exists|q: Prey|
            prey_pool(crab@.reefs, reefs0).count(q) > 0 && crab.can_catch(q)),
        caught ==> (exists|q: Prey|
            crab.can_catch(q) && prey_pool(crab@.reefs, reefs0) == prey_pool(
                crab@.reefs,
                reefs1,
            ).insert(q)),
    ensures
        caught,
        reefs1[0]@.len() == 0,
{
    lemma_pool_single(crab@.reefs, reefs0);
    lemma_pool_single(crab@.reefs, reefs1);
    assert(reefs0[0]@.contains(p));
    assert(prey_pool(crab@.reefs, reefs0).count(p) > 0);
    assert(caught);
    let q = choose|q: Prey|
        crab.can_catch(q) && prey_pool(crab@.reefs, reefs0) == prey_pool(
            crab@.reefs,
            reefs1,
        ).insert(q);
    assert(prey_pool(crab@.reefs, reefs0).len() == 1);
    assert(prey_pool(crab@.reefs, reefs1).len() == 0);
    assert(reefs1[0]@.to_multiset().len() == 0);
}

/// With a single reef holding exactly one prey the crab cannot catch, any
/// outcome `hunt`'s contract permits is a miss that leaves that same prey
/// resident again. The last two hypotheses are the corresponding clauses of
/// that contract, stated over the arena before (`reefs0`) and after
/// (`reefs1`) the hunt.
pub proof fn lemma_hunt_single_escaper(
    crab: Crab,
    reefs0: Seq<Reef>,
    reefs1: Seq<Reef>,
    caught: bool,
    p: Prey,
)
    requires
        reefs0.len() == 1,
        reefs1.len() == 1,
        crab@.reefs.len() > 0,
        forall|m: int| 0 <= m < crab@.reefs.len() ==> crab@.reefs[m] == 0,
        reefs0[0]@ == seq![p],
        !crab.can_catch(p),
        caught <==> (exists|q: Prey|
            prey_pool(crab@.reefs, reefs0).count(q) > 0 && crab.can_catch(q)),
        !caught ==> prey_pool(crab@.reefs, reefs1) == prey_pool(crab@.reefs, reefs0),
    ensures
        !caught,
        reefs1[0]@ == seq![p],
{
    lemma_pool_single(crab@.reefs, reefs0);
    lemma_pool_single(crab@.reefs, reefs1);
    assert(!caught) by {
        if caught {
            let q = choose|q: Prey|
                prey_pool(crab@.reefs, reefs0).count(q) > 0 && crab.can_catch(q);
            assert(reefs0[0]@.to_multiset().count(q) > 0);
            assert(reefs0[0]@.contains(q));
            assert(q == p);
        }
    }
    assert(reefs1[0]@.to_multiset() == reefs0[0]@.to_multiset());
    assert(reefs0[0]@.to_multiset().len() == reefs0[0]@.len());
    assert(reefs1[0]@.to_multiset().len() == reefs1[0]@.len());
    assert(reefs1[0]@.len() == 1);
    assert(reefs0[0]@[0] == p);
    assert(reefs0[0]@.contains(p));
    assert(reefs0[0]@.to_multiset().count(p) > 0);
    assert(reefs1[0]@.to_multiset().count(p) > 0);
    assert(reefs1[0]@.contains(p));
    assert(reefs1[0]@[0] == p);
    assert(reefs1[0]@ =~= seq![p]);
}

/// The prey a hunt is holding aside, in order: the first component of each
/// escaped entry.
pub open spec fn escaped_prey_seq(s: Seq<(Prey, usize)>) -> Seq<Prey> {
    Seq::new(s.len(), |i: int| s[i].0)
}

/// The prey that a hunt is holding aside, as a multiset.
pub open spec fn escaped_mset(s: Seq<(Prey, usize)>) -> Multiset<Prey> {
    escaped_prey_seq(s).to_multiset()
}

} // verus!
