//! The beach: the top-level aggregate owning the live crabs and the clan
//! system, and wiring crab lookups into clan operations.

use vstd::prelude::*;
use vstd::string::StringExecFns;
use crate::clans::{members_have, sum_speeds, Clan, ClanSystem};
use crate::color::cross_spec;
use crate::crab::Crab;

verus! {

/// The crabs of a sequence whose name is `name`, in their original order.
pub open spec fn crabs_with_name(cs: Seq<Crab>, name: Seq<char>) -> Seq<Crab>
    decreases cs.len(),
{
    if cs.len() == 0 {
        Seq::empty()
    } else {
        let rest = crabs_with_name(cs.drop_last(), name);
        if cs.last()@.name == name {
            rest.push(cs.last())
        } else {
            rest
        }
    }
}

/// The crabs behind a sequence of references, by value.
pub open spec fn deref_crabs(rs: Seq<&Crab>) -> Seq<Crab> {
    Seq::new(rs.len(), |i: int| *rs[i])
}

/// The mean speed of a clan's members, as a truncating integer division.
/// Meaningful only for a clan with at least one member.
pub open spec fn clan_avg(c: Clan) -> int {
    sum_speeds(c.spec_members()) / (c.spec_members().len() as int)
}

/// The clan of `cs` whose id is `id`; meaningful when such a clan exists
/// (under id uniqueness it is then unique).
pub open spec fn clan_at(cs: Seq<Clan>, id: Seq<char>) -> Clan {
    cs[choose|i: int| 0 <= i < cs.len() && cs[i].spec_id() == id]
}

/// The outcome the competition owes: an error when either id names no clan
/// or names an empty clan (whose mean speed would divide by zero); otherwise
/// the id of the strictly faster clan on average, or no winner on a tie.
pub open spec fn winner_spec(sys: ClanSystem, a: Seq<char>, b: Seq<char>) -> Result<
    Option<Seq<char>>,
    (),
> {
    if !sys.has_clan(a) || !sys.has_clan(b) {
        Err(())
    } else {
        let ca = clan_at(sys.clans_seq(), a);
        let cb = clan_at(sys.clans_seq(), b);
        if ca.spec_members().len() == 0 || cb.spec_members().len() == 0 {
            Err(())
        } else if clan_avg(ca) > clan_avg(cb) {
            Ok(Some(a))
        } else if clan_avg(cb) > clan_avg(ca) {
            Ok(Some(b))
        } else {
            Ok(None)
        }
    }
}

/// The competition is symmetric: swapping the two ids reports the same
/// winner id, the same tie, or the same failure.
pub proof fn lemma_winner_symmetric(sys: ClanSystem, a: Seq<char>, b: Seq<char>)
    ensures
        winner_spec(sys, a, b) == winner_spec(sys, b, a),
{
}

/// The top-level aggregate: all live crabs, and the clan system.
pub struct Beach {
    crabs: Vec<Crab>,
    clan_system: ClanSystem,
}

impl Beach {
    /// The live crabs, in the order they joined the beach.
    pub closed spec fn crabs_seq(self) -> Seq<Crab> {
        self.crabs@
    }

    /// The clan system.
    pub closed spec fn clan_sys(self) -> ClanSystem {
        self.clan_system
    }

    /// The beach is well formed when its clan system is.
    pub open spec fn wf(self) -> bool {
        self.clan_sys().wf()
    }

    /// An empty beach: no crabs, no clans.
    pub fn new() -> (b: Beach)
        ensures
            b.crabs_seq().len() == 0,
            b.clan_sys().clans_seq().len() == 0,
            b.wf(),
    {
        Beach { crabs: Vec::new(), clan_system: ClanSystem::new() }
    }

    /// The number of crabs on the beach.
    pub fn size(&self) -> (n: usize)
        ensures
            n == self.crabs_seq().len(),
    {
        self.crabs.len()
    }

    /// Takes ownership of a crab and adds it to the end of the beach's
    /// collection. The clan system is untouched.
    pub fn add_crab(&mut self, crab: Crab)
        ensures
            final(self).crabs_seq() == old(self).crabs_seq().push(crab),
            final(self).clan_sys() == old(self).clan_sys(),
    {
        self.crabs.push(crab);
    }

    /// The crab at the given position.
    pub fn get_crab(&self, index: usize) -> (c: &Crab)
        requires
            index < self.crabs_seq().len(),
        ensures
            *c == self.crabs_seq()[index as int],
    {
        &self.crabs[index]
    }

    /// All crabs, in order.
    pub fn crabs(&self) -> (r: &Vec<Crab>)
        ensures
            r@ == self.crabs_seq(),
    {
        &self.crabs
    }

    /// The crab with the highest speed, or `None` on an empty beach. Among
    /// crabs tying for the highest speed, the one added last is reported.
    pub fn get_fastest_crab(&self) -> (r: Option<&Crab>)
        ensures
            r is Some <==> self.crabs_seq().len() > 0,
            r matches Some(c) ==> exists|i: int|
                {
                    &&& 0 <= i < self.crabs_seq().len()
                    &&& *c == self.crabs_seq()[i]
                    &&& forall|j: int|
                        0 <= j < self.crabs_seq().len() ==> (#[trigger] self.crabs_seq()[j])@.speed <= c@.speed
                    &&& forall|j: int|
                        i < j < self.crabs_seq().len() ==> (#[trigger] self.crabs_seq()[j])@.speed
                            < c@.speed
                },
    {
        let n = self.crabs.len();
        if n == 0 {
            return None;
        }
        let mut best: usize = 0;
        let mut i: usize = 1;
        while i < n
            invariant
                1 <= i <= n,
                n == self.crabs_seq().len(),
                best < i,
                forall|j: int|
                    0 <= j < i ==> (#[trigger] self.crabs_seq()[j])@.speed <= self.crabs_seq()[best as int]@.speed,
                forall|j: int|
                    best < j < i ==> (#[trigger] self.crabs_seq()[j])@.speed < self.crabs_seq()[best as int]@.speed,
            decreases n - i,
        {
            if self.crabs[i].speed() >= self.crabs[best].speed() {
                best = i;
            }
            i = i + 1;
        }
        Some(&self.crabs[best])
    }

    /// References to all crabs with the given name, in their original order.
    pub fn find_crabs_by_name<'a>(&'a self, name: &String) -> (r: Vec<&'a Crab>)
        ensures
            deref_crabs(r@) == crabs_with_name(self.crabs_seq(), name@),
    {
        let mut found: Vec<&Crab> = Vec::new();
        let n = self.crabs.len();
        let mut i: usize = 0;
        proof {
            assert(deref_crabs(found@) =~= crabs_with_name(self.crabs_seq().take(0), name@));
        }
        while i < n
            invariant
                i <= n,
                n == self.crabs_seq().len(),
                deref_crabs(found@) == crabs_with_name(self.crabs_seq().take(i as int), name@),
            decreases n - i,
        {
            let ghost pre = found@;
            proof {
                assert(self.crabs_seq().take(i as int + 1).drop_last() =~= self.crabs_seq().take(
                    i as int,
                ));
                assert(self.crabs_seq().take(i as int + 1).last() == self.crabs_seq()[i as int]);
            }
            if *self.crabs[i].name() == *name {
                found.push(&self.crabs[i]);
                proof {
                    assert(deref_crabs(found@) =~= deref_crabs(pre).push(
                        self.crabs_seq()[i as int],
                    ));
                }
            }
            i = i + 1;
        }
        proof {
            assert(self.crabs_seq().take(n as int) =~= self.crabs_seq());
        }
        found
    }

    /// Breeds the crabs at positions `i` and `j`: the offspring carries the
    /// given name, speed 1, the cross of the parents' colors and a fresh
    /// random diet, and is appended to the end of the beach's collection.
    /// The indices must be in bounds. The clan system is untouched.
    pub fn breed_crabs(&mut self, i: usize, j: usize, name: String)
        requires
            i < old(self).crabs_seq().len(),
            j < old(self).crabs_seq().len(),
        ensures
            final(self).clan_sys() == old(self).clan_sys(),
            final(self).crabs_seq().len() == old(self).crabs_seq().len() + 1,
            forall|k: int|
                0 <= k < old(self).crabs_seq().len() ==> final(self).crabs_seq()[k] == old(self).crabs_seq()[k],
            final(self).crabs_seq().last()@.name == name@,
            final(self).crabs_seq().last()@.speed == 1,
            final(self).crabs_seq().last()@.color == cross_spec(
                old(self).crabs_seq()[i as int]@.color,
                old(self).crabs_seq()[j as int]@.color,
            ),
            final(self).crabs_seq().last()@.reefs.len() == 0,
    {
        let new_crab = Crab::breed(name, &self.crabs[i], &self.crabs[j]);
        self.crabs.push(new_crab);
    }

    /// The clan system associated with the beach.
    pub fn get_clan_system(&self) -> (r: &ClanSystem)
        ensures
            *r == self.clan_sys(),
    {
        &self.clan_system
    }

    /// Files a snapshot of the first resident crab with the given name in
    /// the clan with the given id, creating the clan first when it does not
    /// exist yet. A crab with that name must be resident: looking up a name
    /// with no crab is a caller error, not a normal miss.
    pub fn add_member_to_clan(&mut self, clan_id: &String, crab_name: &String)
        requires
            old(self).wf(),
            exists|ci: int|
                0 <= ci < old(self).crabs_seq().len() && (#[trigger] old(self).crabs_seq()[ci])@.name == crab_name@,
        ensures
            final(self).wf(),
            final(self).crabs_seq() == old(self).crabs_seq(),
            final(self).clan_sys().has_clan(clan_id@),
            forall|j: int|
                0 <= j < old(self).clan_sys().clans_seq().len() && (#[trigger] old(self).clan_sys().clans_seq()[j]).spec_id() != clan_id@ ==> final(self).clan_sys().clans_seq()[j] == old(self).clan_sys().clans_seq()[j],
            exists|ci: int|
                {
                    &&& 0 <= ci < old(self).crabs_seq().len()
                    &&& (#[trigger] old(self).crabs_seq()[ci])@.name == crab_name@
                    &&& forall|cj: int|
                        0 <= cj < ci ==> (#[trigger] old(self).crabs_seq()[cj])@.name != crab_name@
                    &&& forall|j: int, l: int|
                        #![trigger final(self).clan_sys().clans_seq()[j].spec_members()[l]]
                        (0 <= j < final(self).clan_sys().clans_seq().len()
                            && final(self).clan_sys().clans_seq()[j].spec_id() == clan_id@
                            && 0 <= l < final(self).clan_sys().clans_seq()[j].spec_members().len()
                            && final(self).clan_sys().clans_seq()[j].spec_members()[l].name@
                            == crab_name@) ==> final(self).clan_sys().clans_seq()[
                            j
                        ].spec_members()[l].crab@ == old(self).crabs_seq()[ci]@
                },
            forall|j: int|
                0 <= j < final(self).clan_sys().clans_seq().len() && (#[trigger] final(self).clan_sys().clans_seq()[j]).spec_id() == clan_id@ ==> members_have(
                    final(self).clan_sys().clans_seq()[j].spec_members(),
                    crab_name@,
                ),
            old(self).clan_sys().has_clan(clan_id@) ==> {
                &&& final(self).clan_sys().clans_seq().len() == old(
                    self,
                ).clan_sys().clans_seq().len()
                &&& forall|j: int|
                    0 <= j < old(self).clan_sys().clans_seq().len() && (#[trigger] old(
                        self,
                    ).clan_sys().clans_seq()[j]).spec_id() == clan_id@ ==> {
                        let ms_old = old(self).clan_sys().clans_seq()[j].spec_members();
                        let ms_new = final(self).clan_sys().clans_seq()[j].spec_members();
                        &&& (members_have(ms_old, crab_name@) ==> ms_new.len() == ms_old.len())
                        &&& (!members_have(ms_old, crab_name@) ==> ms_new.len() == ms_old.len()
                            + 1)
                        &&& forall|l: int|
                            0 <= l < ms_old.len() && (#[trigger] ms_old[l]).name@ != crab_name@
                                ==> ms_new[l] == ms_old[l]
                    }
            },
            !old(self).clan_sys().has_clan(clan_id@) ==> {
                &&& final(self).clan_sys().clans_seq().len() == old(
                    self,
                ).clan_sys().clans_seq().len() + 1
                &&& final(self).clan_sys().clans_seq().last().spec_id() == clan_id@
                &&& final(self).clan_sys().clans_seq().last().spec_members().len() == 1
            },
    {
        let n = self.crabs.len();
        let mut ci: usize = 0;
        while ci < n
            invariant
                ci <= n,
                n == self.crabs_seq().len(),
                self == old(self),
                exists|w: int|
                    0 <= w < old(self).crabs_seq().len() && (#[trigger] old(self).crabs_seq()[w])@.name == crab_name@,
                forall|cj: int|
                    0 <= cj < ci ==> (#[trigger] self.crabs_seq()[cj])@.name != crab_name@,
            ensures
                self == old(self),
                ci < n,
                n == self.crabs_seq().len(),
                self.crabs_seq()[ci as int]@.name == crab_name@,
                forall|cj: int|
                    0 <= cj < ci ==> (#[trigger] self.crabs_seq()[cj])@.name != crab_name@,
            decreases n - ci,
        {
            if *self.crabs[ci].name() == *crab_name {
                break ;
            }
            ci = ci + 1;
            proof {
                if ci == n {
                    let w = choose|w: int|
                        0 <= w < old(self).crabs_seq().len() && old(self).crabs_seq()[w]@.name
                            == crab_name@;
                    assert(old(self).crabs_seq()[w]@.name != crab_name@);
                }
            }
        }
        let snapshot = self.crabs[ci].clone();
        let missing = self.clan_system.get_clan(clan_id).is_none();
        if missing {
            self.clan_system.create_clan(clan_id.clone());
        }
        let ghost mid = self.clan_system;
        self.clan_system.add_member(clan_id, crab_name.clone(), snapshot);
        proof {
            let s0 = old(self).clan_sys().clans_seq();
            let s1 = mid.clans_seq();
            let s2 = self.clan_sys().clans_seq();
            assert(mid.has_clan(clan_id@));
            let wi = choose|wi: int| 0 <= wi < s1.len() && s1[wi].spec_id() == clan_id@;
            assert(s2[wi].spec_id() == clan_id@);
            assert(self.clan_sys().has_clan(clan_id@));
            assert forall|j: int|
                0 <= j < s0.len() && (#[trigger] s0[j]).spec_id() != clan_id@ implies s2[j]
                    == s0[j] by {
                assert(s1[j] == s0[j]);
            }
            assert forall|j: int, l: int|
                #![trigger s2[j].spec_members()[l]]
                (0 <= j < s2.len() && s2[j].spec_id() == clan_id@ && 0 <= l
                    < s2[j].spec_members().len() && s2[j].spec_members()[l].name@ == crab_name@)
                    ==> s2[j].spec_members()[l].crab@ == old(self).crabs_seq()[ci as int]@ by {
                let cl = s2[j];
                if 0 <= j < s2.len() && cl.spec_id() == clan_id@ && 0 <= l
                    < cl.spec_members().len() && cl.spec_members()[l].name@ == crab_name@ {
                    assert(s1[j].spec_id() == clan_id@);
                    let ms_old = s1[j].spec_members();
                    let ms_new = cl.spec_members();
                    if members_have(ms_old, crab_name@) {
                        if ms_old[l].name@ == crab_name@ {
                            assert(ms_new[l].crab == snapshot);
                        } else {
                            assert(ms_new[l] == ms_old[l]);
                            assert(false);
                        }
                    } else {
                        if l < ms_old.len() {
                            assert(ms_new[l] == ms_old[l]);
                            assert(members_have(ms_old, crab_name@));
                            assert(false);
                        } else {
                            assert(ms_new[l] == ms_new.last());
                            assert(ms_new[l].crab == snapshot);
                        }
                    }
                }
            }
        }
    }

    /// Decides the competition between the clans under the two given ids by
    /// mean member speed (truncating integer division): reports the id of
    /// the strictly faster clan, or no winner on a tie. Fails when either id
    /// names no clan, or names an empty clan, whose mean would be undefined.
    pub fn get_winner_clan(&self, id1: &String, id2: &String) -> (r: Result<Option<String>, String>)
        requires
            self.wf(),
        ensures
            r is Err <==> winner_spec(self.clan_sys(), id1@, id2@) is Err,
            winner_spec(self.clan_sys(), id1@, id2@) == Ok::<Option<Seq<char>>, ()>(Some(id1@)) ==> (r matches Ok(Some(w))
                && w@ == id1@),
            winner_spec(self.clan_sys(), id1@, id2@) == Ok::<Option<Seq<char>>, ()>(Some(id2@)) ==> (r matches Ok(Some(w))
                && w@ == id2@),
            winner_spec(self.clan_sys(), id1@, id2@) == Ok::<Option<Seq<char>>, ()>(None) ==> (r matches Ok(w)
                && w is None),
    {
        let c1 = self.clan_system.get_clan(id1);
        let c2 = self.clan_system.get_clan(id2);
        match (c1, c2) {
            (Some(clan1), Some(clan2)) => {
                proof {
                    let cs = self.clan_sys().clans_seq();
                    let w1 = choose|w: int| 0 <= w < cs.len() && *clan1 == cs[w];
                    let w2 = choose|w: int| 0 <= w < cs.len() && *clan2 == cs[w];
                    let v1 = choose|v: int| 0 <= v < cs.len() && cs[v].spec_id() == id1@;
                    let v2 = choose|v: int| 0 <= v < cs.len() && cs[v].spec_id() == id2@;
                    assert(cs[w1].spec_id() == id1@ && cs[w2].spec_id() == id2@);
                    assert(w1 == v1 && w2 == v2);
                    assert(clan_at(cs, id1@) == *clan1);
                    assert(clan_at(cs, id2@) == *clan2);
                }
                let m1 = clan1.member_count();
                let m2 = clan2.member_count();
                if m1 == 0 || m2 == 0 {
                    Err(String::from_str("Clan has no members"))
                } else {
                    let a1 = clan1.total_speed() / (m1 as u128);
                    let a2 = clan2.total_speed() / (m2 as u128);
                    if a1 > a2 {
                        Ok(Some(id1.clone()))
                    } else if a2 > a1 {
                        Ok(Some(id2.clone()))
                    } else {
                        Ok(None)
                    }
                }
            },
            _ => Err(String::from_str("Clan does not exist")),
        }
    }
}

} // verus!
