//! Clans: named groups of crab snapshots, tracked independently of the live
//! crabs they were copied from.
//!
//! The system keeps its clans in creation order, each clan its members in
//! insertion order, with ids unique across clans and member names unique
//! within a clan (the well-formedness below). A member's crab is a snapshot:
//! a value copied in when the member was added, never updated afterwards.

use vstd::prelude::*;
use crate::crab::Crab;

verus! {

/// One clan member: the name it is filed under, and the crab snapshot that
/// was stored for it.
pub struct Member {
    pub name: String,
    pub crab: Crab,
}

/// A named clan and its members.
pub struct Clan {
    id: String,
    members: Vec<Member>,
}

impl Clan {
    /// This clan's id.
    pub closed spec fn spec_id(self) -> Seq<char> {
        self.id@
    }

    /// This clan's members, in insertion order.
    pub closed spec fn spec_members(self) -> Seq<Member> {
        self.members@
    }

    /// Member names are unique within the clan.
    pub open spec fn wf(self) -> bool {
        forall|i: int, j: int|
            0 <= i < j < self.spec_members().len() ==> self.spec_members()[i].name@
                != self.spec_members()[j].name@
    }

    /// This clan's id.
    pub fn id(&self) -> (r: &String)
        ensures
            r@ == self.spec_id(),
    {
        &self.id
    }

    /// How many members the clan has.
    pub fn member_count(&self) -> (n: usize)
        ensures
            n == self.spec_members().len(),
    {
        self.members.len()
    }

    /// The crab snapshot stored under the given member name, if any.
    pub fn get_member(&self, name: &String) -> (r: Option<&Crab>)
        ensures
            r is Some <==> exists|k: int|
                0 <= k < self.spec_members().len() && self.spec_members()[k].name@ == name@,
            r matches Some(c) ==> exists|k: int|
                0 <= k < self.spec_members().len() && self.spec_members()[k].name@ == name@
                    && *c == self.spec_members()[k].crab,
    {
        let n = self.members.len();
        let mut k: usize = 0;
        while k < n
            invariant
                k <= n,
                n == self.spec_members().len(),
                forall|l: int| 0 <= l < k ==> self.spec_members()[l].name@ != name@,
            decreases n - k,
        {
            if self.members[k].name == *name {
                return Some(&self.members[k].crab);
            }
            k = k + 1;
        }
        None
    }

    /// The sum of the member crabs' speeds. Wide enough that it cannot
    /// overflow: at most `usize::MAX` members, each with a speed below
    /// 2^32.
    pub fn total_speed(&self) -> (t: u128)
        ensures
            t as int == sum_speeds(self.spec_members()),
    {
        let m = self.members.len();
        let mut total: u128 = 0;
        let mut k: usize = 0;
        while k < m
            invariant
                k <= m,
                m == self.spec_members().len(),
                total as int == sum_speeds(self.spec_members().take(k as int)),
                total as int <= (k as int) * 0xffff_ffff,
            decreases m - k,
        {
            let sp = self.members[k].crab.speed();
            proof {
                let pre = self.spec_members().take(k as int);
                let post = self.spec_members().take(k as int + 1);
                assert(post.drop_last() =~= pre);
                assert(post.last() == self.spec_members()[k as int]);
                assert((k as int + 1) * 0xffff_ffff == (k as int) * 0xffff_ffff + 0xffff_ffff);
                assert(k as int + 1 <= usize::MAX as int + 1);
            }
            total = total + (sp as u128);
            k = k + 1;
        }
        proof {
            assert(self.spec_members().take(m as int) =~= self.spec_members());
        }
        total
    }
}

/// Whether some member of `ms` is filed under `name`.
pub open spec fn members_have(ms: Seq<Member>, name: Seq<char>) -> bool {
    exists|k: int| 0 <= k < ms.len() && ms[k].name@ == name
}

/// The sum of the speeds of the crabs filed in `ms`.
pub open spec fn sum_speeds(ms: Seq<Member>) -> int
    decreases ms.len(),
{
    if ms.len() == 0 {
        0
    } else {
        sum_speeds(ms.drop_last()) + ms.last().crab@.speed
    }
}

/// The owner of all clans, keyed by clan id.
pub struct ClanSystem {
    clans: Vec<Clan>,
}

impl ClanSystem {
    /// The clans, in creation order.
    pub closed spec fn clans_seq(self) -> Seq<Clan> {
        self.clans@
    }

    /// Clan ids are unique, and each clan is well formed.
    pub open spec fn wf(self) -> bool {
        &&& forall|i: int, j: int|
            0 <= i < j < self.clans_seq().len() ==> self.clans_seq()[i].spec_id()
                != self.clans_seq()[j].spec_id()
        &&& forall|i: int|
            0 <= i < self.clans_seq().len() ==> (#[trigger] self.clans_seq()[i]).wf()
    }

    /// Whether a clan with the given id exists.
    pub open spec fn has_clan(self, id: Seq<char>) -> bool {
        exists|i: int| 0 <= i < self.clans_seq().len() && self.clans_seq()[i].spec_id() == id
    }

    /// An empty clan system.
    pub fn new() -> (s: ClanSystem)
        ensures
            s.clans_seq().len() == 0,
            s.wf(),
    {
        ClanSystem { clans: Vec::new() }
    }

    /// Inserts an empty clan at the given id. An existing clan under that id
    /// is replaced by the empty one — creation doubles as a reset. Every
    /// other clan is unchanged.
    pub fn create_clan(&mut self, clan_id: String)
        requires
            old(self).wf(),
        ensures
            final(self).wf(),
            final(self).has_clan(clan_id@),
            old(self).has_clan(clan_id@) ==> {
                &&& final(self).clans_seq().len() == old(self).clans_seq().len()
                &&& forall|j: int|
                    0 <= j < old(self).clans_seq().len() && old(self).clans_seq()[j].spec_id()
                        != clan_id@ ==> final(self).clans_seq()[j] == old(self).clans_seq()[j]
                &&& forall|j: int|
                    0 <= j < old(self).clans_seq().len() && old(self).clans_seq()[j].spec_id()
                        == clan_id@ ==> (#[trigger] final(self).clans_seq()[j]).spec_id()
                        == clan_id@ && final(self).clans_seq()[j].spec_members().len() == 0
            },
            !old(self).has_clan(clan_id@) ==> {
                &&& final(self).clans_seq().len() == old(self).clans_seq().len() + 1
                &&& forall|j: int|
                    0 <= j < old(self).clans_seq().len() ==> final(self).clans_seq()[j] == old(
                        self,
                    ).clans_seq()[j]
                &&& final(self).clans_seq().last().spec_id() == clan_id@
                &&& final(self).clans_seq().last().spec_members().len() == 0
            },
    {
        let n = self.clans.len();
        let mut i: usize = 0;
        while i < n
            invariant
                i <= n,
                n == self.clans_seq().len(),
                self == old(self),
                old(self).wf(),
                forall|j: int| 0 <= j < i ==> self.clans_seq()[j].spec_id() != clan_id@,
            decreases n - i,
        {
            if *self.clans[i].id() == clan_id {
                proof {
                    assert(self.clans_seq()[i as int].spec_id() == clan_id@);
                }
                self.clans.set(i, Clan { id: clan_id, members: Vec::new() });
                proof {
                    let s0 = old(self).clans_seq();
                    assert(s0[i as int].spec_id() == clan_id@);
                    let s1 = self.clans_seq();
                    assert(s1 == s0.update(i as int, s1[i as int]));
                    assert(s1[i as int].spec_id() == clan_id@);
                    assert forall|a: int, b: int| 0 <= a < b < s1.len() implies s1[a].spec_id()
                        != s1[b].spec_id() by {
                        assert(s1[a].spec_id() == s0[a].spec_id());
                        assert(s1[b].spec_id() == s0[b].spec_id());
                        assert(s0[a].spec_id() != s0[b].spec_id());
                    }
                }
                return ;
            }
            i = i + 1;
        }
        self.clans.push(Clan { id: clan_id, members: Vec::new() });
        proof {
            let s0 = old(self).clans_seq();
            let s1 = self.clans_seq();
            assert(s1 == s0.push(s1.last()));
            assert(s1.last().spec_id() == clan_id@);
            assert forall|a: int, b: int| 0 <= a < b < s1.len() implies s1[a].spec_id()
                != s1[b].spec_id() by {
                if b < s0.len() {
                    assert(s1[a] == s0[a] && s1[b] == s0[b]);
                } else {
                    assert(s1[a] == s0[a]);
                    assert(s0[a].spec_id() != clan_id@);
                }
            }
        }
    }

    /// Files a crab snapshot in the clan with the given id, under the given
    /// member name. The clan must already exist. A member already filed
    /// under that name is overwritten in place; otherwise the new member is
    /// appended. Every other clan is unchanged.
    pub fn add_member(&mut self, clan_id: &String, member_name: String, crab: Crab)
        requires
            old(self).wf(),
            old(self).has_clan(clan_id@),
        ensures
            final(self).wf(),
            final(self).clans_seq().len() == old(self).clans_seq().len(),
            forall|j: int|
                0 <= j < old(self).clans_seq().len() && old(self).clans_seq()[j].spec_id()
                    != clan_id@ ==> final(self).clans_seq()[j] == old(self).clans_seq()[j],
            forall|j: int|
                0 <= j < old(self).clans_seq().len() && old(self).clans_seq()[j].spec_id()
                    == clan_id@ ==> {
                    let ms_old = old(self).clans_seq()[j].spec_members();
                    let ms_new = (#[trigger] final(self).clans_seq()[j]).spec_members();
                    &&& final(self).clans_seq()[j].spec_id() == clan_id@
                    &&& members_have(ms_new, member_name@)
                    &&& (members_have(ms_old, member_name@) ==> {
                        &&& ms_new.len() == ms_old.len()
                        &&& forall|l: int|
                            0 <= l < ms_old.len() && ms_old[l].name@ != member_name@
                                ==> ms_new[l] == ms_old[l]
                        &&& forall|l: int|
                            0 <= l < ms_old.len() && ms_old[l].name@ == member_name@ ==> (
                            #[trigger] ms_new[l]).name@ == member_name@ && ms_new[l].crab == crab
                    })
                    &&& (!members_have(ms_old, member_name@) ==> {
                        &&& ms_new.len() == ms_old.len() + 1
                        &&& forall|l: int| 0 <= l < ms_old.len() ==> ms_new[l] == ms_old[l]
                        &&& ms_new.last().name@ == member_name@
                        &&& ms_new.last().crab == crab
                    })
                },
    {
        let n = self.clans.len();
        let mut i: usize = 0;
        while i < n
            invariant
                i <= n,
                n == self.clans_seq().len(),
                self == old(self),
                old(self).has_clan(clan_id@),
                forall|j: int| 0 <= j < i ==> self.clans_seq()[j].spec_id() != clan_id@,
            ensures
                i <= n,
                n == self.clans_seq().len(),
                self == old(self),
                forall|j: int| 0 <= j < i ==> self.clans_seq()[j].spec_id() != clan_id@,
                i < n ==> self.clans_seq()[i as int].spec_id() == clan_id@,
            decreases n - i,
        {
            if *self.clans[i].id() == *clan_id {
                break ;
            }
            i = i + 1;
        }
        proof {
            assert(i < n) by {
                if i == n {
                    let w = choose|w: int|
                        0 <= w < old(self).clans_seq().len() && old(self).clans_seq()[w].spec_id()
                            == clan_id@;
                    assert(old(self).clans_seq()[w].spec_id() != clan_id@);
                }
            }
        }
        let ghost s0 = old(self).clans_seq();
        let ghost ms0 = s0[i as int].spec_members();
        let mut clan = self.clans.remove(i);
        let m = clan.members.len();
        let mut k: usize = 0;
        let mut name_found = false;
        while k < m && !name_found
            invariant
                k <= m,
                m == ms0.len(),
                ms0 == clan.spec_members(),
                clan == s0[i as int],
                (i as int) < s0.len(),
                forall|l: int| 0 <= l < k ==> ms0[l].name@ != member_name@,
                name_found ==> k < m && ms0[k as int].name@ == member_name@,
            decreases m - k + (if name_found { 0int } else { 1int }),
        {
            if clan.members[k].name == member_name {
                name_found = true;
            } else {
                k = k + 1;
            }
        }
        if name_found {
            clan.members.set(k, Member { name: member_name, crab });
        } else {
            clan.members.push(Member { name: member_name, crab });
        }
        self.clans.insert(i, clan);
        proof {
            let s1 = self.clans_seq();
            let ii = i as int;
            assert(s1 =~= s0.update(ii, s1[ii]));
            let ms1 = s1[ii].spec_members();
            assert(s1[ii].spec_id() == clan_id@);
            if name_found {
                assert(ms1 == ms0.update(k as int, Member { name: member_name, crab }));
                assert(ms1[k as int].name@ == member_name@);
                assert(members_have(ms1, member_name@));
            } else {
                assert(ms1 == ms0.push(Member { name: member_name, crab }));
                assert(ms1[ms0.len() as int].name@ == member_name@);
                assert(members_have(ms1, member_name@));
                assert(!members_have(ms0, member_name@)) by {
                    if members_have(ms0, member_name@) {
                        let w = choose|w: int|
                            0 <= w < ms0.len() && ms0[w].name@ == member_name@;
                        assert(ms0[w].name@ != member_name@);
                    }
                }
            }
            // the touched clan stays well formed
            assert forall|a: int, b: int| 0 <= a < b < ms1.len() implies ms1[a].name@
                != ms1[b].name@ by {
                assert(s0[ii].wf());
                if name_found {
                    assert(ms0[a].name@ != ms0[b].name@);
                } else {
                    if b < ms0.len() {
                        assert(ms0[a].name@ != ms0[b].name@);
                    } else {
                        assert(ms1[a] == ms0[a]);
                        assert(ms0[a].name@ != member_name@);
                    }
                }
            }
            // uniqueness of ids is untouched
            assert forall|a: int, b: int| 0 <= a < b < s1.len() implies s1[a].spec_id()
                != s1[b].spec_id() by {
                assert(s1[a].spec_id() == s0[a].spec_id());
                assert(s1[b].spec_id() == s0[b].spec_id());
                assert(s0[a].spec_id() != s0[b].spec_id());
            }
            // only position i carries the target id
            assert forall|j: int|
                0 <= j < s0.len() && s0[j].spec_id() == clan_id@ implies j == ii by {
                if j != ii {
                    assert(s0[ii].spec_id() == clan_id@);
                }
            }
        }
    }

    /// The clan with the given id, if any.
    pub fn get_clan(&self, clan_id: &String) -> (r: Option<&Clan>)
        ensures
            r is Some <==> self.has_clan(clan_id@),
            r matches Some(c) ==> c.spec_id() == clan_id@ && exists|i: int|
                0 <= i < self.clans_seq().len() && *c == self.clans_seq()[i],
    {
        let n = self.clans.len();
        let mut i: usize = 0;
        while i < n
            invariant
                i <= n,
                n == self.clans_seq().len(),
                forall|j: int| 0 <= j < i ==> self.clans_seq()[j].spec_id() != clan_id@,
            decreases n - i,
        {
            if *self.clans[i].id() == *clan_id {
                return Some(&self.clans[i]);
            }
            i = i + 1;
        }
        None
    }

    /// The names of the members of the clan with the given id, in insertion
    /// order, or an empty list when no such clan exists.
    pub fn get_clan_member_names(&self, clan_id: &String) -> (r: Vec<String>)
        requires
            self.wf(),
        ensures
            !self.has_clan(clan_id@) ==> r@.len() == 0,
            forall|i: int|
                0 <= i < self.clans_seq().len() && (#[trigger] self.clans_seq()[i]).spec_id()
                    == clan_id@ ==> {
                    let ms = self.clans_seq()[i].spec_members();
                    &&& r@.len() == ms.len()
                    &&& forall|l: int| 0 <= l < ms.len() ==> (#[trigger] r@[l])@ == ms[l].name@
                },
    {
        let found = self.get_clan(clan_id);
        match found {
            None => Vec::new(),
            Some(clan) => {
                let m = clan.members.len();
                let mut names: Vec<String> = Vec::new();
                let mut k: usize = 0;
                while k < m
                    invariant
                        k <= m,
                        m == clan.spec_members().len(),
                        names@.len() == k,
                        forall|l: int|
                            0 <= l < k ==> (#[trigger] names@[l])@ == clan.spec_members()[l].name@,
                    decreases m - k,
                {
                    names.push(clan.members[k].name.clone());
                    k = k + 1;
                }
                proof {
                    assert forall|i: int|
                        0 <= i < self.clans_seq().len() && (#[trigger] self.clans_seq()[i]).spec_id() == clan_id@ implies self.clans_seq()[i] == *clan by {
                        let w = choose|w: int|
                            0 <= w < self.clans_seq().len() && *clan == self.clans_seq()[w];
                        assert(self.clans_seq()[w].spec_id() == clan_id@);
                        assert(w == i);
                    }
                }
                names
            },
        }
    }

    /// How many clans exist.
    pub fn get_clan_count(&self) -> (n: usize)
        ensures
            n == self.clans_seq().len(),
    {
        self.clans.len()
    }

    /// How many members the clan with the given id has; 0 when no such clan
    /// exists.
    pub fn get_clan_member_count(&self, clan_id: &String) -> (n: usize)
        requires
            self.wf(),
        ensures
            !self.has_clan(clan_id@) ==> n == 0,
            forall|i: int|
                0 <= i < self.clans_seq().len() && (#[trigger] self.clans_seq()[i]).spec_id()
                    == clan_id@ ==> n == self.clans_seq()[i].spec_members().len(),
    {
        let found = self.get_clan(clan_id);
        match found {
            None => 0,
            Some(clan) => {
                proof {
                    assert forall|i: int|
                        0 <= i < self.clans_seq().len() && (#[trigger] self.clans_seq()[i]).spec_id() == clan_id@ implies self.clans_seq()[i] == *clan by {
                        let w = choose|w: int|
                            0 <= w < self.clans_seq().len() && *clan == self.clans_seq()[w];
                        assert(self.clans_seq()[w].spec_id() == clan_id@);
                        assert(w == i);
                    }
                }
                clan.member_count()
            },
        }
    }

    /// The id of the clan with strictly the most members. Among clans tying
    /// for the most members the earliest created wins. Reports `None` when
    /// there are no clans or every clan is empty.
    pub fn get_largest_clan_id(&self) -> (r: Option<String>)
        ensures
            r is None <==> forall|i: int|
                0 <= i < self.clans_seq().len() ==> (#[trigger] self.clans_seq()[i]).spec_members().len() == 0,
            r matches Some(id) ==> exists|i: int|
                {
                    &&& 0 <= i < self.clans_seq().len()
                    &&& (#[trigger] self.clans_seq()[i]).spec_id() == id@
                    &&& self.clans_seq()[i].spec_members().len() > 0
                    &&& forall|j: int|
                        0 <= j < i ==> (#[trigger] self.clans_seq()[j]).spec_members().len()
                            < self.clans_seq()[i].spec_members().len()
                    &&& forall|j: int|
                        i <= j < self.clans_seq().len() ==> (#[trigger] self.clans_seq()[j]).spec_members().len() <= self.clans_seq()[i].spec_members().len()
                },
    {
        let n = self.clans.len();
        let mut best_idx: usize = 0;
        let mut best_size: usize = 0;
        let mut found = false;
        let mut i: usize = 0;
        while i < n
            invariant
                i <= n,
                n == self.clans_seq().len(),
                !found ==> best_size == 0 && forall|j: int|
                    0 <= j < i ==> (#[trigger] self.clans_seq()[j]).spec_members().len() == 0,
                found ==> {
                    &&& (best_idx as int) < i
                    &&& best_size == self.clans_seq()[best_idx as int].spec_members().len()
                    &&& best_size > 0
                    &&& forall|j: int|
                        0 <= j < best_idx ==> (#[trigger] self.clans_seq()[j]).spec_members().len() < best_size
                    &&& forall|j: int|
                        best_idx <= j < i ==> (#[trigger] self.clans_seq()[j]).spec_members().len() <= best_size
                },
            decreases n - i,
        {
            let size = self.clans[i].member_count();
            if size > best_size {
                best_size = size;
                best_idx = i;
                found = true;
            }
            i = i + 1;
        }
        if found {
            Some(self.clans[best_idx].id().clone())
        } else {
            None
        }
    }
}

} // verus!
