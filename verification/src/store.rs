//! An in-memory membership store: group lookup, scoped and paginated
//! member listings, and the summary counts the aggregator reads.

use vstd::prelude::*;

use crate::types::member_views;
use crate::types::Error;
use crate::types::Group;
use crate::types::GroupInfo;
use crate::types::GroupView;
use crate::types::Member;
use crate::types::MemberPage;
use crate::types::MemberPageView;
use crate::types::MemberView;
use crate::types::RoleSet;
use crate::types::RoleType;

verus! {

broadcast use vstd::seq_lib::group_filter_ensures;

/// The offset at which a pagination cursor starts a listing: absent means
/// the beginning.
pub open spec fn cursor_of(next: Option<i64>) -> int {
    match next {
        None => 0,
        Some(n) => n as int,
    }
}

/// Whether a scoped query with this role set and scope lists the row `m`.
pub open spec fn listed(m: MemberView, roles: RoleSet, scope: u64) -> bool {
    roles.admits(m.role) && m.visibility <= scope
}

/// Whether `m` is listed and carries exactly the role `role`.
pub open spec fn listed_as(roles: RoleSet, scope: u64, role: RoleType) -> spec_fn(MemberView) -> bool {
    |m: MemberView| m.role == role && listed(m, roles, scope)
}

/// Every row a scoped query lists, admins first, then curators, then plain
/// members; rows of equal role keep their store order.
pub open spec fn scoped_ordered(ms: Seq<MemberView>, roles: RoleSet, scope: u64) -> Seq<MemberView> {
    ms.filter(listed_as(roles, scope, RoleType::Admin))
        + ms.filter(listed_as(roles, scope, RoleType::Curator))
        + ms.filter(listed_as(roles, scope, RoleType::Member))
}

/// The page of the listing `so` that starts at offset `start` and holds up
/// to `size` rows, with the cursor under which the following page can be
/// requested; the cursor is absent on the last page.
pub open spec fn page_view(so: Seq<MemberView>, start: int, size: int) -> MemberPageView
    recommends
        0 <= start,
        1 <= size,
{
    let len = so.len() as int;
    let lo = if start <= len {
        start
    } else {
        len
    };
    let hi = if start + size <= len {
        start + size
    } else {
        len
    };
    MemberPageView {
        members: so.subrange(lo, hi),
        next: if start + size < len && start + size <= i64::MAX as int {
            Some((start + size) as i64)
        } else {
            None
        },
    }
}

/// How many renewal dates fall strictly before `before`; with no bound,
/// all of them.
pub open spec fn renewals_due(dates: Seq<u64>, before: Option<u64>) -> int {
    match before {
        None => dates.len() as int,
        Some(b) => dates.filter(|d: u64| d < b).len() as int,
    }
}

proof fn lemma_filter_push<A>(s: Seq<A>, pred: spec_fn(A) -> bool, x: A)
    ensures
        s.push(x).filter(pred) == if pred(x) {
            s.filter(pred).push(x)
        } else {
            s.filter(pred)
        },
{
    reveal(Seq::filter);
    assert(s.push(x).drop_last() =~= s);
}

/// The first group of `gs` named `name`, if any.
pub open spec fn find_group(gs: Seq<GroupView>, name: Seq<char>) -> Option<GroupView>
    decreases gs.len(),
{
    if gs.len() == 0 {
        None
    } else if gs[0].name == name {
        Some(gs[0])
    } else {
        find_group(gs.subrange(1, gs.len() as int), name)
    }
}

proof fn lemma_find_group_at(gs: Seq<GroupView>, name: Seq<char>, i: int)
    requires
        0 <= i < gs.len(),
        forall|j: int| 0 <= j < i ==> (#[trigger] gs[j].name) != name,
        gs[i].name == name,
    ensures
        find_group(gs, name) == Some(gs[i]),
    decreases i,
{
    if i > 0 {
        let tail = gs.subrange(1, gs.len() as int);
        assert(forall|j: int| 0 <= j < i - 1 ==> (#[trigger] tail[j].name) != name);
        lemma_find_group_at(tail, name, i - 1);
    }
}

proof fn lemma_find_group_absent(gs: Seq<GroupView>, name: Seq<char>)
    ensures
        (find_group(gs, name) is None) <==> (forall|j: int|
            0 <= j < gs.len() ==> (#[trigger] gs[j].name) != name),
    decreases gs.len(),
{
    if gs.len() > 0 {
        let tail = gs.subrange(1, gs.len() as int);
        lemma_find_group_absent(tail, name);
        assert forall|j: int| 1 <= j < gs.len() implies tail[j - 1] == gs[j] by {}
        if gs[0].name != name && (find_group(gs, name) is None) {
            assert forall|j: int| 0 <= j < gs.len() implies (#[trigger] gs[j].name) != name by {
                if j > 0 {
                    assert(tail[j - 1].name != name);
                }
            }
        }
    }
}

/// Appends to `out` a clone of every row of `ms` that the query lists with
/// exactly the role `role`, in store order.
fn collect_role(ms: &Vec<Member>, roles: RoleSet, scope: u64, role: RoleType, out: &mut Vec<Member>)
    ensures
        member_views(final(out)@) == member_views(old(out)@) + member_views(ms@).filter(
            listed_as(roles, scope, role),
        ),
{
    let ghost pred = listed_as(roles, scope, role);
    let ghost all = member_views(ms@);
    proof {
        assert(all.take(0).filter(pred) =~= Seq::<MemberView>::empty());
        assert(member_views(out@) =~= member_views(old(out)@) + all.take(0).filter(pred));
    }
    let n = ms.len();
    let mut i: usize = 0;
    while i < n
        invariant
            n == ms.len(),
            i <= n,
            all == member_views(ms@),
            pred == listed_as(roles, scope, role),
            member_views(out@) == member_views(old(out)@) + all.take(i as int).filter(pred),
        decreases n - i,
    {
        let m = &ms[i];
        proof {
            assert(all[i as int] == m@);
            assert(all.take(i as int + 1) =~= all.take(i as int).push(all[i as int]));
            lemma_filter_push(all.take(i as int), pred, all[i as int]);
        }
        if m.role == role && roles.contains(m.role) && m.visibility <= scope {
            let ghost before = member_views(out@);
            out.push(m.clone());
            proof {
                assert(member_views(out@) =~= before.push(m@));
            }
        }
        i = i + 1;
    }
    proof {
        assert(all.take(n as int) =~= all);
    }
}

/// The membership store: every group record, keyed by its unique name.
pub struct GroupStore {
    groups: Vec<Group>,
}

impl View for GroupStore {
    type V = Seq<GroupView>;

    closed spec fn view(&self) -> Seq<GroupView> {
        self.groups@.map_values(|g: Group| g@)
    }
}

impl GroupStore {
    /// Group names are unique across the store.
    pub open spec fn wf(&self) -> bool {
        forall|i: int, j: int|
            0 <= i < j < self@.len() ==> (#[trigger] self@[i].name) != (#[trigger] self@[j].name)
    }

    /// An empty store.
    pub fn new() -> (s: GroupStore)
        ensures
            s@ == Seq::<GroupView>::empty(),
            s.wf(),
    {
        let s = GroupStore { groups: Vec::new() };
        proof {
            assert(s@ =~= Seq::<GroupView>::empty());
        }
        s
    }

    /// Adds a group record, unless one of its name is already present;
    /// returns whether it was added. Keeps names unique.
    pub fn add_group(&mut self, group: Group) -> (added: bool)
        ensures
            added == (find_group(old(self)@, group@.name) is None),
            added ==> final(self)@ == old(self)@.push(group@),
            !added ==> final(self)@ == old(self)@,
            old(self).wf() ==> final(self).wf(),
    {
        let found = self.find_index(&group.name);
        match found {
            Some(_) => {
                assert(self@ == old(self)@);
                false
            },
            None => {
                let ghost pre = self@;
                let ghost gv = group@;
                self.groups.push(group);
                proof {
                    assert(self@ =~= pre.push(gv));
                    lemma_find_group_absent(pre, gv.name);
                    if old(self).wf() {
                        assert forall|i: int, j: int|
                            0 <= i < j < self@.len() implies (#[trigger] self@[i].name)
                            != (#[trigger] self@[j].name) by {
                            if j < pre.len() {
                                assert(pre[i].name != pre[j].name);
                            } else {
                                assert(pre[i].name != gv.name);
                            }
                        }
                    }
                }
                true
            },
        }
    }

    /// The index of the first group named `name`, if any.
    fn find_index(&self, name: &String) -> (r: Option<usize>)
        ensures
            match r {
                Some(i) => i < self@.len() && find_group(self@, name@) == Some(self@[i as int]),
                None => find_group(self@, name@) is None,
            },
    {
        let n = self.groups.len();
        let mut i: usize = 0;
        while i < n
            invariant
                n == self.groups.len(),
                i <= n,
                self@.len() == n,
                forall|j: int| 0 <= j < i ==> (#[trigger] self@[j].name) != name@,
            decreases n - i,
        {
            if self.groups[i].name == *name {
                proof {
                    lemma_find_group_at(self@, name@, i as int);
                }
                return Some(i);
            }
            i = i + 1;
        }
        proof {
            lemma_find_group_absent(self@, name@);
        }
        None
    }

    /// The total number of membership rows of the named group, with no
    /// scope restriction; fails exactly when the group does not exist.
    pub fn member_count(&self, group_name: &String) -> (r: Result<u64, Error>)
        ensures
            match r {
                Ok(c) => find_group(self@, group_name@) matches Some(g) && c == g.members.len(),
                Err(e) => find_group(self@, group_name@) is None && e == Error::NotFound,
            },
    {
        match self.find_index(group_name) {
            Some(i) => Ok(self.groups[i].members.len() as u64),
            None => Err(Error::NotFound),
        }
    }

    /// The metadata of the named group; fails exactly when the group does
    /// not exist.
    pub fn get_group(&self, group_name: &String) -> (r: Result<GroupInfo, Error>)
        ensures
            match r {
                Ok(info) => find_group(self@, group_name@) matches Some(g) && info@.name == g.name
                    && info@.description == g.description && info@.typ == g.typ,
                Err(e) => find_group(self@, group_name@) is None && e == Error::NotFound,
            },
    {
        match self.find_index(group_name) {
            Some(i) => {
                let g = &self.groups[i];
                Ok(GroupInfo {
                    name: g.name.clone(),
                    description: g.description.clone(),
                    typ: g.typ,
                })
            },
            None => Err(Error::NotFound),
        }
    }

    /// One page of the named group's membership rows, restricted to the
    /// roles of `roles` and to rows visible under `scope`, ordered admins
    /// first, then curators, then plain members. The page holds up to
    /// `page_size` rows and starts at the offset the cursor `next` names;
    /// fails with `NotFound` exactly when the group does not exist, and
    /// with `StoreFailure` exactly when the page size is not positive or
    /// the cursor is negative.
    pub fn scoped_members_and_host(
        &self,
        group_name: &String,
        scope: u64,
        roles: RoleSet,
        page_size: i64,
        next: Option<i64>,
    ) -> (r: Result<MemberPage, Error>)
        ensures
            match r {
                Ok(page) => find_group(self@, group_name@) matches Some(g) && page_size >= 1
                    && cursor_of(next) >= 0 && page@ == page_view(
                    scoped_ordered(g.members, roles, scope),
                    cursor_of(next),
                    page_size as int,
                ),
                Err(e) => if find_group(self@, group_name@) is None {
                    e == Error::NotFound
                } else {
                    e == Error::StoreFailure && (page_size < 1 || cursor_of(next) < 0)
                },
            },
    {
        let i = match self.find_index(group_name) {
            Some(i) => i,
            None => {
                return Err(Error::NotFound);
            },
        };
        if page_size < 1 {
            return Err(Error::StoreFailure);
        }
        let start_cursor: i64 = match next {
            Some(n) => n,
            None => 0,
        };
        if start_cursor < 0 {
            return Err(Error::StoreFailure);
        }
        let g = &self.groups[i];
        let ghost gv = self@[i as int];
        let ghost so = scoped_ordered(gv.members, roles, scope);
        let mut ordered: Vec<Member> = Vec::new();
        collect_role(&g.members, roles, scope, RoleType::Admin, &mut ordered);
        collect_role(&g.members, roles, scope, RoleType::Curator, &mut ordered);
        collect_role(&g.members, roles, scope, RoleType::Member, &mut ordered);
        proof {
            assert(gv.members == member_views(g.members@));
            assert(member_views(ordered@) =~= so);
        }
        let len: usize = ordered.len();
        let len64: u64 = len as u64;
        let start: u64 = start_cursor as u64;
        let size: u64 = page_size as u64;
        let end64: u64 = start + size;
        let lo: usize = if start <= len64 {
            start as usize
        } else {
            len
        };
        let hi: usize = if end64 <= len64 {
            end64 as usize
        } else {
            len
        };
        let next_out: Option<i64> = if end64 < len64 && end64 <= i64::MAX as u64 {
            Some(end64 as i64)
        } else {
            None
        };
        let mut page: Vec<Member> = Vec::new();
        proof {
            assert(member_views(page@) =~= member_views(ordered@).subrange(lo as int, lo as int));
        }
        let mut k: usize = lo;
        while k < hi
            invariant
                lo <= k <= hi <= ordered.len(),
                so == member_views(ordered@),
                member_views(page@) == so.subrange(lo as int, k as int),
            decreases hi - k,
        {
            let ghost before = member_views(page@);
            page.push(ordered[k].clone());
            proof {
                assert(member_views(page@) =~= before.push(member_views(ordered@)[k as int]));
                assert(member_views(page@) =~= so.subrange(lo as int, k as int + 1));
            }
            k = k + 1;
        }
        let result = MemberPage { members: page, next: next_out };
        proof {
            let pv = page_view(so, cursor_of(next), page_size as int);
            assert(result@.members == pv.members);
            assert(result@.next == pv.next);
        }
        Ok(result)
    }

    /// The count of pending invitations of the named group; fails exactly
    /// when the group does not exist.
    pub fn pending_invitations_count(&self, group_name: &String) -> (r: Result<u64, Error>)
        ensures
            match r {
                Ok(c) => find_group(self@, group_name@) matches Some(g) && c
                    == g.invitation_count,
                Err(e) => find_group(self@, group_name@) is None && e == Error::NotFound,
            },
    {
        match self.find_index(group_name) {
            Some(i) => Ok(self.groups[i].invitation_count),
            None => Err(Error::NotFound),
        }
    }

    /// How many of the named group's memberships fall due for renewal
    /// strictly before the day `before`, or all of them when no bound is
    /// given; fails exactly when the group does not exist.
    pub fn renewal_count(&self, group_name: &String, before: Option<u64>) -> (r: Result<
        u64,
        Error,
    >)
        ensures
            match r {
                Ok(c) => find_group(self@, group_name@) matches Some(g) && c == renewals_due(
                    g.renewal_dates,
                    before,
                ),
                Err(e) => find_group(self@, group_name@) is None && e == Error::NotFound,
            },
    {
        let i = match self.find_index(group_name) {
            Some(i) => i,
            None => {
                return Err(Error::NotFound);
            },
        };
        let g = &self.groups[i];
        match before {
            None => Ok(g.renewal_dates.len() as u64),
            Some(b) => {
                let ghost pred = |d: u64| d < b;
                let ghost dates = g.renewal_dates@;
                let n = g.renewal_dates.len();
                let mut c: u64 = 0;
                let mut k: usize = 0;
                proof {
                    assert(dates.take(0).filter(pred) =~= Seq::<u64>::empty());
                }
                while k < n
                    invariant
                        k <= n,
                        n == g.renewal_dates.len(),
                        dates == g.renewal_dates@,
                        pred == (|d: u64| d < b),
                        c == dates.take(k as int).filter(pred).len(),
                        c <= k,
                    decreases n - k,
                {
                    proof {
                        assert(dates.take(k as int + 1) =~= dates.take(k as int).push(
                            dates[k as int],
                        ));
                        lemma_filter_push(dates.take(k as int), pred, dates[k as int]);
                    }
                    if g.renewal_dates[k] < b {
                        c = c + 1;
                    }
                    k = k + 1;
                }
                proof {
                    assert(dates.take(n as int) =~= dates);
                }
                Ok(c)
            },
        }
    }
}

} // verus!
