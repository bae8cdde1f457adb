//! The details endpoint: one aggregation that combines a group lookup,
//! two scoped membership pages and three counts into a single response.

use vstd::prelude::*;

use crate::store::cursor_of;
use crate::store::find_group;
use crate::store::page_view;
use crate::store::renewals_due;
use crate::store::scoped_ordered;
use crate::store::GroupStore;
use crate::types::DisplayGroupDetails;
use crate::types::DisplayGroupDetailsView;
use crate::types::Error;
use crate::types::GetMembersQuery;
use crate::types::GroupInfoView;
use crate::types::GroupView;
use crate::types::MemberView;
use crate::types::RoleSet;
use crate::types::RoleType;

verus! {

broadcast use vstd::seq_lib::group_filter_ensures;

/// The page size a request asks for: 20 when it names none.
pub open spec fn effective_page_size(size: Option<i64>) -> int {
    match size {
        None => 20,
        Some(s) => s as int,
    }
}

/// What a details request returns, as a function of the store's contents
/// and the request: the group's metadata, one page of its staff starting
/// at the cursor, one page of its whole membership starting at the
/// beginning, and the three summary counts. `NotFound` when no group has
/// the requested name, whatever the other parameters; `StoreFailure` when
/// the page size is not positive or the cursor is negative.
pub open spec fn details_spec(
    gs: Seq<GroupView>,
    name: Seq<char>,
    scope: u64,
    size: Option<i64>,
    next: Option<i64>,
) -> Result<DisplayGroupDetailsView, Error> {
    let page_size = effective_page_size(size);
    match find_group(gs, name) {
        None => Err(Error::NotFound),
        Some(g) => if page_size < 1 || cursor_of(next) < 0 {
            Err(Error::StoreFailure)
        } else {
            Ok(
                DisplayGroupDetailsView {
                    group: GroupInfoView {
                        name: g.name,
                        description: g.description,
                        typ: g.typ,
                    },
                    members: page_view(
                        scoped_ordered(g.members, RoleSet::Everyone, scope),
                        0,
                        page_size,
                    ),
                    curators: page_view(
                        scoped_ordered(g.members, RoleSet::Staff, scope),
                        cursor_of(next),
                        page_size,
                    ),
                    member_count: g.members.len() as u64,
                    invitation_count: g.invitation_count,
                    renewal_count: renewals_due(g.renewal_dates, None) as u64,
                },
            )
        },
    }
}

/// The view of an aggregation result.
pub open spec fn result_view(r: Result<DisplayGroupDetails, Error>) -> Result<
    DisplayGroupDetailsView,
    Error,
> {
    match r {
        Ok(d) => Ok(d@),
        Err(e) => Err(e),
    }
}

/// Aggregates the named group's details for display: its metadata, one
/// page of curators (admins and curators, starting at the request's
/// cursor), one page of members (all roles, always from the beginning),
/// and the member, pending-invitation and renewal counts, every listing
/// restricted to rows visible under `scope`. The page size defaults to 20.
/// Any failure of the member count, like a failed group lookup, surfaces
/// as `NotFound`; a later query step that fails short-circuits the rest
/// and its error is returned unchanged.
pub fn group_details(
    store: &GroupStore,
    group_name: &String,
    scope: u64,
    query: &GetMembersQuery,
) -> (r: Result<DisplayGroupDetails, Error>)
    ensures
        result_view(r) == details_spec(store@, group_name@, scope, query.size, query.next),
{
    let page_size: i64 = match query.size {
        Some(s) => s,
        None => 20,
    };
    let member_count = match store.member_count(group_name) {
        Ok(c) => c,
        Err(_) => {
            return Err(Error::NotFound);
        },
    };
    let group = match store.get_group(group_name) {
        Ok(g) => g,
        Err(e) => {
            return Err(e);
        },
    };
    let curators = match store.scoped_members_and_host(
        group_name,
        scope,
        RoleSet::Staff,
        page_size,
        query.next,
    ) {
        Ok(p) => p,
        Err(e) => {
            return Err(e);
        },
    };
    let members = match store.scoped_members_and_host(
        group_name,
        scope,
        RoleSet::Everyone,
        page_size,
        None,
    ) {
        Ok(p) => p,
        Err(e) => {
            return Err(e);
        },
    };
    let invitation_count = match store.pending_invitations_count(group_name) {
        Ok(c) => c,
        Err(e) => {
            return Err(e);
        },
    };
    let renewal_count = match store.renewal_count(group_name, None) {
        Ok(c) => c,
        Err(e) => {
            return Err(e);
        },
    };
    Ok(
        DisplayGroupDetails {
            group,
            members,
            curators,
            member_count,
            invitation_count,
            renewal_count,
        },
    )
}

/// A request for a group that does not exist fails with `NotFound`,
/// whatever the scope and pagination parameters.
pub proof fn lemma_missing_group_not_found(
    gs: Seq<GroupView>,
    name: Seq<char>,
    scope: u64,
    size: Option<i64>,
    next: Option<i64>,
)
    requires
        find_group(gs, name) is None,
    ensures
        details_spec(gs, name, scope, size, next) == Err::<DisplayGroupDetailsView, Error>(
            Error::NotFound,
        ),
{
}

/// A request that names no page size behaves exactly as one that asks for
/// the default page size of 20.
pub proof fn lemma_default_page_size(
    gs: Seq<GroupView>,
    name: Seq<char>,
    scope: u64,
    next: Option<i64>,
)
    ensures
        details_spec(gs, name, scope, None, next) == details_spec(gs, name, scope, Some(20), next),
{
}

/// Identical requests against an unchanged store yield identical results.
pub proof fn lemma_idempotent(
    gs: Seq<GroupView>,
    name: Seq<char>,
    scope: u64,
    size: Option<i64>,
    next: Option<i64>,
    r1: Result<DisplayGroupDetails, Error>,
    r2: Result<DisplayGroupDetails, Error>,
)
    requires
        result_view(r1) == details_spec(gs, name, scope, size, next),
        result_view(r2) == details_spec(gs, name, scope, size, next),
    ensures
        result_view(r1) == result_view(r2),
{
}

/// A group with no membership rows yields a zero member count and empty
/// curator and member listings.
pub proof fn lemma_zero_members(
    gs: Seq<GroupView>,
    name: Seq<char>,
    scope: u64,
    size: Option<i64>,
    next: Option<i64>,
    d: DisplayGroupDetailsView,
)
    requires
        details_spec(gs, name, scope, size, next) == Ok::<DisplayGroupDetailsView, Error>(d),
        find_group(gs, name) matches Some(g) && g.members.len() == 0,
    ensures
        d.member_count == 0,
        d.members.members == Seq::<MemberView>::empty(),
        d.curators.members == Seq::<MemberView>::empty(),
{
    let g = find_group(gs, name).unwrap();
    assert(scoped_ordered(g.members, RoleSet::Everyone, scope).len() == 0);
    assert(scoped_ordered(g.members, RoleSet::Staff, scope).len() == 0);
    assert(d.members.members =~= Seq::<MemberView>::empty());
    assert(d.curators.members =~= Seq::<MemberView>::empty());
}

/// Two consecutive curator pages, the second requested with the cursor the
/// first returned, split the staff listing with no gap and no overlap;
/// when the listing fits in two pages they cover it exactly once.
pub proof fn lemma_curator_pages(
    gs: Seq<GroupView>,
    name: Seq<char>,
    scope: u64,
    size: Option<i64>,
    k: i64,
    d1: DisplayGroupDetailsView,
    d2: DisplayGroupDetailsView,
)
    requires
        details_spec(gs, name, scope, size, None) == Ok::<DisplayGroupDetailsView, Error>(d1),
        d1.curators.next == Some(k),
        details_spec(gs, name, scope, size, Some(k)) == Ok::<DisplayGroupDetailsView, Error>(d2),
    ensures
        ({
            let g = find_group(gs, name).unwrap();
            let so = scoped_ordered(g.members, RoleSet::Staff, scope);
            let ps = effective_page_size(size);
            &&& d1.curators.members.len() == ps
            &&& d1.curators.members + d2.curators.members == so.subrange(
                0,
                if 2 * ps <= so.len() {
                    2 * ps
                } else {
                    so.len() as int
                },
            )
            &&& so.len() <= 2 * ps ==> d1.curators.members + d2.curators.members == so
        }),
{
    let g = find_group(gs, name).unwrap();
    let so = scoped_ordered(g.members, RoleSet::Staff, scope);
    let ps = effective_page_size(size);
    let len = so.len() as int;
    assert(d1.curators == page_view(so, 0, ps));
    assert(ps < len && k as int == ps);
    assert(d2.curators == page_view(so, ps, ps));
    let hi = if 2 * ps <= len {
        2 * ps
    } else {
        len
    };
    assert(d1.curators.members + d2.curators.members =~= so.subrange(0, hi));
    if len <= 2 * ps {
        assert(so.subrange(0, hi) =~= so);
    }
}

/// Every curator entry carries a staff role, and every member entry one of
/// the three roles.
pub proof fn lemma_role_filter(
    gs: Seq<GroupView>,
    name: Seq<char>,
    scope: u64,
    size: Option<i64>,
    next: Option<i64>,
    d: DisplayGroupDetailsView,
)
    requires
        details_spec(gs, name, scope, size, next) == Ok::<DisplayGroupDetailsView, Error>(d),
    ensures
        forall|i: int|
            0 <= i < d.curators.members.len() ==> ((#[trigger] d.curators.members[i].role)
                == RoleType::Admin || d.curators.members[i].role == RoleType::Curator),
        forall|i: int|
            0 <= i < d.members.members.len() ==> ((#[trigger] d.members.members[i].role)
                == RoleType::Admin || d.members.members[i].role == RoleType::Curator
                || d.members.members[i].role == RoleType::Member),
{
    let g = find_group(gs, name).unwrap();
    assert forall|i: int|
        0 <= i < d.curators.members.len() implies ((#[trigger] d.curators.members[i].role)
        == RoleType::Admin || d.curators.members[i].role == RoleType::Curator) by {
        lemma_listing_roles(g.members, RoleSet::Staff, scope, cursor_of(next),
            effective_page_size(size), i);
    }
}

/// Every row of a page of a scoped listing satisfies the query's filter:
/// it carries a role the role set admits and is visible under the scope.
proof fn lemma_listing_roles(
    ms: Seq<MemberView>,
    roles: RoleSet,
    scope: u64,
    start: int,
    psize: int,
    i: int,
)
    requires
        0 <= start,
        1 <= psize,
        0 <= i < page_view(scoped_ordered(ms, roles, scope), start, psize).members.len(),
    ensures
        ({
            let m = page_view(scoped_ordered(ms, roles, scope), start, psize).members[i];
            roles.admits(m.role) && m.visibility <= scope
        }),
{
    let so = scoped_ordered(ms, roles, scope);
    let page = page_view(so, start, psize).members;
    let fa = ms.filter(crate::store::listed_as(roles, scope, RoleType::Admin));
    let fc = ms.filter(crate::store::listed_as(roles, scope, RoleType::Curator));
    let fm = ms.filter(crate::store::listed_as(roles, scope, RoleType::Member));
    let len = so.len() as int;
    let lo = if start <= len {
        start
    } else {
        len
    };
    let j = lo + i;
    assert(page[i] == so[j]);
    if j < fa.len() {
        assert(so[j] == fa[j]);
    } else if j < fa.len() + fc.len() {
        assert(so[j] == fc[j - fa.len()]);
    } else {
        assert(so[j] == fm[j - fa.len() - fc.len()]);
    }
}

} // verus!
