//! The data model: roles, groups, members, the request query, and the
//! response aggregate, together with their mathematical views.

use vstd::prelude::*;

verus! {

/// A member's standing within a group.
#[derive(Clone, Copy, Debug, PartialEq, Eq, Structural)]
pub enum RoleType {
    Admin,
    Curator,
    Member,
}

/// The category of a group.
#[derive(Clone, Copy, Debug, PartialEq, Eq, Structural)]
pub enum GroupType {
    Open,
    Reviewed,
    Closed,
}

/// Which roles a membership listing selects: the staff listing (admins and
/// curators) or the whole membership.
#[derive(Clone, Copy, Debug, PartialEq, Eq, Structural)]
pub enum RoleSet {
    Staff,
    Everyone,
}

impl RoleSet {
    /// Whether this role set admits the given role.
    pub open spec fn admits(self, role: RoleType) -> bool {
        match self {
            RoleSet::Staff => role == RoleType::Admin || role == RoleType::Curator,
            RoleSet::Everyone => true,
        }
    }

    /// Executable counterpart of [`RoleSet::admits`].
    pub fn contains(self, role: RoleType) -> (b: bool)
        ensures
            b == self.admits(role),
    {
        match self {
            RoleSet::Staff => role == RoleType::Admin || role == RoleType::Curator,
            RoleSet::Everyone => true,
        }
    }
}

/// Why an aggregation request failed.
#[derive(Clone, Copy, Debug, PartialEq, Eq, Structural)]
pub enum Error {
    /// The requested group does not exist.
    NotFound,
    /// A membership query failed for a reason other than non-existence,
    /// such as an invalid page size or cursor.
    StoreFailure,
}

/// One membership row: the member's account name, the host account that
/// invited them, their role, and the lowest visibility scope at which the
/// row may be shown.
#[derive(Debug, PartialEq)]
pub struct Member {
    pub username: String,
    pub host: String,
    pub role: RoleType,
    pub visibility: u64,
}

/// The mathematical value of a [`Member`].
pub struct MemberView {
    pub username: Seq<char>,
    pub host: Seq<char>,
    pub role: RoleType,
    pub visibility: u64,
}

impl View for Member {
    type V = MemberView;

    open spec fn view(&self) -> MemberView {
        MemberView {
            username: self.username@,
            host: self.host@,
            role: self.role,
            visibility: self.visibility,
        }
    }
}

impl Clone for Member {
    fn clone(&self) -> (r: Self)
        ensures
            r == *self,
    {
        Member {
            username: self.username.clone(),
            host: self.host.clone(),
            role: self.role,
            visibility: self.visibility,
        }
    }
}

/// The views of a sequence of members, in order.
pub open spec fn member_views(ms: Seq<Member>) -> Seq<MemberView> {
    ms.map_values(|m: Member| m@)
}

/// A group record: its unique name, description, category, membership
/// rows, the count of pending invitations, and the days on which current
/// memberships fall due for renewal.
#[derive(Debug, PartialEq)]
pub struct Group {
    pub name: String,
    pub description: String,
    pub typ: GroupType,
    pub members: Vec<Member>,
    pub invitation_count: u64,
    pub renewal_dates: Vec<u64>,
}

/// The mathematical value of a [`Group`].
pub struct GroupView {
    pub name: Seq<char>,
    pub description: Seq<char>,
    pub typ: GroupType,
    pub members: Seq<MemberView>,
    pub invitation_count: u64,
    pub renewal_dates: Seq<u64>,
}

impl View for Group {
    type V = GroupView;

    open spec fn view(&self) -> GroupView {
        GroupView {
            name: self.name@,
            description: self.description@,
            typ: self.typ,
            members: member_views(self.members@),
            invitation_count: self.invitation_count,
            renewal_dates: self.renewal_dates@,
        }
    }
}

/// The metadata of a group, as shown in the response.
#[derive(Debug, PartialEq)]
pub struct GroupInfo {
    pub name: String,
    pub description: String,
    pub typ: GroupType,
}

/// The mathematical value of a [`GroupInfo`].
pub struct GroupInfoView {
    pub name: Seq<char>,
    pub description: Seq<char>,
    pub typ: GroupType,
}

impl View for GroupInfo {
    type V = GroupInfoView;

    open spec fn view(&self) -> GroupInfoView {
        GroupInfoView { name: self.name@, description: self.description@, typ: self.typ }
    }
}

/// The pagination parameters of a details request: `next` is the cursor
/// returned by an earlier page, `size` the requested page size (20 when
/// absent).
#[derive(Clone, Copy, Debug, PartialEq, Eq, Structural)]
pub struct GetMembersQuery {
    pub next: Option<i64>,
    pub size: Option<i64>,
}

/// One page of a membership listing, and the cursor with which the next
/// page can be requested; `next` is `None` on the last page.
#[derive(Debug, PartialEq)]
pub struct MemberPage {
    pub members: Vec<Member>,
    pub next: Option<i64>,
}

/// The mathematical value of a [`MemberPage`].
pub struct MemberPageView {
    pub members: Seq<MemberView>,
    pub next: Option<i64>,
}

impl View for MemberPage {
    type V = MemberPageView;

    open spec fn view(&self) -> MemberPageView {
        MemberPageView { members: member_views(self.members@), next: self.next }
    }
}

/// The aggregate a details request returns: group metadata, one page of
/// curators, one page of members, and three summary counts.
#[derive(Debug, PartialEq)]
pub struct DisplayGroupDetails {
    pub group: GroupInfo,
    pub members: MemberPage,
    pub curators: MemberPage,
    pub member_count: u64,
    pub invitation_count: u64,
    pub renewal_count: u64,
}

/// The mathematical value of a [`DisplayGroupDetails`].
pub struct DisplayGroupDetailsView {
    pub group: GroupInfoView,
    pub members: MemberPageView,
    pub curators: MemberPageView,
    pub member_count: u64,
    pub invitation_count: u64,
    pub renewal_count: u64,
}

impl View for DisplayGroupDetails {
    type V = DisplayGroupDetailsView;

    open spec fn view(&self) -> DisplayGroupDetailsView {
        DisplayGroupDetailsView {
            group: self.group@,
            members: self.members@,
            curators: self.curators@,
            member_count: self.member_count,
            invitation_count: self.invitation_count,
            renewal_count: self.renewal_count,
        }
    }
}

} // verus!
