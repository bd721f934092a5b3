//! Members, roles, session states and the commands that move a session on.

use vstd::prelude::*;

verus! {

/// A participant of the session; `id` is stable and unique within a session.
#[derive(Clone, Debug)]
pub struct Member {
    pub id: String,
    pub name: String,
}

/// A role that the host hands out.
#[derive(Clone, Debug)]
pub struct Role {
    pub name: String,
}

impl PartialEq for Member {
    fn eq(&self, o: &Member) -> (r: bool) {
        self.id == o.id && self.name == o.name
    }
}

impl vstd::std_specs::cmp::PartialEqSpecImpl for Member {
    open spec fn obeys_eq_spec() -> bool {
        true
    }

    open spec fn eq_spec(&self, o: &Member) -> bool {
        self.id@ == o.id@ && self.name@ == o.name@
    }
}

impl PartialEq for Role {
    fn eq(&self, o: &Role) -> (r: bool) {
        self.name == o.name
    }
}

impl vstd::std_specs::cmp::PartialEqSpecImpl for Role {
    open spec fn obeys_eq_spec() -> bool {
        true
    }

    open spec fn eq_spec(&self, o: &Role) -> bool {
        self.name@ == o.name@
    }
}

/// The roles that the host asks to hand out, one per member.
#[derive(Clone, Debug)]
pub struct PickCommand {
    pub roles: Vec<Role>,
}

/// The final assignment: each member of the roster paired with one role.
#[derive(Clone, Debug)]
pub struct Picked {
    pub picked: Vec<(Member, Role)>,
}

/// The shared state of a session.
#[derive(Clone, Debug)]
pub enum AppState {
    Blank,
    Standby(Vec<Member>),
    Picked(Picked),
}

/// A request to move the session on.
#[derive(Clone, Debug)]
pub enum AppCommand {
    Init(Vec<Member>),
    Pick(PickCommand),
}

/// The mathematical value of a session state.
pub enum SessionView {
    Blank,
    Standby(Seq<Member>),
    Picked(Seq<(Member, Role)>),
}

/// The mathematical value of a command.
pub enum CommandView {
    Init(Seq<Member>),
    Pick(Seq<Role>),
}

impl View for AppState {
    type V = SessionView;

    open spec fn view(&self) -> SessionView {
        match self {
            AppState::Blank => SessionView::Blank,
            AppState::Standby(members) => SessionView::Standby(members@),
            AppState::Picked(p) => SessionView::Picked(p.picked@),
        }
    }
}

impl View for AppCommand {
    type V = CommandView;

    open spec fn view(&self) -> CommandView {
        match self {
            AppCommand::Init(members) => CommandView::Init(members@),
            AppCommand::Pick(p) => CommandView::Pick(p.roles@),
        }
    }
}

/// No two members of the sequence share an id.
pub open spec fn ids_unique(members: Seq<Member>) -> bool {
    forall|i: int, j: int|
        0 <= i < members.len() && 0 <= j < members.len() && i != j ==> #[trigger] members[i].id@
            != #[trigger] members[j].id@
}

/// A roster that `Init` accepts: not empty, and no id twice.
pub open spec fn valid_roster(members: Seq<Member>) -> bool {
    members.len() > 0 && ids_unique(members)
}

/// The members of an assignment, in order.
pub open spec fn members_of(a: Seq<(Member, Role)>) -> Seq<Member> {
    a.map_values(|p: (Member, Role)| p.0)
}

/// The roles of an assignment, in order.
pub open spec fn roles_of(a: Seq<(Member, Role)>) -> Seq<Role> {
    a.map_values(|p: (Member, Role)| p.1)
}

/// How far along its lifecycle a session is.
pub open spec fn stage(s: SessionView) -> nat {
    match s {
        SessionView::Blank => 0,
        SessionView::Standby(_) => 1,
        SessionView::Picked(_) => 2,
    }
}

/// What every reachable session state satisfies: the roster is valid, and the
/// assignment pairs the members of a valid roster.
pub open spec fn session_wf(s: SessionView) -> bool {
    match s {
        SessionView::Blank => true,
        SessionView::Standby(members) => valid_roster(members),
        SessionView::Picked(a) => valid_roster(members_of(a)),
    }
}

/// Whether two members have the same id.
pub fn same_id(a: &Member, b: &Member) -> (r: bool)
    ensures
        r == (a.id@ == b.id@),
{
    a.id == b.id
}

/// Whether a roster may start a session: it is not empty and no id occurs twice.
pub fn is_valid_roster(members: &Vec<Member>) -> (r: bool)
    ensures
        r == valid_roster(members@),
{
    if members.len() == 0 {
        return false;
    }
    let mut i: usize = 0;
    while i < members.len()
        invariant
            0 <= i <= members@.len(),
            forall|x: int, y: int|
                0 <= x < i && 0 <= y < members@.len() && x != y ==> #[trigger] members@[x].id@
                    != #[trigger] members@[y].id@,
        decreases members@.len() - i,
    {
        let mut j: usize = 0;
        while j < members.len()
            invariant
                0 <= i < members@.len(),
                0 <= j <= members@.len(),
                forall|x: int, y: int|
                    0 <= x < i && 0 <= y < members@.len() && x != y ==> #[trigger] members@[x].id@
                        != #[trigger] members@[y].id@,
                forall|y: int|
                    0 <= y < j && y != i ==> members@[i as int].id@ != #[trigger] members@[y].id@,
            decreases members@.len() - j,
        {
            if j != i && same_id(&members[i], &members[j]) {
                return false;
            }
            j += 1;
        }
        i += 1;
    }
    true
}

} // verus!
