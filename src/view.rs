//! What a participant is shown of the session: the roster's names while it
//! waits, the host's form to hand out roles, and in the end its own role only.

use vstd::prelude::*;
use crate::state::{AppState, Member, Role, ids_unique, members_of};

verus! {

/// A participant's view of the session. `F` is the form through which the host
/// hands out roles; other participants get none.
pub enum ViewState<F> {
    Blank,
    Standby { members: Vec<String>, host_form: Option<F> },
    Picked(Vec<(Member, Role)>),
}

/// The names of a roster, in order.
pub open spec fn names_of(members: Seq<Member>) -> Seq<Seq<char>> {
    members.map_values(|m: Member| m.name@)
}

/// The names of the members, in order.
pub fn member_names(members: &Vec<Member>) -> (r: Vec<String>)
    ensures
        r@.map_values(|s: String| s@) == names_of(members@),
{
    let mut r: Vec<String> = Vec::new();
    let mut i: usize = 0;
    while i < members.len()
        invariant
            0 <= i <= members@.len(),
            r@.len() == i,
            forall|j: int| 0 <= j < i ==> #[trigger] r@[j]@ == members@[j].name@,
        decreases members@.len() - i,
    {
        r.push(members[i].name.clone());
        i += 1;
    }
    assert(r@.map_values(|s: String| s@) =~= names_of(members@));
    r
}

/// Turns a session state into what a participant is shown: the roster's names
/// in `Standby`, with the host's form for the host alone, and the assignment
/// in `Picked`.
pub fn app_state_to_view_state<F>(app: AppState, is_host: bool, host_form: F) -> (r: ViewState<F>)
    ensures
        app is Blank ==> r is Blank,
        app matches AppState::Standby(ms) ==> r matches ViewState::Standby { members, host_form: form }
            && members@.map_values(|s: String| s@) == names_of(ms@)
            && form == (if is_host {
            Some(host_form)
        } else {
            None
        }),
        app matches AppState::Picked(p) ==> r == ViewState::<F>::Picked(p.picked),
{
    match app {
        AppState::Blank => ViewState::Blank,
        AppState::Standby(members) => {
            let names = member_names(&members);
            let form = if is_host {
                Some(host_form)
            } else {
                None
            };
            ViewState::Standby { members: names, host_form: form }
        },
        AppState::Picked(p) => ViewState::Picked(p.picked),
    }
}

/// Whether some pair of the assignment is the participant's.
pub open spec fn has_pair_of(a: Seq<(Member, Role)>, your_id: Seq<char>) -> bool {
    exists|i: int| 0 <= i < a.len() && (#[trigger] a[i]).0.id@ == your_id
}

/// The position of the participant's own pair in the assignment, the first
/// whose member has the given id; `None` where there is none, which a roster
/// that holds every participant rules out.
pub fn find_assignment(list: &Vec<(Member, Role)>, your_id: &String) -> (r: Option<usize>)
    ensures
        r is None <==> !has_pair_of(list@, your_id@),
        r matches Some(i) ==> i < list@.len() && list@[i as int].0.id@ == your_id@ && forall|j: int|
            0 <= j < i ==> (#[trigger] list@[j]).0.id@ != your_id@,
{
    let mut i: usize = 0;
    while i < list.len()
        invariant
            0 <= i <= list@.len(),
            forall|j: int| 0 <= j < i ==> (#[trigger] list@[j]).0.id@ != your_id@,
        decreases list@.len() - i,
    {
        if list[i].0.id == *your_id {
            return Some(i);
        }
        i += 1;
    }
    None
}

/// Where the members of an assignment have distinct ids, a participant's pair
/// is the only one with that id: each participant sees exactly one outcome.
pub proof fn lemma_own_pair_unique(a: Seq<(Member, Role)>, i: int, j: int)
    requires
        ids_unique(members_of(a)),
        0 <= i < a.len(),
        0 <= j < a.len(),
        a[i].0.id@ == a[j].0.id@,
    ensures
        i == j,
{
    assert(members_of(a)[i] == a[i].0);
    assert(members_of(a)[j] == a[j].0);
}

} // verus!
