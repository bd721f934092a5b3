//! The state reducer: which commands a session accepts, and what they produce.

use vstd::prelude::*;
use crate::state::{
    AppCommand, AppState, CommandView, Member, Picked, Role, SessionView,
    members_of, roles_of, session_wf, stage, valid_roster, is_valid_roster,
};

verus! {

broadcast use vstd::seq_lib::group_to_multiset_ensures;

/// The draw used for the member at position `at`; missing draws count as zero.
pub open spec fn draw_at(draws: Seq<u64>, at: nat) -> u64 {
    if at < draws.len() {
        draws[at as int]
    } else {
        0
    }
}

/// Deals roles to members in order: each member in turn takes, out of the roles
/// still left, the one that the next draw selects (draw modulo roles left).
pub open spec fn deal(members: Seq<Member>, pool: Seq<Role>, draws: Seq<u64>, at: nat) -> Seq<
    (Member, Role),
>
    decreases members.len(),
{
    if members.len() == 0 || pool.len() == 0 {
        Seq::empty()
    } else {
        let k = (draw_at(draws, at) as int) % (pool.len() as int);
        seq![(members[0], pool[k])] + deal(members.drop_first(), pool.remove(k), draws, at + 1)
    }
}

/// Whether a command is accepted in a state; this does not depend on chance.
pub open spec fn accepts(s: SessionView, c: CommandView) -> bool {
    match (s, c) {
        (SessionView::Blank, CommandView::Init(members)) => valid_roster(members),
        (SessionView::Standby(members), CommandView::Pick(roles)) => members.len() > 0
            && roles.len() == members.len(),
        _ => false,
    }
}

/// The state that an accepted command produces, given the draws of the deal.
pub open spec fn next_state(s: SessionView, c: CommandView, draws: Seq<u64>) -> SessionView {
    match (s, c) {
        (SessionView::Blank, CommandView::Init(members)) => SessionView::Standby(members),
        (SessionView::Standby(members), CommandView::Pick(roles)) => SessionView::Picked(
            deal(members, roles, draws, 0),
        ),
        _ => s,
    }
}

/// One step of the session: `Some` of the next state, or `None` where the
/// command is rejected and the state stays as it was.
pub open spec fn step(s: SessionView, c: CommandView, draws: Seq<u64>) -> Option<SessionView> {
    if accepts(s, c) {
        Some(next_state(s, c, draws))
    } else {
        None
    }
}

/// Every member keeps its place and every role is handed out exactly once.
pub open spec fn is_assignment(a: Seq<(Member, Role)>, members: Seq<Member>, roles: Seq<Role>) -> bool {
    &&& a.len() == members.len()
    &&& members_of(a) == members
    &&& roles_of(a).to_multiset() == roles.to_multiset()
}

/// A deal of as many roles as members is an assignment, whatever the draws.
pub proof fn lemma_deal_is_assignment(members: Seq<Member>, pool: Seq<Role>, draws: Seq<u64>, at: nat)
    requires
        members.len() == pool.len(),
    ensures
        is_assignment(deal(members, pool, draws, at), members, pool),
    decreases members.len(),
{
    let a = deal(members, pool, draws, at);
    if members.len() == 0 {
        assert(members_of(a) =~= members);
        assert(roles_of(a) =~= pool);
    } else {
        let k = (draw_at(draws, at) as int) % (pool.len() as int);
        let rest = deal(members.drop_first(), pool.remove(k), draws, at + 1);
        lemma_deal_is_assignment(members.drop_first(), pool.remove(k), draws, at + 1);
        assert(members_of(a) =~= members) by {
            assert forall|i: int| 0 <= i < members.len() implies members_of(a)[i] == members[i] by {
                if i > 0 {
                    assert(members_of(a)[i] == members_of(rest)[i - 1]);
                }
            }
        }
        let ra = roles_of(a);
        assert(ra.remove(0) =~= roles_of(rest));
        assert(ra[0] == pool[k]);
        let x = pool[k];
        let mr = ra.to_multiset();
        let mp = pool.to_multiset();
        assert(mr.remove(x) == roles_of(rest).to_multiset());
        assert(mp.remove(x) == pool.remove(k).to_multiset());
        assert(ra.contains(x));
        assert(pool.contains(x));
        assert forall|y: Role| mr.count(y) == mp.count(y) by {
            assert(mr.remove(x).count(y) == mp.remove(x).count(y));
        }
        assert(mr =~= mp);
    }
}

/// Deals the roles to the members as `deal` says, with the given draws.
pub fn assign_roles(members: Vec<Member>, roles: Vec<Role>, draws: &Vec<u64>) -> (r: Vec<(Member, Role)>)
    requires
        members@.len() == roles@.len(),
    ensures
        r@ == deal(members@, roles@, draws@, 0),
{
    let ghost all = deal(members@, roles@, draws@, 0);
    let n: usize = members.len();
    let mut rest = members;
    let mut pool = roles;
    let mut out: Vec<(Member, Role)> = Vec::new();
    let mut i: usize = 0;
    while rest.len() > 0
        invariant
            rest@.len() == pool@.len(),
            i + rest@.len() == n,
            out@ + deal(rest@, pool@, draws@, i as nat) == all,
        decreases rest@.len(),
    {
        let d: u64 = if i < draws.len() {
            draws[i]
        } else {
            0
        };
        let k: usize = (d % (pool.len() as u64)) as usize;
        assert(k as int == (draw_at(draws@, i as nat) as int) % (pool@.len() as int));
        let ghost before_rest = rest@;
        let ghost before_pool = pool@;
        let m = rest.remove(0);
        let role = pool.remove(k);
        assert(rest@ =~= before_rest.drop_first());
        out.push((m, role));
        assert(deal(before_rest, before_pool, draws@, i as nat) == seq![(m, role)] + deal(
            rest@,
            pool@,
            draws@,
            (i + 1) as nat,
        ));
        assert(out@ + deal(rest@, pool@, draws@, (i + 1) as nat) =~= all) by {
            assert(out@ =~= out@.drop_last().push((m, role)));
        }
        i += 1;
    }
    assert(out@ + deal(rest@, pool@, draws@, i as nat) =~= out@);
    out
}

/// Applies a command to a state with the given draws for a deal. Returns the
/// next state and `true`, or the state unchanged and `false` where the command
/// is rejected.
pub fn apply(state: AppState, command: AppCommand, draws: &Vec<u64>) -> (r: (AppState, bool))
    ensures
        r.1 == accepts(state@, command@),
        r.1 ==> r.0@ == next_state(state@, command@, draws@),
        !r.1 ==> r.0 == state,
{
    match state {
        AppState::Blank => match command {
            AppCommand::Init(members) => {
                if is_valid_roster(&members) {
                    (AppState::Standby(members), true)
                } else {
                    (AppState::Blank, false)
                }
            },
            AppCommand::Pick(_) => (AppState::Blank, false),
        },
        AppState::Standby(members) => match command {
            AppCommand::Pick(p) => {
                if members.len() > 0 && p.roles.len() == members.len() {
                    let picked = assign_roles(members, p.roles, draws);
                    (AppState::Picked(Picked { picked }), true)
                } else {
                    (AppState::Standby(members), false)
                }
            },
            AppCommand::Init(_) => (AppState::Standby(members), false),
        },
        AppState::Picked(p) => (AppState::Picked(p), false),
    }
}

/// Relies on rand::random: a fresh draw from the thread's generator, of which
/// nothing is promised. It panics only where the system gives it no seed.
pub assume_specification<T>[ rand::random::<T> ]() -> (r: T)
    where
        rand::distributions::Standard: rand::distributions::Distribution<T>,
;

/// Applies a command to a state, dealing roles at random for an accepted
/// `Pick`. Whether the command is accepted does not depend on chance; an
/// accepted `Pick` yields the deal of some draws, and so an assignment.
pub fn reduce(state: AppState, command: AppCommand) -> (r: (AppState, bool))
    ensures
        r.1 == accepts(state@, command@),
        r.1 ==> exists|draws: Seq<u64>| r.0@ == next_state(state@, command@, draws),
        !r.1 ==> r.0 == state,
{
    let n: usize = match &command {
        AppCommand::Pick(p) => p.roles.len(),
        AppCommand::Init(_) => 0,
    };
    let mut draws: Vec<u64> = Vec::new();
    let mut i: usize = 0;
    while i < n
        invariant
            i <= n,
        decreases n - i,
    {
        let d: u64 = rand::random::<u64>();
        draws.push(d);
        i += 1;
    }
    let r = apply(state, command, &draws);
    r
}

/// An `Init` of a valid roster against `Blank` yields `Standby` of exactly
/// that roster, in the same order.
pub proof fn lemma_init_from_blank(members: Seq<Member>, draws: Seq<u64>)
    requires
        valid_roster(members),
    ensures
        step(SessionView::Blank, CommandView::Init(members), draws) == Some(
            SessionView::Standby(members),
        ),
{
}

/// A `Pick` of as many roles as there are members, against a non-empty
/// `Standby`, is accepted and yields an assignment: every member once, in its
/// place, and every role handed out exactly once, whatever the draws.
pub proof fn lemma_pick_is_assignment(members: Seq<Member>, roles: Seq<Role>, draws: Seq<u64>)
    requires
        members.len() > 0,
        roles.len() == members.len(),
    ensures
        step(SessionView::Standby(members), CommandView::Pick(roles), draws) matches Some(
            SessionView::Picked(a),
        ) && is_assignment(a, members, roles),
{
    lemma_deal_is_assignment(members, roles, draws, 0);
}

/// A `Pick` is rejected against `Blank` and `Picked`, and against `Standby`
/// when the number of roles differs from the number of members.
pub proof fn lemma_pick_rejected(s: SessionView, roles: Seq<Role>, draws: Seq<u64>)
    requires
        match s {
            SessionView::Standby(members) => roles.len() != members.len(),
            _ => true,
        },
    ensures
        step(s, CommandView::Pick(roles), draws) is None,
{
}

/// An `Init` is rejected in every state but `Blank`; in particular a second
/// `Init` once the roster is in `Standby`.
pub proof fn lemma_init_rejected(s: SessionView, members: Seq<Member>, draws: Seq<u64>)
    requires
        !(s is Blank),
    ensures
        step(s, CommandView::Init(members), draws) is None,
{
}

/// An accepted command moves the session exactly one stage on, so a session
/// never goes back; and it keeps every reachable state well formed.
pub proof fn lemma_step_advances(s: SessionView, c: CommandView, draws: Seq<u64>)
    requires
        session_wf(s),
        step(s, c, draws) is Some,
    ensures
        stage(step(s, c, draws)->0) == stage(s) + 1,
        session_wf(step(s, c, draws)->0),
{
    if let (SessionView::Standby(members), CommandView::Pick(roles)) = (s, c) {
        lemma_deal_is_assignment(members, roles, draws, 0);
    }
}

} // verus!
