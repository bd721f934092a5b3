//! The host's bootstrap: when a client sees `Blank`, the host fetches the
//! roster and starts the session with it.

use vstd::prelude::*;
use crate::state::{AppCommand, AppState, Member, SessionView, stage, valid_roster, is_valid_roster};

verus! {

/// The bootstrap's state: whether this client is the host, and whether the last
/// state it saw was `Blank`.
pub struct BootstrapView {
    pub is_host: bool,
    pub blank_seen: bool,
}

/// On each state seen, the host fetches the roster only where the state is
/// `Blank` and the state seen before was not: once per transition into `Blank`,
/// however often `Blank` is seen again.
pub open spec fn bootstrap_next(h: BootstrapView, s: SessionView) -> (BootstrapView, bool) {
    (
        BootstrapView { is_host: h.is_host, blank_seen: s is Blank },
        h.is_host && s is Blank && !h.blank_seen,
    )
}

/// How many roster fetches a run of observed states starts.
pub open spec fn fetch_count(h: BootstrapView, seen: Seq<SessionView>) -> nat
    decreases seen.len(),
{
    if seen.len() == 0 {
        0
    } else {
        let (h2, fetch) = bootstrap_next(h, seen[0]);
        (if fetch {
            1nat
        } else {
            0nat
        }) + fetch_count(h2, seen.drop_first())
    }
}

/// How many times a run of observed states enters `Blank` from another state
/// (or from none, where `blank_before` is false).
pub open spec fn blank_entries(blank_before: bool, seen: Seq<SessionView>) -> nat
    decreases seen.len(),
{
    if seen.len() == 0 {
        0
    } else {
        (if seen[0] is Blank && !blank_before {
            1nat
        } else {
            0nat
        }) + blank_entries(seen[0] is Blank, seen.drop_first())
    }
}

/// The stages of the observed states never go back.
pub open spec fn stages_ordered(seen: Seq<SessionView>) -> bool {
    forall|i: int, j: int| 0 <= i <= j < seen.len() ==> stage(#[trigger] seen[i]) <= stage(#[trigger] seen[j])
}

/// The host fetches the roster once per observed transition into `Blank`, and
/// a client that is not the host never does.
pub proof fn lemma_fetch_per_blank_entry(h: BootstrapView, seen: Seq<SessionView>)
    ensures
        fetch_count(h, seen) == if h.is_host {
            blank_entries(h.blank_seen, seen)
        } else {
            0
        },
    decreases seen.len(),
{
    if seen.len() > 0 {
        let (h2, fetch) = bootstrap_next(h, seen[0]);
        lemma_fetch_per_blank_entry(h2, seen.drop_first());
    }
}

/// A run whose states never go back enters `Blank` at most once.
pub proof fn lemma_ordered_blank_entries(blank_before: bool, seen: Seq<SessionView>)
    requires
        stages_ordered(seen),
    ensures
        blank_entries(blank_before, seen) <= 1,
        blank_before ==> blank_entries(blank_before, seen) == 0,
    decreases seen.len(),
{
    if seen.len() > 0 {
        let rest = seen.drop_first();
        assert(stages_ordered(rest)) by {
            assert forall|i: int, j: int| 0 <= i <= j < rest.len() implies stage(#[trigger] rest[i])
                <= stage(#[trigger] rest[j]) by {
                assert(rest[i] == seen[i + 1] && rest[j] == seen[j + 1]);
            }
        }
        lemma_ordered_blank_entries(seen[0] is Blank, rest);
        if !(seen[0] is Blank) && rest.len() > 0 {
            lemma_no_blank_after(seen[0] is Blank, rest, stage(seen[0]));
        }
    }
}

/// Where every observed state is past `Blank`, none enters it.
proof fn lemma_no_blank_after(blank_before: bool, seen: Seq<SessionView>, floor: nat)
    requires
        floor > 0,
        forall|i: int| 0 <= i < seen.len() ==> stage(#[trigger] seen[i]) >= floor,
    ensures
        blank_entries(blank_before, seen) == 0,
    decreases seen.len(),
{
    if seen.len() > 0 {
        let rest = seen.drop_first();
        assert forall|i: int| 0 <= i < rest.len() implies stage(#[trigger] rest[i]) >= floor by {
            assert(rest[i] == seen[i + 1]);
        }
        lemma_no_blank_after(false, rest, floor);
    }
}

/// Over a session whose states never go back, as the store delivers them, the
/// host fetches the roster, and so dispatches `Init`, at most once.
pub proof fn lemma_bootstrap_at_most_once(h: BootstrapView, seen: Seq<SessionView>)
    requires
        stages_ordered(seen),
    ensures
        fetch_count(h, seen) <= 1,
{
    lemma_fetch_per_blank_entry(h, seen);
    lemma_ordered_blank_entries(h.blank_seen, seen);
}

/// A client's bootstrap policy.
pub struct HostBootstrap {
    is_host: bool,
    blank_seen: bool,
}

impl View for HostBootstrap {
    type V = BootstrapView;

    closed spec fn view(&self) -> BootstrapView {
        BootstrapView { is_host: self.is_host, blank_seen: self.blank_seen }
    }
}

impl HostBootstrap {
    /// A bootstrap that has seen no state yet.
    pub fn new(is_host: bool) -> (r: HostBootstrap)
        ensures
            r@ == (BootstrapView { is_host, blank_seen: false }),
    {
        HostBootstrap { is_host, blank_seen: false }
    }

    /// Whether this client is the host.
    pub fn is_host(&self) -> (r: bool)
        ensures
            r == self@.is_host,
    {
        self.is_host
    }

    /// Takes note of a state that the client saw; returns whether the roster
    /// is to be fetched now.
    pub fn observe(&mut self, state: &AppState) -> (fetch: bool)
        ensures
            (final(self)@, fetch) == bootstrap_next(old(self)@, state@),
    {
        let blank = matches!(state, AppState::Blank);
        let fetch = self.is_host && blank && !self.blank_seen;
        self.blank_seen = blank;
        fetch
    }

    /// The command to dispatch once the roster has come: `Init` of it, where
    /// this client is the host, the session it last saw is still `Blank`, and
    /// the roster is valid; else nothing, as such an `Init` would be rejected.
    pub fn roster_fetched(&self, members: Vec<Member>) -> (c: Option<AppCommand>)
        ensures
            c is Some <==> (self@.is_host && self@.blank_seen && valid_roster(members@)),
            c is Some ==> c == Some(AppCommand::Init(members)),
    {
        if self.is_host && self.blank_seen && is_valid_roster(&members) {
            Some(AppCommand::Init(members))
        } else {
            None
        }
    }
}

} // verus!
