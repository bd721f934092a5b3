//! A client of a session: its runner and, for the host, its bootstrap.
//!
//! Each step takes one event from the outside (a store notification, the
//! roster from the directory, a command of the client's own) and says what
//! to do; performing it is left to the caller.

use vstd::prelude::*;
use crate::state::{AppCommand, Member, valid_roster};
use crate::runner::{
    EventKind, Notice, Runner, RunnerView, SessionError, SyncEvent, kind_of, notice_is, runner_next,
};
use crate::host::{BootstrapView, HostBootstrap, bootstrap_next};

verus! {

/// What a client does next, besides telling its observer.
pub enum Action {
    /// Nothing.
    Idle,
    /// Fetch the roster of the session from the directory.
    FetchRoster,
    /// Send the command to the shared store.
    Dispatch(AppCommand),
    /// Report an unexpected session failure.
    Report(SessionError),
}

/// A session client.
pub struct Client {
    runner: Runner,
    host: HostBootstrap,
}

/// The state of a client: that of its runner and that of its bootstrap.
pub struct ClientView {
    pub runner: RunnerView,
    pub host: BootstrapView,
}

impl View for Client {
    type V = ClientView;

    closed spec fn view(&self) -> ClientView {
        ClientView { runner: self.runner@, host: self.host@ }
    }
}

impl Client {
    /// A client that has seen nothing yet.
    pub fn new(is_host: bool) -> (r: Client)
        ensures
            r@.runner == (RunnerView { stopped: false, last: None }),
            r@.host == (BootstrapView { is_host, blank_seen: false }),
    {
        Client { runner: Runner::new(), host: HostBootstrap::new(is_host) }
    }

    /// Handles a notification of the store: the runner decides what the
    /// observer is told, and a delivered state is shown to the bootstrap,
    /// which may ask for the roster.
    pub fn on_sync(&mut self, event: SyncEvent) -> (r: (Notice, Action))
        ensures
            final(self)@.runner == runner_next(old(self)@.runner, kind_of(event)).0,
            notice_is(r.0, event, runner_next(old(self)@.runner, kind_of(event)).1),
            r.0 matches Notice::StateChange(s) ==> (final(self)@.host, r.1 is FetchRoster)
                == bootstrap_next(old(self)@.host, s@),
            !(r.0 is StateChange) ==> final(self)@.host == old(self)@.host && r.1 is Idle,
            r.1 is Idle || r.1 is FetchRoster,
    {
        let notice = self.runner.handle(event);
        match notice {
            Notice::StateChange(state) => {
                let fetch = self.host.observe(&state);
                let action = if fetch {
                    Action::FetchRoster
                } else {
                    Action::Idle
                };
                (Notice::StateChange(state), action)
            },
            other => (other, Action::Idle),
        }
    }

    /// Handles the directory's answer: the roster, or `None` where the lookup
    /// failed. A stopped client does nothing; a failure is reported; a roster
    /// becomes `Init` where the bootstrap allows it.
    pub fn on_roster(&self, roster: Option<Vec<Member>>) -> (a: Action)
        ensures
            self@.runner.stopped ==> a is Idle,
            !self@.runner.stopped && roster is None ==> a == Action::Report(SessionError::Unexpected),
            !self@.runner.stopped ==> (roster matches Some(ms) ==> if self@.host.is_host
                && self@.host.blank_seen && valid_roster(ms@) {
                a == Action::Dispatch(AppCommand::Init(ms))
            } else {
                a is Idle
            }),
    {
        if self.runner.is_stopped() {
            return Action::Idle;
        }
        match roster {
            None => Action::Report(SessionError::Unexpected),
            Some(members) => match self.host.roster_fetched(members) {
                Some(command) => Action::Dispatch(command),
                None => Action::Idle,
            },
        }
    }

    /// Handles a command of the client's own: it is sent to the store unless
    /// the client was stopped.
    pub fn on_command(&self, command: AppCommand) -> (a: Action)
        ensures
            self@.runner.stopped ==> a is Idle,
            !self@.runner.stopped ==> a == Action::Dispatch(command),
    {
        if self.runner.is_stopped() {
            Action::Idle
        } else {
            Action::Dispatch(command)
        }
    }

    /// Stops the client: its observer hears nothing more.
    pub fn stop(&mut self)
        ensures
            final(self)@.runner == runner_next(old(self)@.runner, EventKind::Stop).0,
            final(self)@.runner.stopped,
            final(self)@.host == old(self)@.host,
    {
        self.runner.stop();
    }
}

} // verus!
