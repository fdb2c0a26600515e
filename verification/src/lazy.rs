//! Connecting on first use, not at launch.
//!
//! A server that exits before it can speak does not appear as a broken memory
//! service: it does not appear at all, and nothing is left that could say why.
//! So the server starts unconditionally, and [`LazyStore`] keeps track of what
//! is still to be done:
//!
//! - **The configuration is loaded on demand**, so setup can be run during a
//!   session and the next call picks it up.
//! - **The connection is made on demand, and a failure is never latched.** An
//!   agent that comes back stops being a problem without anyone intervening.

use vstd::prelude::*;

use crate::config::Config;
use crate::files::FilePath;
use crate::store::Store;

verus! {

/// What has to be done before the store can be used.
#[derive(Debug, Clone, Copy, PartialEq, Eq, Structural)]
pub enum Need {
    /// Read the configuration.
    LoadConfig,
    /// Connect as the configured identity.
    Connect,
    /// Nothing: there is a connection.
    Nothing,
}

/// How far a [`LazyStore`] has come, as a value.
#[verifier::ext_equal]
pub struct Progress {
    pub config: Option<Config>,
    pub context: Option<Seq<char>>,
}

impl Progress {
    /// Nothing done yet.
    pub open spec fn none() -> Progress {
        Progress { config: None, context: None }
    }

    /// What is to be done next.
    pub open spec fn need(self) -> Need {
        if self.context is Some {
            Need::Nothing
        } else if self.config is None {
            Need::LoadConfig
        } else {
            Need::Connect
        }
    }
}

/// Something that can happen to a [`LazyStore`].
pub enum Step {
    /// The configuration was loaded.
    Loaded(Config),
    /// A connection was made.
    Connected,
    /// Something failed.
    Failed,
}

/// What a step does to the progress made.
pub open spec fn after(p: Progress, step: Step) -> Progress {
    match step {
        Step::Loaded(c) => if p.config is Some {
            p
        } else {
            Progress { config: Some(c), context: p.context }
        },
        Step::Connected => if p.need() == Need::Connect {
            Progress { config: p.config, context: Some(p.config->Some_0.context_id@) }
        } else {
            p
        },
        Step::Failed => p,
    }
}

/// A store that connects the first time it is actually needed.
#[derive(Debug, Clone)]
pub struct LazyStore {
    config_path: FilePath,
    config: Option<Config>,
    store: Option<Store>,
}

impl LazyStore {
    /// Where the configuration is.
    pub closed spec fn path(&self) -> FilePath {
        self.config_path
    }

    /// How far this has come.
    pub closed spec fn progress(&self) -> Progress {
        Progress {
            config: self.config,
            context: match self.store {
                Some(s) => Some(s.context()),
                None => None,
            },
        }
    }

    /// Wrap the path of a configuration. Reads nothing, deliberately: the whole
    /// point is that construction cannot fail.
    pub fn new(config_path: FilePath) -> (res: LazyStore)
        ensures
            res.path() == config_path,
            res.progress() == Progress::none(),
    {
        LazyStore { config_path, config: None, store: None }
    }

    /// A store that is connected already, to the context given.
    pub fn connected(config_path: FilePath, store: Store) -> (res: LazyStore)
        ensures
            res.path() == config_path,
            res.progress() == (Progress { config: None, context: Some(store.context()) }),
    {
        LazyStore { config_path, config: None, store: Some(store) }
    }

    /// Where the configuration is to be read from.
    pub fn config_path(&self) -> (res: &FilePath)
        ensures
            *res == self.path(),
    {
        &self.config_path
    }

    /// What has to be done before the store can be used.
    pub fn need(&self) -> (res: Need)
        ensures
            res == self.progress().need(),
    {
        if self.store.is_some() {
            Need::Nothing
        } else if self.config.is_none() {
            Need::LoadConfig
        } else {
            Need::Connect
        }
    }

    /// The configuration, once it was loaded. Kept apart from the store so that
    /// diagnostics can say which agent and which context while the agent itself
    /// is out of reach.
    pub fn config(&self) -> (res: Option<&Config>)
        ensures
            match res {
                Some(c) => self.progress().config == Some(*c),
                None => self.progress().config is None,
            },
    {
        match &self.config {
            Some(c) => Some(c),
            None => None,
        }
    }

    /// Take note of an attempt to load the configuration. A success is kept; a
    /// failure is handed back and leaves no trace, so the next call tries
    /// again. A configuration that was loaded before stays.
    pub fn config_loaded<E>(&mut self, loaded: Result<Config, E>) -> (res: Result<(), E>)
        ensures
            final(self).path() == old(self).path(),
            match loaded {
                Ok(c) => {
                    &&& res is Ok
                    &&& final(self).progress() == after(old(self).progress(), Step::Loaded(c))
                },
                Err(e) => {
                    &&& res == Err::<(), E>(e)
                    &&& final(self).progress() == after(old(self).progress(), Step::Failed)
                },
            },
    {
        match loaded {
            Ok(c) => {
                if self.config.is_none() {
                    self.config = Some(c);
                }
                Ok(())
            },
            Err(e) => Err(e),
        }
    }

    /// Take note of an attempt to connect. A success binds the store to the
    /// configured context; a failure is handed back and leaves no trace, so the
    /// next call tries again.
    pub fn connect_tried<E>(&mut self, tried: Result<(), E>) -> (res: Result<(), E>)
        requires
            old(self).progress().need() == Need::Connect,
        ensures
            final(self).path() == old(self).path(),
            match tried {
                Ok(_) => {
                    &&& res is Ok
                    &&& final(self).progress() == after(old(self).progress(), Step::Connected)
                },
                Err(e) => {
                    &&& res == Err::<(), E>(e)
                    &&& final(self).progress() == after(old(self).progress(), Step::Failed)
                },
            },
    {
        match tried {
            Ok(_) => {
                let store = match &self.config {
                    Some(c) => Store::new(c.context_id.as_str()),
                    None => vstd::pervasive::unreached(),
                };
                self.store = Some(store);
                Ok(())
            },
            Err(e) => Err(e),
        }
    }

    /// The connected store.
    pub fn store(&self) -> (res: Option<&Store>)
        ensures
            match res {
                Some(s) => self.progress().context == Some(s.context()),
                None => self.progress().context is None,
            },
    {
        match &self.store {
            Some(s) => Some(s),
            None => None,
        }
    }

    /// Whether a connection has actually been established. It is also whether
    /// there is one to close.
    pub fn is_connected(&self) -> (res: bool)
        ensures
            res == self.progress().context is Some,
    {
        self.store.is_some()
    }
}

/// What a sequence of steps does, the first of them first.
pub open spec fn after_all(p: Progress, steps: Seq<Step>) -> Progress
    decreases steps.len(),
{
    if steps.len() == 0 {
        p
    } else {
        after(after_all(p, steps.drop_last()), steps.last())
    }
}

/// **Failures are never latched**: whatever failed in between, it is as if it
/// had not been tried.
pub proof fn law_failures_leave_no_trace(p: Progress, steps: Seq<Step>)
    ensures
        after_all(p, steps) == after_all(p, steps.filter(|s: Step| !(s is Failed))),
    decreases steps.len(),
{
    reveal(Seq::filter);
    if steps.len() > 0 {
        let rest = steps.drop_last();
        let kept = rest.filter(|s: Step| !(s is Failed));
        law_failures_leave_no_trace(p, rest);
        if !(steps.last() is Failed) {
            assert(kept.push(steps.last()).drop_last() == kept);
        }
    }
}

/// **What was achieved stays**: no later step loses a configuration or a
/// connection, or swaps it for another.
pub proof fn law_what_was_achieved_stays(p: Progress, steps: Seq<Step>)
    ensures
        p.config is Some ==> after_all(p, steps).config == p.config,
        p.context is Some ==> after_all(p, steps).context == p.context,
    decreases steps.len(),
{
    if steps.len() > 0 {
        law_what_was_achieved_stays(p, steps.drop_last());
    }
}

/// **Starting never connects, and reading the configuration never connects**:
/// only a connection that was made is one.
pub proof fn law_only_connecting_connects(steps: Seq<Step>)
    requires
        forall|i: int| 0 <= i < steps.len() ==> !((#[trigger] steps[i]) is Connected),
    ensures
        after_all(Progress::none(), steps).context is None,
    decreases steps.len(),
{
    if steps.len() > 0 {
        let rest = steps.drop_last();
        assert forall|i: int| 0 <= i < rest.len() implies !((#[trigger] rest[i]) is Connected) by {
            assert(rest[i] == steps[i]);
        }
        law_only_connecting_connects(rest);
        assert(!(steps[steps.len() - 1] is Connected));
    }
}

} // verus!
