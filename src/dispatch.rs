//! The per-request dispatch state machine: routing, mapping, the upstream
//! call and bounded failover across the pool.

use vstd::prelude::*;
use crate::config::ZaiDispatchMode;
use crate::pool::{FailureKind, PoolError};

verus! {

/// How many accounts one request may try.
pub const MAX_DISPATCH_ATTEMPTS: u32 = 3;

/// Which provider serves a request.
#[derive(Debug, Clone, Copy, PartialEq, Eq, Structural)]
pub enum Provider {
    Native,
    Auxiliary,
}

/// The provider for a request. In pooled mode the auxiliary provider holds
/// the last of `native_count + 1` rotation slots.
pub open spec fn provider_for(mode: ZaiDispatchMode, auxiliary_enabled: bool, native_available: bool, native_count: nat, turn: nat) -> Option<Provider> {
    if !auxiliary_enabled {
        if native_available { Some(Provider::Native) } else { None }
    } else {
        match mode {
            ZaiDispatchMode::Off => if native_available { Some(Provider::Native) } else { None },
            ZaiDispatchMode::Exclusive => Some(Provider::Auxiliary),
            ZaiDispatchMode::Pooled => if !native_available || turn % (native_count + 1) == native_count {
                Some(Provider::Auxiliary)
            } else {
                Some(Provider::Native)
            },
            ZaiDispatchMode::Fallback => if native_available { Some(Provider::Native) } else { Some(Provider::Auxiliary) },
        }
    }
}

/// Picks the provider for a request; `turn` is the shared rotation counter.
pub fn choose_provider(mode: ZaiDispatchMode, auxiliary_enabled: bool, native_available: bool, native_count: usize, turn: usize) -> (r: Option<Provider>)
    requires
        native_count < usize::MAX,
    ensures
        r == provider_for(mode, auxiliary_enabled, native_available, native_count as nat, turn as nat),
{
    if !auxiliary_enabled {
        return if native_available { Some(Provider::Native) } else { None };
    }
    match mode {
        ZaiDispatchMode::Off => if native_available { Some(Provider::Native) } else { None },
        ZaiDispatchMode::Exclusive => Some(Provider::Auxiliary),
        ZaiDispatchMode::Pooled => if !native_available || turn % (native_count + 1) == native_count {
            Some(Provider::Auxiliary)
        } else {
            Some(Provider::Native)
        },
        ZaiDispatchMode::Fallback => if native_available { Some(Provider::Native) } else { Some(Provider::Auxiliary) },
    }
}

/// What an upstream failure means for the request.
#[derive(Debug, Clone, Copy, PartialEq, Eq, Structural)]
pub enum ErrorClass {
    AuthTerminal,
    QuotaTransient,
    UpstreamTimeout,
    /// Any other failure: surfaced to the client without failover.
    Other,
}

pub open spec fn class_of_status(status: u16) -> ErrorClass {
    if status == 401 || status == 403 {
        ErrorClass::AuthTerminal
    } else if status == 429 || status == 503 || status == 529 {
        ErrorClass::QuotaTransient
    } else if status == 408 || status == 504 {
        ErrorClass::UpstreamTimeout
    } else {
        ErrorClass::Other
    }
}

/// Classifies an upstream HTTP status.
pub fn classify_status(status: u16) -> (r: ErrorClass)
    ensures
        r == class_of_status(status),
{
    if status == 401 || status == 403 {
        ErrorClass::AuthTerminal
    } else if status == 429 || status == 503 || status == 529 {
        ErrorClass::QuotaTransient
    } else if status == 408 || status == 504 {
        ErrorClass::UpstreamTimeout
    } else {
        ErrorClass::Other
    }
}

/// The pool consequence of a failure class.
pub open spec fn failure_kind_of(c: ErrorClass) -> Option<FailureKind> {
    match c {
        ErrorClass::AuthTerminal => Some(FailureKind::AuthTerminal),
        ErrorClass::QuotaTransient => Some(FailureKind::QuotaTransient),
        ErrorClass::UpstreamTimeout => Some(FailureKind::UpstreamTimeout),
        ErrorClass::Other => None,
    }
}

#[derive(Debug, Clone, Copy, PartialEq, Eq, Structural)]
pub enum DispatchPhase {
    Routing,
    Mapping,
    Calling,
    Retrying,
    Succeeded,
    Failed,
}

/// One inbound request on its way through the gateway.
pub struct Dispatch {
    pub phase: DispatchPhase,
    /// Accounts tried so far.
    pub attempts: u32,
    pub max_attempts: u32,
    /// Accounts that failed in this dispatch and are not selected again.
    pub skipped: Vec<String>,
    /// The account of the attempt in progress.
    pub account_id: Option<String>,
    /// The text of the last upstream error.
    pub last_error: Option<String>,
}

impl Dispatch {
    pub open spec fn wf(&self) -> bool {
        self.attempts <= self.max_attempts && (self.phase == DispatchPhase::Calling || self.phase == DispatchPhase::Mapping ==> self.account_id is Some)
    }

    pub fn new(max_attempts: u32) -> (r: Self)
        ensures
            r.wf(),
            r.phase == DispatchPhase::Routing,
            r.attempts == 0,
            r.max_attempts == max_attempts,
            r.skipped@.len() == 0,
            r.account_id is None,
            r.last_error is None,
    {
        Dispatch {
            phase: DispatchPhase::Routing,
            attempts: 0,
            max_attempts,
            skipped: Vec::new(),
            account_id: None,
            last_error: None,
        }
    }

    /// The outcome of asking the pool for an account.
    pub fn on_selected(&mut self, selected: Result<String, PoolError>)
        requires
            old(self).wf(),
            old(self).phase == DispatchPhase::Routing,
            old(self).attempts < old(self).max_attempts,
        ensures
            final(self).wf(),
            final(self).skipped == old(self).skipped,
            final(self).max_attempts == old(self).max_attempts,
            final(self).last_error == old(self).last_error,
            selected is Ok ==> final(self).phase == DispatchPhase::Mapping && final(self).attempts == old(self).attempts + 1
                && final(self).account_id == Some(selected->Ok_0),
            selected is Err ==> final(self).phase == DispatchPhase::Failed && final(self).attempts == old(self).attempts,
    {
        match selected {
            Ok(id) => {
                self.attempts = self.attempts + 1;
                self.account_id = Some(id);
                self.phase = DispatchPhase::Mapping;
            },
            Err(_) => {
                self.phase = DispatchPhase::Failed;
            },
        }
    }

    /// The upstream request is built.
    pub fn on_mapped(&mut self)
        requires
            old(self).wf(),
            old(self).phase == DispatchPhase::Mapping,
        ensures
            final(self).wf(),
            final(self).phase == DispatchPhase::Calling,
            final(self).attempts == old(self).attempts,
            final(self).account_id == old(self).account_id,
    {
        self.phase = DispatchPhase::Calling;
    }

    /// The upstream call succeeded.
    pub fn on_success(&mut self)
        requires
            old(self).wf(),
            old(self).phase == DispatchPhase::Calling,
        ensures
            final(self).wf(),
            final(self).phase == DispatchPhase::Succeeded,
            final(self).attempts == old(self).attempts,
    {
        self.phase = DispatchPhase::Succeeded;
    }

    /// The client went away: the request ends without retry.
    pub fn on_cancelled(&mut self)
        requires
            old(self).wf(),
        ensures
            final(self).wf(),
            final(self).phase == DispatchPhase::Failed,
            final(self).attempts == old(self).attempts,
    {
        self.phase = DispatchPhase::Failed;
    }

    /// The upstream call failed with `class` and message `message`. Returns
    /// what the pool is to record of the account. A failover class skips the
    /// account and retries while attempts remain; any other class fails.
    pub fn on_failure(&mut self, class: ErrorClass, message: String) -> (r: Option<FailureKind>)
        requires
            old(self).wf(),
            old(self).phase == DispatchPhase::Calling,
        ensures
            final(self).wf(),
            r == failure_kind_of(class),
            final(self).last_error == Some(message),
            final(self).attempts == old(self).attempts,
            final(self).account_id == old(self).account_id,
            class == ErrorClass::Other ==> final(self).phase == DispatchPhase::Failed && final(self).skipped == old(self).skipped,
            class != ErrorClass::Other ==> final(self).skipped@ == old(self).skipped@.push(old(self).account_id->0),
            class != ErrorClass::Other && old(self).attempts < old(self).max_attempts ==> final(self).phase == DispatchPhase::Retrying,
            class != ErrorClass::Other && old(self).attempts >= old(self).max_attempts ==> final(self).phase == DispatchPhase::Failed,
    {
        self.last_error = Some(message);
        match class {
            ErrorClass::Other => {
                self.phase = DispatchPhase::Failed;
                None
            },
            _ => {
                match &self.account_id {
                    Some(id) => self.skipped.push(id.clone()),
                    None => {},
                }
                self.phase = if self.attempts < self.max_attempts { DispatchPhase::Retrying } else { DispatchPhase::Failed };
                match class {
                    ErrorClass::AuthTerminal => Some(FailureKind::AuthTerminal),
                    ErrorClass::QuotaTransient => Some(FailureKind::QuotaTransient),
                    _ => Some(FailureKind::UpstreamTimeout),
                }
            },
        }
    }

    /// Starts the next attempt after a failover failure.
    pub fn next_attempt(&mut self)
        requires
            old(self).wf(),
            old(self).phase == DispatchPhase::Retrying,
        ensures
            final(self).wf(),
            final(self).phase == DispatchPhase::Routing,
            final(self).account_id is None,
            final(self).attempts == old(self).attempts,
            final(self).skipped == old(self).skipped,
    {
        self.account_id = None;
        self.phase = DispatchPhase::Routing;
    }
}

} // verus!
