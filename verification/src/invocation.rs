//! One `hnd` invocation at the command boundary, as a state machine: the
//! caller resolves the target and Herdr mode, reads the configuration,
//! runs the orchestration, and writes the directory history when asked, and
//! hands each result back together with the interruption and deadline
//! status.

use vstd::prelude::*;

use crate::command::{Failure, error_span, labeled_error, labeled_error_at, labeled_matches, map_run_error_parts, platform_is_supported, spec_platform_supported};
use crate::config::{CommandConfig, ConfigurationError};
use crate::error::{Error, ErrorKind, ErrorView, RunError, RunErrorView, Span};
use crate::orchestrate::{Halt, Outcome, check, history_updates, map_halt, spec_check, spec_map_halt};
use crate::path::{ResolvedPaths, text_of};
use crate::types::{AgentIdlePolicy, AgentStatus};

verus! {

/// Work the caller must perform next.
#[derive(Debug)]
pub enum InvocationRequest {
    /// Resolve the caller's directory and target, and read the Herdr mode.
    Resolve,
    /// Read the plugin configuration.
    ReadConfig,
    /// Run the orchestration on the resolved paths.
    Orchestrate { paths: ResolvedPaths, inside: bool, policy: AgentIdlePolicy },
    /// Write these caller environment variables, in order.
    WriteHistory { updates: Vec<(String, String)> },
}

/// Result of the last requested work.
#[derive(Debug)]
pub enum InvocationEvent {
    /// The bounded work was abandoned because the invocation halted.
    Halted,
    Resolved { paths: ResolvedPaths, inside: bool },
    ResolveFailed(Error),
    Configured(CommandConfig),
    ConfigFailed(ConfigurationError),
    Orchestrated(Result<Outcome, RunError>),
    /// All history writes succeeded.
    Written,
    /// The write at `index` failed with `error`; earlier ones succeeded.
    WriteFailed { index: usize, error: Error },
}

/// The next request, or the end of the invocation: nothing on success.
#[derive(Debug)]
pub enum InvocationStep {
    Perform(InvocationRequest),
    Return(Result<(), Failure>),
}

#[derive(Debug, Clone, Copy, PartialEq, Eq, Structural)]
pub enum Phase {
    Resolving,
    Configuring,
    Orchestrating,
    Writing,
    Done,
}

/// State of one invocation.
pub struct Invocation {
    head: Span,
    path_span: Span,
    phase: Phase,
    paths: Option<ResolvedPaths>,
    inside: bool,
    config_reads: Ghost<nat>,
}

/// The failure an invocation reports for a run error: Nushell's interruption
/// at the command head, or a labeled error at the path for path errors and
/// at the head otherwise.
pub open spec fn reports(f: Failure, e: RunErrorView, path_span: Span, head: Span) -> bool {
    match e {
        RunErrorView::Interrupted => f == (Failure::Interrupted { span: head }),
        RunErrorView::Failed(ev) => f matches Failure::Labeled(l) && labeled_matches(l, ev, error_span(ev.kind, path_span, head)),
    }
}

pub open spec fn unsupported_error() -> ErrorView {
    ErrorView { kind: ErrorKind::UnsupportedPlatform, message: "hnd supports Linux and macOS only"@ }
}

pub open spec fn partial_history_error() -> ErrorView {
    ErrorView { kind: ErrorKind::InvalidPath, message: "failed to update the caller working directory; OLDPWD may already have changed"@ }
}

pub open spec fn halted(h: Halt) -> bool {
    h.interrupted || h.expired
}

impl Invocation {
    pub closed spec fn phase(self) -> Phase {
        self.phase
    }

    pub closed spec fn head(self) -> Span {
        self.head
    }

    pub closed spec fn path_span(self) -> Span {
        self.path_span
    }

    /// Whether the resolved mode is inside Herdr.
    pub closed spec fn inside(self) -> bool {
        self.inside
    }

    /// The caller's canonical directory, once resolved.
    pub closed spec fn caller_cwd(self) -> Seq<Seq<char>> {
        self.paths->0.caller_cwd@
    }

    /// Configuration reads requested so far.
    pub closed spec fn config_reads(self) -> nat {
        self.config_reads@
    }

    /// The configuration is read at most once, only inside Herdr, and only
    /// after the target and mode resolved.
    pub closed spec fn wf(self) -> bool {
        &&& self.config_reads@ <= 1
        &&& (self.phase == Phase::Resolving ==> self.config_reads@ == 0)
        &&& (self.phase == Phase::Configuring ==> self.inside && self.config_reads@ == 1 && self.paths is Some)
        &&& (self.phase == Phase::Orchestrating || self.phase == Phase::Writing) ==> {
            &&& self.paths is Some
            &&& self.config_reads@ == if self.inside { 1nat } else { 0nat }
        }
    }

    /// Whether `event` answers the request that the invocation waits for.
    pub open spec fn awaits(self, event: &InvocationEvent) -> bool {
        match self.phase() {
            Phase::Resolving => event is Halted || event is Resolved || event is ResolveFailed,
            Phase::Configuring => event is Halted || event is Configured || event is ConfigFailed,
            Phase::Orchestrating => event is Orchestrated,
            Phase::Writing => event is Written || event is WriteFailed,
            Phase::Done => false,
        }
    }

    pub fn accepts(&self, event: &InvocationEvent) -> (r: bool)
        ensures
            r == self.awaits(event),
    {
        match self.phase {
            Phase::Resolving => matches!(event, InvocationEvent::Halted) || matches!(event, InvocationEvent::Resolved { .. })
                || matches!(event, InvocationEvent::ResolveFailed(_)),
            Phase::Configuring => matches!(event, InvocationEvent::Halted) || matches!(event, InvocationEvent::Configured(_))
                || matches!(event, InvocationEvent::ConfigFailed(_)),
            Phase::Orchestrating => matches!(event, InvocationEvent::Orchestrated(_)),
            Phase::Writing => matches!(event, InvocationEvent::Written) || matches!(event, InvocationEvent::WriteFailed { .. }),
            Phase::Done => false,
        }
    }

    fn fail(&mut self, error: RunError) -> (s: InvocationStep)
        requires
            old(self).wf(),
        ensures
            s matches InvocationStep::Return(Err(f)) && reports(f, error@, old(self).path_span, old(self).head),
            final(self).phase == Phase::Done,
            final(self).wf(),
            final(self).head == old(self).head,
            final(self).path_span == old(self).path_span,
            final(self).inside == old(self).inside,
            final(self).config_reads == old(self).config_reads,
            final(self).paths == old(self).paths,
    {
        self.phase = Phase::Done;
        InvocationStep::Return(Err(map_run_error_parts(error, self.path_span, self.head)))
    }

    /// Start an invocation on a platform named `os`. A halted invocation
    /// reports the halt; an unsupported platform is an error at the command
    /// head; otherwise the target is resolved first.
    pub fn begin(head: Span, path_span: Span, os: &str, halt: Halt) -> (r: (Self, InvocationStep))
        ensures
            r.0.wf(),
            r.0.head() == head,
            r.0.path_span() == path_span,
            r.0.config_reads() == 0,
            spec_check(halt) matches Err(e) ==> (r.1 matches InvocationStep::Return(Err(f)) && reports(f, e, path_span, head)),
            spec_check(halt) is Ok && !spec_platform_supported(os@) ==> (r.1 matches InvocationStep::Return(Err(Failure::Labeled(l)))
                && labeled_matches(l, unsupported_error(), head)),
            spec_check(halt) is Ok && spec_platform_supported(os@) ==> (r.1 matches InvocationStep::Perform(InvocationRequest::Resolve)
                && r.0.phase() == Phase::Resolving),
    {
        let mut invocation = Invocation { head, path_span, phase: Phase::Resolving, paths: None, inside: false, config_reads: Ghost(0) };
        if let Err(e) = check(halt) {
            let step = invocation.fail(e);
            return (invocation, step);
        }
        if !platform_is_supported(os) {
            invocation.phase = Phase::Done;
            let error = Error::unsupported_platform(String::from_str("hnd supports Linux and macOS only"));
            return (invocation, InvocationStep::Return(Err(Failure::Labeled(labeled_error(&error, head, head)))));
        }
        (invocation, InvocationStep::Perform(InvocationRequest::Resolve))
    }

    /// Hand back the result of the requested work and get the next step.
    /// The configuration is read only inside Herdr, once, and only after
    /// path and Herdr-context errors had their chance; the history is
    /// written only for a directory change that did not halt, and a halted
    /// or failed step never writes it.
    pub fn resume(&mut self, event: InvocationEvent, halt: Halt) -> (s: InvocationStep)
        requires
            old(self).wf(),
            old(self).awaits(&event),
        ensures
            final(self).wf(),
            final(self).head() == old(self).head(),
            final(self).path_span() == old(self).path_span(),
            final(self).config_reads() <= 1,
            s matches InvocationStep::Perform(InvocationRequest::ReadConfig) ==> old(self).phase() == Phase::Resolving
                && final(self).inside() && final(self).config_reads() == 1,
            s matches InvocationStep::Perform(InvocationRequest::Resolve) ==> false,
            event is Halted ==> (s matches InvocationStep::Return(Err(f))
                && reports(f, spec_map_halt(RunErrorView::Interrupted, halt.interrupted), old(self).path_span(), old(self).head())),
            event matches InvocationEvent::ResolveFailed(e) ==> (s matches InvocationStep::Return(Err(Failure::Labeled(l)))
                && labeled_matches(l, e@, error_span(e@.kind, old(self).path_span(), old(self).head()))),
            event matches InvocationEvent::Resolved { paths, inside } ==> {
                &&& spec_check(halt) matches Err(e) ==> (s matches InvocationStep::Return(Err(f)) && reports(f, e, old(self).path_span(), old(self).head()))
                &&& spec_check(halt) is Ok && inside ==> (s matches InvocationStep::Perform(InvocationRequest::ReadConfig))
                &&& spec_check(halt) is Ok && !inside ==> (s matches InvocationStep::Perform(InvocationRequest::Orchestrate { paths: p, inside: i, policy })
                    && p.caller_cwd@ == paths.caller_cwd@ && p.target@ == paths.target@ && !i
                    && forall|st: AgentStatus| policy.permits(st) <==> (st == AgentStatus::Idle || st == AgentStatus::Done))
                &&& final(self).caller_cwd() == paths.caller_cwd@
            },
            event matches InvocationEvent::ConfigFailed(c) ==> (s matches InvocationStep::Return(Err(Failure::Labeled(l)))
                && labeled_matches(l, c.error@, c.span)),
            event matches InvocationEvent::Configured(config) ==> {
                &&& spec_check(halt) matches Err(e) ==> (s matches InvocationStep::Return(Err(f)) && reports(f, e, old(self).path_span(), old(self).head()))
                &&& spec_check(halt) is Ok ==> (s matches InvocationStep::Perform(InvocationRequest::Orchestrate { paths: p, inside: i, policy })
                    && i && policy == config.idle_agent_policy && p.caller_cwd@ == old(self).caller_cwd())
            },
            event matches InvocationEvent::Orchestrated(Err(e)) ==> (s matches InvocationStep::Return(Err(f))
                && reports(f, e@, old(self).path_span(), old(self).head())),
            event matches InvocationEvent::Orchestrated(Ok(Outcome::Silent)) ==> s matches InvocationStep::Return(Ok(())),
            event matches InvocationEvent::Orchestrated(Ok(Outcome::ChangeDirectory { path })) ==> if halted(halt) {
                s matches InvocationStep::Return(Err(f))
                    && reports(f, spec_map_halt(RunErrorView::Interrupted, halt.interrupted), old(self).path_span(), old(self).head())
            } else {
                s matches InvocationStep::Perform(InvocationRequest::WriteHistory { updates }) && {
                    &&& updates@.len() == 2
                    &&& updates@[0].0@ == "OLDPWD"@ && updates@[0].1@ == text_of(old(self).caller_cwd())
                    &&& updates@[1].0@ == "PWD"@ && updates@[1].1@ == text_of(path@)
                }
            },
            s matches InvocationStep::Perform(InvocationRequest::WriteHistory { .. }) ==> event matches InvocationEvent::Orchestrated(Ok(Outcome::ChangeDirectory { .. })) && !halted(halt),
            event is Written ==> s matches InvocationStep::Return(Ok(())),
            event matches InvocationEvent::WriteFailed { index, error } ==> (s matches InvocationStep::Return(Err(Failure::Labeled(l)))
                && if index == 0 {
                    labeled_matches(l, error@, error_span(error@.kind, old(self).path_span(), old(self).head()))
                } else {
                    labeled_matches(l, partial_history_error(), old(self).path_span())
                }),
    {
        match event {
            InvocationEvent::Halted => {
                let error = map_halt(RunError::Interrupted, halt.interrupted);
                self.fail(error)
            },
            InvocationEvent::ResolveFailed(error) => {
                self.phase = Phase::Done;
                InvocationStep::Return(Err(Failure::Labeled(labeled_error(&error, self.path_span, self.head))))
            },
            InvocationEvent::Resolved { paths, inside } => {
                let target = paths.target.duplicate();
                let caller_cwd = paths.caller_cwd.duplicate();
                self.paths = Some(paths);
                self.inside = inside;
                if let Err(e) = check(halt) {
                    return self.fail(e);
                }
                if inside {
                    self.phase = Phase::Configuring;
                    self.config_reads = Ghost(1);
                    InvocationStep::Perform(InvocationRequest::ReadConfig)
                } else {
                    self.phase = Phase::Orchestrating;
                    let paths = ResolvedPaths { caller_cwd, target };
                    InvocationStep::Perform(InvocationRequest::Orchestrate { paths, inside: false, policy: AgentIdlePolicy::default_policy() })
                }
            },
            InvocationEvent::ConfigFailed(error) => {
                self.phase = Phase::Done;
                InvocationStep::Return(Err(Failure::Labeled(labeled_error_at(&error.error, error.span))))
            },
            InvocationEvent::Configured(config) => {
                if let Err(e) = check(halt) {
                    return self.fail(e);
                }
                self.phase = Phase::Orchestrating;
                let resolved = self.paths.as_ref().unwrap();
                let paths = ResolvedPaths { caller_cwd: resolved.caller_cwd.duplicate(), target: resolved.target.duplicate() };
                InvocationStep::Perform(InvocationRequest::Orchestrate { paths, inside: true, policy: config.idle_agent_policy })
            },
            InvocationEvent::Orchestrated(Err(error)) => self.fail(error),
            InvocationEvent::Orchestrated(Ok(outcome)) => {
                match outcome {
                    Outcome::Silent => {
                        self.phase = Phase::Done;
                        InvocationStep::Return(Ok(()))
                    },
                    Outcome::ChangeDirectory { path } => {
                        if halt.interrupted || halt.expired {
                            let error = map_halt(RunError::Interrupted, halt.interrupted);
                            return self.fail(error);
                        }
                        let caller_cwd = self.paths.as_ref().unwrap().caller_cwd.duplicate();
                        self.phase = Phase::Writing;
                        let updates = history_updates(&Outcome::ChangeDirectory { path }, &caller_cwd);
                        InvocationStep::Perform(InvocationRequest::WriteHistory { updates })
                    },
                }
            },
            InvocationEvent::Written => {
                self.phase = Phase::Done;
                InvocationStep::Return(Ok(()))
            },
            InvocationEvent::WriteFailed { index, error } => {
                self.phase = Phase::Done;
                if index == 0 {
                    InvocationStep::Return(Err(Failure::Labeled(labeled_error(&error, self.path_span, self.head))))
                } else {
                    let partial = Error::invalid_path(String::from_str("failed to update the caller working directory; OLDPWD may already have changed"));
                    InvocationStep::Return(Err(Failure::Labeled(labeled_error(&partial, self.path_span, self.head))))
                }
            },
        }
    }
}

} // verus!
