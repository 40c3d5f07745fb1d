//! An install step by step: what is asked of the machine next, and what its answer leads to.
//!
//! The state directory is secured first, then the registrations of other accounts are swept, and
//! only then is the service registered. Nothing but a failed registration fails an install.
use vstd::prelude::*;

use crate::config::Config;
use crate::error::Error;
use crate::outcome::Outcome;
use crate::service::backend::Registered;
use crate::service::target::{is_order, InstallFacts, InstallOrder};
use crate::service::verbs::{
    harden_sentence, harden_warning, install_outcome, reports_install, InstallDone, InstallResult,
};
use crate::service::{ScopeChoice, ServiceScope};
use crate::state::Os;
use crate::text;
use crate::user_scope::UserScopeSweep;

verus! {

/// Where an install stands.
pub enum InstallStage {
    /// The state directory is to be secured.
    Harden { order: InstallOrder },
    /// The registrations of every account are to be swept.
    Sweep { order: InstallOrder },
    /// The service is to be registered.
    Register { order: InstallOrder, sweep: Option<UserScopeSweep> },
    /// A restart after a crash is to be set up.
    Recover {
        order: InstallOrder,
        sweep: Option<UserScopeSweep>,
        registered: Registered,
        display_name_verified: Option<bool>,
    },
    /// It is over.
    Over(Result<Outcome<InstallResult>, Error>),
}

/// What the machine is asked to do.
pub enum InstallAction<'a> {
    /// Secure the directory, for that account to keep reading.
    Harden { dir: &'a str, read_grant: Option<&'a str> },
    /// Sweep the registrations of every account.
    Sweep,
    /// Register the service by the order's plan.
    Register(&'a InstallOrder),
    /// Set up a restart after a crash.
    Recover,
    /// Nothing more.
    Nothing,
}

/// What the machine answered.
pub enum InstallEvent {
    /// The directory was secured, or not.
    Hardened(Result<(), Error>),
    /// The sweep was made.
    Swept(UserScopeSweep),
    /// The service was registered, or not; and whether the name a person sees was confirmed, where
    /// that was asked.
    Registered(Result<Registered, Error>, Option<bool>),
    /// The restart was set up, or not.
    Recovered(Result<(), Error>),
}

/// The stage behind the state directory.
pub open spec fn behind_harden(order: InstallOrder) -> InstallStage {
    if order.sweep_accounts {
        InstallStage::Sweep { order }
    } else {
        InstallStage::Register { order, sweep: None }
    }
}

/// The first stage.
pub open spec fn first_stage(order: InstallOrder) -> InstallStage {
    if order.harden is Some {
        InstallStage::Harden { order }
    } else {
        behind_harden(order)
    }
}

/// Whether `next` ends an install that was made as `done` says.
pub open spec fn ends_well(
    config: Config,
    order: InstallOrder,
    done: InstallDone,
    next: InstallStage,
) -> bool {
    next matches InstallStage::Over(Ok(o)) && reports_install(
        o,
        config,
        order.scope,
        order.plan.program@,
        done,
    )
}

/// The words of a failure, where there was one.
pub open spec fn failure_of(r: Result<(), Error>) -> Option<Seq<char>> {
    match r {
        Ok(_) => None,
        Err(e) => Some(e.message@),
    }
}

impl InstallStage {
    /// Whether an event answers what is asked at this stage.
    pub open spec fn admits(self, event: InstallEvent) -> bool {
        match self {
            InstallStage::Harden { .. } => event is Hardened,
            InstallStage::Sweep { .. } => event is Swept,
            InstallStage::Register { .. } => event is Registered,
            InstallStage::Recover { .. } => event is Recovered,
            InstallStage::Over(_) => false,
        }
    }

    /// Whether an install stands at `next` once `event` was answered at this stage.
    pub open spec fn leads_to(
        self,
        config: Config,
        os: Os,
        event: InstallEvent,
        next: InstallStage,
    ) -> bool {
        match (self, event) {
            (InstallStage::Harden { order }, InstallEvent::Hardened(_)) => next == behind_harden(
                order,
            ),
            (InstallStage::Sweep { order }, InstallEvent::Swept(s)) => next
                == InstallStage::Register { order, sweep: Some(s) },
            (
                InstallStage::Register { order, sweep },
                InstallEvent::Registered(Err(e), _),
            ) => next == InstallStage::Over(Err(e)),
            (
                InstallStage::Register { order, sweep },
                InstallEvent::Registered(Ok(registered), display_name_verified),
            ) => if os == Os::Windows {
                next == (InstallStage::Recover { order, sweep, registered, display_name_verified })
            } else {
                ends_well(
                    config,
                    order,
                    InstallDone {
                        registered,
                        sweep,
                        recovery_failure: None,
                        display_name_verified,
                    },
                    next,
                )
            },
            (
                InstallStage::Recover { order, sweep, registered, display_name_verified },
                InstallEvent::Recovered(outcome),
            ) => exists|failure: Option<String>|
                text::opt_view(failure) == failure_of(outcome) && #[trigger] ends_well(
                    config,
                    order,
                    InstallDone {
                        registered,
                        sweep,
                        recovery_failure: failure,
                        display_name_verified,
                    },
                    next,
                ),
            _ => false,
        }
    }

    /// How many stages may still follow.
    pub open spec fn remaining(self) -> nat {
        match self {
            InstallStage::Harden { .. } => 4,
            InstallStage::Sweep { .. } => 3,
            InstallStage::Register { .. } => 2,
            InstallStage::Recover { .. } => 1,
            InstallStage::Over(_) => 0,
        }
    }

    /// Where an install begins.
    pub fn begin(order: InstallOrder) -> (r: InstallStage)
        ensures
            r == first_stage(order),
    {
        if order.harden.is_some() {
            InstallStage::Harden { order }
        } else {
            Self::behind(order)
        }
    }

    fn behind(order: InstallOrder) -> (r: InstallStage)
        ensures
            r == behind_harden(order),
    {
        if order.sweep_accounts {
            InstallStage::Sweep { order }
        } else {
            InstallStage::Register { order, sweep: None }
        }
    }

    /// What the machine is asked to do at this stage.
    pub fn action<'a>(&'a self) -> (r: InstallAction<'a>)
        ensures
            match *self {
                InstallStage::Harden { order } => match order.harden {
                    Some(d) => r matches InstallAction::Harden { dir, read_grant } && dir@ == d@
                        && text::opt_str_view(read_grant) == text::opt_view(order.read_grant),
                    None => r is Nothing,
                },
                InstallStage::Sweep { .. } => r is Sweep,
                InstallStage::Register { order, .. } => r == InstallAction::Register(&order),
                InstallStage::Recover { .. } => r is Recover,
                InstallStage::Over(_) => r is Nothing,
            },
    {
        match self {
            InstallStage::Harden { order } => match &order.harden {
                Some(d) => InstallAction::Harden {
                    dir: d.as_str(),
                    read_grant: match &order.read_grant {
                        Some(g) => Some(g.as_str()),
                        None => None,
                    },
                },
                None => InstallAction::Nothing,
            },
            InstallStage::Sweep { .. } => InstallAction::Sweep,
            InstallStage::Register { order, .. } => InstallAction::Register(order),
            InstallStage::Recover { .. } => InstallAction::Recover,
            InstallStage::Over(_) => InstallAction::Nothing,
        }
    }

    /// What is said of an answer: that the directory could not be secured.
    pub fn warning(&self, event: &InstallEvent) -> (r: Option<String>)
        ensures
            text::opt_view(r) == match (*self, *event) {
                (InstallStage::Harden { order }, InstallEvent::Hardened(Err(e))) => match order.harden {
                    Some(dir) => Some(harden_sentence(dir@, e.message@)),
                    None => None,
                },
                _ => None,
            },
    {
        match (self, event) {
            (InstallStage::Harden { order }, InstallEvent::Hardened(Err(e))) => match &order.harden {
                Some(dir) => Some(harden_warning(dir.as_str(), e)),
                None => None,
            },
            _ => None,
        }
    }

    /// Where an install stands once `event` was answered at this stage.
    pub fn next(self, config: &Config, os: Os, event: InstallEvent) -> (r: InstallStage)
        requires
            self.admits(event),
        ensures
            self.leads_to(*config, os, event, r),
    {
        match self {
            InstallStage::Harden { order } => Self::behind(order),
            InstallStage::Sweep { order } => match event {
                InstallEvent::Swept(s) => InstallStage::Register { order, sweep: Some(s) },
                _ => InstallStage::Sweep { order },
            },
            InstallStage::Register { order, sweep } => match event {
                InstallEvent::Registered(Err(e), _) => InstallStage::Over(Err(e)),
                InstallEvent::Registered(Ok(registered), display_name_verified) => {
                    if os == Os::Windows {
                        InstallStage::Recover { order, sweep, registered, display_name_verified }
                    } else {
                        let done = InstallDone {
                            registered,
                            sweep,
                            recovery_failure: None,
                            display_name_verified,
                        };
                        let program = order.plan.program.as_str();
                        InstallStage::Over(Ok(install_outcome(config, order.scope, program, done)))
                    }
                },
                _ => InstallStage::Register { order, sweep },
            },
            InstallStage::Recover { order, sweep, registered, display_name_verified } => {
                let ghost outcome = event->Recovered_0;
                let recovery_failure = match event {
                    InstallEvent::Recovered(Err(e)) => Some(e.message),
                    _ => None,
                };
                proof {
                    assert(text::opt_view(recovery_failure) == failure_of(outcome));
                }
                let done = InstallDone {
                    registered,
                    sweep,
                    recovery_failure,
                    display_name_verified,
                };
                let ghost made = done;
                let program = order.plan.program.as_str();
                let over = InstallStage::Over(
                    Ok(install_outcome(config, order.scope, program, done)),
                );
                proof {
                    assert(ends_well(*config, order, made, over));
                }
                over
            },
            InstallStage::Over(r) => InstallStage::Over(r),
        }
    }
}

// ---- laws --------------------------------------------------------------------------------------

/// **Law: an install ends.** Each answer leaves fewer stages than before.
pub proof fn law_an_install_ends(
    config: Config,
    os: Os,
    stage: InstallStage,
    event: InstallEvent,
    next: InstallStage,
)
    requires
        stage.admits(event),
        stage.leads_to(config, os, event, next),
    ensures
        next.remaining() < stage.remaining(),
{
}

/// **Law: nothing but the registration fails an install.** An install ends in an error only where the
/// service manager refused the registration, and then in that error.
pub proof fn law_only_a_failed_registration_fails(
    config: Config,
    os: Os,
    stage: InstallStage,
    event: InstallEvent,
    next: InstallStage,
)
    requires
        stage.admits(event),
        stage.leads_to(config, os, event, next),
        next matches InstallStage::Over(r) && r is Err,
    ensures
        stage is Register,
        event matches InstallEvent::Registered(r, _) && r is Err && next == InstallStage::Over(
            Err(r->Err_0),
        ),
{
}

/// **Law: other accounts are swept before a machine-wide registration.** Where accounts have
/// registrations of their own, a machine-wide install neither begins with the registration nor comes
/// to it from the state directory: the sweep stands between, and the report tells of it.
pub proof fn law_accounts_are_swept_before_the_registration(
    config: Config,
    choice: ScopeChoice,
    facts: InstallFacts,
    order: InstallOrder,
    event: InstallEvent,
    next: InstallStage,
)
    requires
        is_order(config, choice, facts, order),
        order.scope == ServiceScope::System,
        facts.os != Os::Windows,
    ensures
        first_stage(order) is Harden || first_stage(order) is Sweep,
        (InstallStage::Harden { order }).leads_to(config, facts.os, event, next) ==> next is Sweep,
        (InstallStage::Sweep { order }).leads_to(config, facts.os, event, next) ==> next == (
        InstallStage::Register { order, sweep: Some(event->Swept_0) }),
{
}

/// **Law: the order of an install.** The state directory is secured first, where one is to be; the accounts
/// are swept next, where they are to be; then comes the registration; and on Windows, and nowhere else, the
/// restarts are set up behind it. What was found on the way is carried to the end.
pub proof fn law_the_order_of_an_install(
    config: Config,
    os: Os,
    order: InstallOrder,
    sweep: UserScopeSweep,
    done: Registered,
    shown: Option<bool>,
    secured: Result<(), Error>,
    next: InstallStage,
)
    ensures
        order.harden is Some ==> first_stage(order) == (InstallStage::Harden { order }),
        order.harden is None && order.sweep_accounts ==> first_stage(order) == (InstallStage::Sweep { order }),
        order.harden is None && !order.sweep_accounts ==> first_stage(order) == (InstallStage::Register {
            order,
            sweep: None,
        }),
        (InstallStage::Harden { order }).leads_to(config, os, InstallEvent::Hardened(secured), next) ==> if order.sweep_accounts {
            next == (InstallStage::Sweep { order })
        } else {
            next == (InstallStage::Register { order, sweep: None })
        },
        (InstallStage::Sweep { order }).leads_to(config, os, InstallEvent::Swept(sweep), next) ==> next == (
        InstallStage::Register { order, sweep: Some(sweep) }),
        (InstallStage::Register { order, sweep: Some(sweep) }).leads_to(
            config,
            os,
            InstallEvent::Registered(Ok(done), shown),
            next,
        ) ==> (next is Recover <==> os == Os::Windows) && (next matches InstallStage::Recover {
            order: o,
            sweep: s,
            registered: r,
            display_name_verified: v,
        } ==> o == order && s == Some(sweep) && r == done && v == shown),
        (InstallStage::Register { order, sweep: Some(sweep) }).leads_to(
            config,
            Os::Linux,
            InstallEvent::Registered(Ok(done), shown),
            next,
        ) ==> (next matches InstallStage::Over(Ok(o)) && o.result.program@ == order.plan.program@ && o.result.scope@
            == order.scope.name() && o.result.recovery_configured && o.result.display_name_verified == shown
            && o.result.reinstalled == done.report.existed),
{
}

/// **Law: a failed set-up of restarts is told and fails nothing.** The install ends well, and says whether
/// restarts were set up.
pub proof fn law_failed_restarts_fail_nothing(
    config: Config,
    os: Os,
    order: InstallOrder,
    sweep: Option<UserScopeSweep>,
    done: Registered,
    shown: Option<bool>,
    outcome: Result<(), Error>,
    next: InstallStage,
)
    requires
        (InstallStage::Recover { order, sweep, registered: done, display_name_verified: shown }).leads_to(
            config,
            os,
            InstallEvent::Recovered(outcome),
            next,
        ),
    ensures
        next matches InstallStage::Over(Ok(o)) && (o.result.recovery_configured <==> outcome is Ok)
            && o.result.display_name_verified == shown && o.result.program@ == order.plan.program@
            && o.result.scope@ == order.scope.name() && o.result.reinstalled == done.report.existed,
{
}

/// **Law: each stage waits for the answer to what it asked.**
pub proof fn law_each_stage_waits_for_its_answer(stage: InstallStage, event: InstallEvent)
    ensures
        stage is Harden ==> (stage.admits(event) <==> event is Hardened),
        stage is Sweep ==> (stage.admits(event) <==> event is Swept),
        stage is Register ==> (stage.admits(event) <==> event is Registered),
        stage is Recover ==> (stage.admits(event) <==> event is Recovered),
        stage is Over ==> !stage.admits(event),
{
}

/// **Law: an answer that was not asked for leads nowhere.**
pub proof fn law_an_unasked_answer_leads_nowhere(
    config: Config,
    os: Os,
    stage: InstallStage,
    event: InstallEvent,
    next: InstallStage,
)
    requires
        !stage.admits(event),
    ensures
        !stage.leads_to(config, os, event, next),
{
}

} // verus!
