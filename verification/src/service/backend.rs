//! The clean reinstall and the removal, as sequences of calls to the service manager.
//!
//! A service that exists is stopped, deleted and waited for before it is created anew; it is never
//! changed in place. What a manager answers is not known here, so each contract says by which calls,
//! in order and with which answers, the manager came from where it was to where it is.
use vstd::prelude::*;

use crate::error::{answer, Error, ErrorKind, ErrorModel};
use crate::service::{ServiceScope, SERVICE_LABEL};
use crate::text;

verus! {

/// How often a deleted service is looked for before giving up.
pub const REMOVAL_POLL_ATTEMPTS: u32 = 40;

/// How long to pause between two looks, in milliseconds.
pub const REMOVAL_POLL_INTERVAL_MS: u64 = 500;

/// What to register.
#[derive(Debug)]
pub struct InstallPlan {
    /// The reverse-DNS name of the service.
    pub label: String,
    /// The name a person sees.
    pub display_name: String,
    /// The absolute path of the program.
    pub program: String,
    /// The arguments the program is given.
    pub args: Vec<String>,
    /// The variables the program finds in its environment.
    pub environment: Vec<(String, String)>,
    /// Whether the service starts at boot or login.
    pub autostart: bool,
}

/// What a plan says.
pub struct PlanModel {
    pub label: Seq<char>,
    pub display_name: Seq<char>,
    pub program: Seq<char>,
    pub args: Seq<Seq<char>>,
    pub environment: Seq<(Seq<char>, Seq<char>)>,
    pub autostart: bool,
}

/// The variables of an environment.
pub open spec fn variables(list: Seq<(String, String)>) -> Seq<(Seq<char>, Seq<char>)> {
    list.map_values(|p: (String, String)| (p.0@, p.1@))
}

impl View for InstallPlan {
    type V = PlanModel;

    open spec fn view(&self) -> PlanModel {
        PlanModel {
            label: self.label@,
            display_name: self.display_name@,
            program: self.program@,
            args: text::views(self.args@),
            environment: variables(self.environment@),
            autostart: self.autostart,
        }
    }
}

/// One call to the service manager, with what it answered.
pub enum BackendCall {
    /// Whether the service is registered in the scope.
    Probe(ServiceScope, Result<bool, ErrorModel>),
    /// Stop it.
    Stop(ServiceScope, Result<(), ErrorModel>),
    /// Deregister it.
    Delete(ServiceScope, Result<(), ErrorModel>),
    /// Register it by a plan.
    Create(ServiceScope, PlanModel, Result<(), ErrorModel>),
    /// A pause between two looks.
    Pause,
}

/// The service manager of the operating system, in each scope.
pub trait ServiceBackend: Sized {
    /// Whether the manager may take `call`, with the answer that stands in it, and be `after` then.
    open spec fn may_take(self, call: BackendCall, after: Self) -> bool {
        true
    }

    /// Whether the service is registered in `scope`.
    fn is_installed(&mut self, scope: ServiceScope) -> (r: Result<bool, Error>)
        ensures
            (*old(self)).may_take(BackendCall::Probe(scope, answer(r)), *final(self)),
    ;

    /// Stop the running service.
    fn stop(&mut self, scope: ServiceScope) -> (r: Result<(), Error>)
        ensures
            (*old(self)).may_take(BackendCall::Stop(scope, answer(r)), *final(self)),
    ;

    /// Deregister the service.
    fn delete(&mut self, scope: ServiceScope) -> (r: Result<(), Error>)
        ensures
            (*old(self)).may_take(BackendCall::Delete(scope, answer(r)), *final(self)),
    ;

    /// Register the service by `plan`.
    fn create(&mut self, scope: ServiceScope, plan: &InstallPlan) -> (r: Result<(), Error>)
        ensures
            (*old(self)).may_take(BackendCall::Create(scope, plan@, answer(r)), *final(self)),
    ;

    /// Wait [`REMOVAL_POLL_INTERVAL_MS`].
    fn pause(&mut self)
        ensures
            (*old(self)).may_take(BackendCall::Pause, *final(self)),
    ;
}

/// Whether the manager `from` took `calls`, these and no others, in their order, and is `to` since.
pub open spec fn took<B: ServiceBackend>(from: B, calls: Seq<BackendCall>, to: B) -> bool
    decreases calls.len(),
{
    if calls.len() == 0 {
        from == to
    } else {
        exists|mid: B|
            took(from, calls.drop_last(), mid) && #[trigger] mid.may_take(calls.last(), to)
    }
}

/// One more call.
pub proof fn lemma_took_one_more<B: ServiceBackend>(
    from: B,
    calls: Seq<BackendCall>,
    mid: B,
    call: BackendCall,
    to: B,
)
    requires
        took(from, calls, mid),
        mid.may_take(call, to),
    ensures
        took(from, calls.push(call), to),
{
    assert(calls.push(call).drop_last() =~= calls);
    assert(mid.may_take(calls.push(call).last(), to));
}

/// Calls behind calls.
pub proof fn lemma_took_on<B: ServiceBackend>(
    from: B,
    calls: Seq<BackendCall>,
    mid: B,
    more: Seq<BackendCall>,
    to: B,
)
    requires
        took(from, calls, mid),
        took(mid, more, to),
    ensures
        took(from, calls + more, to),
    decreases more.len(),
{
    if more.len() == 0 {
        assert(calls + more =~= calls);
    } else {
        let last = choose|b: B|
            took(mid, more.drop_last(), b) && #[trigger] b.may_take(more.last(), to);
        lemma_took_on(from, calls, mid, more.drop_last(), last);
        lemma_took_one_more(from, calls + more.drop_last(), last, more.last(), to);
        assert((calls + more.drop_last()).push(more.last()) =~= calls + more);
    }
}

/// A service manager that keeps its registrations in memory. It registers nothing over a registration
/// that is there.
#[derive(Debug, Clone, Copy, PartialEq, Eq, Structural)]
pub struct MemoryBackend {
    /// Whether the service is registered in the system's scope.
    pub system: bool,
    /// Whether it is registered in the user's.
    pub user: bool,
}

impl MemoryBackend {
    /// Whether the service is registered in `scope`.
    pub open spec fn holds(self, scope: ServiceScope) -> bool {
        match scope {
            ServiceScope::System => self.system,
            ServiceScope::User => self.user,
        }
    }

    /// The same manager, with that registration or without it.
    pub open spec fn with(self, scope: ServiceScope, registered: bool) -> Self {
        match scope {
            ServiceScope::System => MemoryBackend { system: registered, user: self.user },
            ServiceScope::User => MemoryBackend { system: self.system, user: registered },
        }
    }

    fn is_registered(&self, scope: ServiceScope) -> (r: bool)
        ensures
            r == self.holds(scope),
    {
        match scope {
            ServiceScope::System => self.system,
            ServiceScope::User => self.user,
        }
    }

    fn put(&mut self, scope: ServiceScope, registered: bool)
        ensures
            *final(self) == (*old(self)).with(scope, registered),
    {
        match scope {
            ServiceScope::System => {
                self.system = registered;
            },
            ServiceScope::User => {
                self.user = registered;
            },
        }
    }

    fn found(&self, scope: ServiceScope) -> (r: Result<(), Error>)
        ensures
            r is Ok <==> self.holds(scope),
            r matches Err(e) ==> e.kind == ErrorKind::NotFound,
    {
        if self.is_registered(scope) {
            Ok(())
        } else {
            Err(Error::new(ErrorKind::NotFound, "the service is not registered".to_owned()))
        }
    }
}

impl ServiceBackend for MemoryBackend {
    open spec fn may_take(self, call: BackendCall, after: Self) -> bool {
        match call {
            BackendCall::Probe(s, r) => r == Ok::<bool, ErrorModel>(self.holds(s)) && after == self,
            BackendCall::Stop(s, r) => (r is Ok <==> self.holds(s)) && (r matches Err(e) ==> e.kind
                == ErrorKind::NotFound) && after == self,
            BackendCall::Delete(s, r) => (r is Ok <==> self.holds(s)) && (r matches Err(e) ==> e.kind
                == ErrorKind::NotFound) && after == self.with(s, false),
            BackendCall::Create(s, _, r) => (r is Err <==> self.holds(s)) && (r matches Err(e)
                ==> e.kind == ErrorKind::AlreadyExists) && after == self.with(s, true),
            BackendCall::Pause => after == self,
        }
    }

    fn is_installed(&mut self, scope: ServiceScope) -> (r: Result<bool, Error>) {
        Ok(self.is_registered(scope))
    }

    fn stop(&mut self, scope: ServiceScope) -> (r: Result<(), Error>) {
        self.found(scope)
    }

    fn delete(&mut self, scope: ServiceScope) -> (r: Result<(), Error>) {
        let r = self.found(scope);
        self.put(scope, false);
        r
    }

    fn create(&mut self, scope: ServiceScope, plan: &InstallPlan) -> (r: Result<(), Error>) {
        if self.is_registered(scope) {
            return Err(
                Error::new(ErrorKind::AlreadyExists, "the service already exists".to_owned()),
            );
        }
        self.put(scope, true);
        Ok(())
    }

    fn pause(&mut self) {
    }
}

// ---- waiting for a removal ---------------------------------------------------------------------

/// `k` looks that still saw the service, with a pause behind each.
pub open spec fn polled(scope: ServiceScope, k: nat) -> Seq<BackendCall>
    decreases k,
{
    if k == 0 {
        Seq::empty()
    } else {
        polled(scope, (k - 1) as nat).push(BackendCall::Probe(scope, Ok(true))).push(
            BackendCall::Pause,
        )
    }
}

/// What is said of a deleted service that does not go away.
pub open spec fn lingering() -> ErrorModel {
    ErrorModel {
        kind: ErrorKind::TimedOut,
        message: "dig-node: service \""@ + SERVICE_LABEL@
            + "\" was deleted but is still present after waiting for removal; cannot cleanly recreate it (a handle may be held open — close the Services console and retry)"@,
    }
}

/// Whether `calls` are a wait that ended in `r` after `k` pauses: the service was gone at the next
/// look, the next look failed, or the last look was spent.
pub open spec fn waited(
    calls: Seq<BackendCall>,
    scope: ServiceScope,
    k: nat,
    r: Result<(), ErrorModel>,
) -> bool {
    match r {
        Ok(()) => k < REMOVAL_POLL_ATTEMPTS && calls == polled(scope, k).push(
            BackendCall::Probe(scope, Ok(false)),
        ),
        Err(e) => {
            ||| k < REMOVAL_POLL_ATTEMPTS && calls == polled(scope, k).push(
                BackendCall::Probe(scope, Err(e)),
            )
            ||| k == REMOVAL_POLL_ATTEMPTS && calls == polled(scope, k) && e == lingering()
        },
    }
}

/// Wait until a deleted service is gone, so that a new one is never created over it. The first look
/// comes before the first pause.
pub fn wait_for_removal<B: ServiceBackend>(backend: &mut B, scope: ServiceScope) -> (r: Result<(), Error>)
    ensures
        exists|calls: Seq<BackendCall>, k: nat|
            #![trigger took(*old(backend), calls, *final(backend)), waited(calls, scope, k, answer(r))]
            took(*old(backend), calls, *final(backend)) && waited(calls, scope, k, answer(r)),
{
    let ghost start = *backend;
    let mut k: u32 = 0;
    while k < REMOVAL_POLL_ATTEMPTS
        invariant
            k <= REMOVAL_POLL_ATTEMPTS,
            start == *old(backend),
            took(start, polled(scope, k as nat), *backend),
        decreases REMOVAL_POLL_ATTEMPTS - k,
    {
        let ghost so_far = polled(scope, k as nat);
        let ghost before = *backend;
        let seen = backend.is_installed(scope);
        let ghost look = BackendCall::Probe(scope, answer(seen));
        proof {
            lemma_took_one_more(start, so_far, before, look, *backend);
        }
        match seen {
            Err(e) => {
                proof {
                    assert(waited(so_far.push(look), scope, k as nat, Err(e@)));
                }
                return Err(e);
            },
            Ok(false) => {
                proof {
                    assert(waited(so_far.push(look), scope, k as nat, Ok(())));
                }
                return Ok(());
            },
            Ok(true) => {
                let ghost looked = *backend;
                backend.pause();
                proof {
                    lemma_took_one_more(
                        start,
                        so_far.push(look),
                        looked,
                        BackendCall::Pause,
                        *backend,
                    );
                    assert(polled(scope, (k + 1) as nat) =~= so_far.push(look).push(
                        BackendCall::Pause,
                    ));
                }
            },
        }
        k += 1;
    }
    let mut m = "dig-node: service \"".to_owned();
    m.append(SERVICE_LABEL);
    m.append(
        "\" was deleted but is still present after waiting for removal; cannot cleanly recreate it (a handle may be held open — close the Services console and retry)",
    );
    let e = Error::new(ErrorKind::TimedOut, m);
    proof {
        assert(waited(polled(scope, k as nat), scope, k as nat, Err(e@)));
    }
    Err(e)
}

// ---- the clean reinstall -----------------------------------------------------------------------

/// What a reinstall did.
#[derive(Debug, Clone, Copy, PartialEq, Eq, Structural)]
pub struct ReinstallReport {
    /// A registration was there before.
    pub existed: bool,
    /// It was stopped.
    pub stopped: bool,
    /// It was deregistered.
    pub deleted: bool,
    /// The service was registered.
    pub created: bool,
}

impl Default for ReinstallReport {
    fn default() -> (r: Self)
        ensures
            r == (ReinstallReport {
                existed: false,
                stopped: false,
                deleted: false,
                created: false,
            }),
    {
        ReinstallReport { existed: false, stopped: false, deleted: false, created: false }
    }
}

/// Whether `calls` are one registration by `plan` that was answered by `r`; a success reports
/// `report`.
pub open spec fn registers(
    calls: Seq<BackendCall>,
    scope: ServiceScope,
    plan: PlanModel,
    report: ReinstallReport,
    r: Result<ReinstallReport, ErrorModel>,
) -> bool {
    match r {
        Ok(done) => done == report && calls == seq![BackendCall::Create(scope, plan, Ok(()))],
        Err(e) => calls == seq![BackendCall::Create(scope, plan, Err(e))],
    }
}

/// Whether `calls` are a wait of `n` calls, and a registration if the wait ended well.
pub open spec fn waits_and_registers(
    calls: Seq<BackendCall>,
    scope: ServiceScope,
    plan: PlanModel,
    stopped: bool,
    r: Result<ReinstallReport, ErrorModel>,
    n: int,
    k: nat,
) -> bool {
    &&& 0 <= n <= calls.len()
    &&& {
        ||| n == calls.len() && r is Err && waited(calls, scope, k, Err(r->Err_0))
        ||| waited(calls.take(n), scope, k, Ok(())) && registers(
            calls.skip(n),
            scope,
            plan,
            ReinstallReport { existed: true, stopped, deleted: true, created: true },
            r,
        )
    }
}

/// Whether `calls` are a clean reinstall that was answered by `r`: a service that is there is
/// stopped, deregistered and waited for; then it is registered. A failed stop changes nothing; any
/// other failed call is the last one.
pub open spec fn is_reinstall(
    calls: Seq<BackendCall>,
    scope: ServiceScope,
    plan: PlanModel,
    r: Result<ReinstallReport, ErrorModel>,
) -> bool {
    &&& calls.len() > 0
    &&& calls[0] matches BackendCall::Probe(s, seen)
    &&& s == scope
    &&& match seen {
        Err(e) => calls.len() == 1 && r == Err::<ReinstallReport, ErrorModel>(e),
        Ok(false) => registers(
            calls.skip(1),
            scope,
            plan,
            ReinstallReport { existed: false, stopped: false, deleted: false, created: true },
            r,
        ),
        Ok(true) => {
            &&& calls.len() > 2
            &&& calls[1] matches BackendCall::Stop(s1, stop)
            &&& s1 == scope
            &&& calls[2] matches BackendCall::Delete(s2, gone)
            &&& s2 == scope
            &&& match gone {
                Err(e) => calls.len() == 3 && r == Err::<ReinstallReport, ErrorModel>(e),
                Ok(()) => exists|n: int, k: nat|
                    #[trigger] waits_and_registers(
                        calls.skip(3),
                        scope,
                        plan,
                        stop is Ok,
                        r,
                        n,
                        k,
                    ),
            }
        },
    }
}

/// Register the service cleanly: a registration that is there is stopped, deregistered and waited
/// for first. The service is not started.
pub fn reinstall<B: ServiceBackend>(
    backend: &mut B,
    scope: ServiceScope,
    plan: &InstallPlan,
) -> (r: Result<ReinstallReport, Error>)
    ensures
        exists|calls: Seq<BackendCall>| #[trigger]
            took(*old(backend), calls, *final(backend)) && is_reinstall(
                calls,
                scope,
                plan@,
                answer(r),
            ),
{
    let ghost start = *backend;
    let mut report = ReinstallReport::default();
    let seen = backend.is_installed(scope);
    let ghost looked = *backend;
    let ghost first = BackendCall::Probe(scope, answer(seen));
    proof {
        lemma_took_one_more(start, Seq::empty(), start, first, looked);
        assert(Seq::empty().push(first) =~= seq![first]);
    }
    match seen {
        Err(e) => {
            proof {
                assert(is_reinstall(seq![first], scope, plan@, Err(e@)));
            }
            Err(e)
        },
        Ok(false) => {
            let made = backend.create(scope, plan);
            report.created = true;
            proof {
                let last = BackendCall::Create(scope, plan@, answer(made));
                let calls = seq![first].push(last);
                lemma_took_one_more(start, seq![first], looked, last, *backend);
                assert(calls.skip(1) =~= seq![last]);
                assert(calls[0] == first);
                let r = if made is Ok {
                    Ok::<ReinstallReport, ErrorModel>(report)
                } else {
                    Err(made->Err_0@)
                };
                assert(is_reinstall(calls, scope, plan@, r));
            }
            match made {
                Err(e) => Err(e),
                Ok(()) => Ok(report),
            }
        },
        Ok(true) => {
            report.existed = true;
            let stop = backend.stop(scope);
            let ghost second = BackendCall::Stop(scope, answer(stop));
            let ghost stopped = *backend;
            if stop.is_ok() {
                report.stopped = true;
            }
            let gone = backend.delete(scope);
            let ghost third = BackendCall::Delete(scope, answer(gone));
            let ghost deleted = *backend;
            let ghost head = seq![first, second, third];
            proof {
                lemma_took_one_more(start, seq![first], looked, second, stopped);
                lemma_took_one_more(start, seq![first].push(second), stopped, third, deleted);
                assert(seq![first].push(second).push(third) =~= head);
            }
            if let Err(e) = gone {
                proof {
                    assert(head[0] == first && head[1] == second && head[2] == third);
                    assert(is_reinstall(head, scope, plan@, Err(e@)));
                }
                return Err(e);
            }
            report.deleted = true;
            let waiting = wait_for_removal(backend, scope);
            let ghost over = *backend;
            let ghost (wait, k) = choose|calls: Seq<BackendCall>, k: nat|
                #![trigger took(deleted, calls, over), waited(calls, scope, k, answer(waiting))]
                took(deleted, calls, over) && waited(calls, scope, k, answer(waiting));
            proof {
                lemma_took_on(start, head, deleted, wait, over);
            }
            if let Err(e) = waiting {
                proof {
                    let calls = head + wait;
                    assert(calls.skip(3) =~= wait);
                    assert(waits_and_registers(
                        calls.skip(3),
                        scope,
                        plan@,
                        answer(stop) is Ok,
                        Err(e@),
                        wait.len() as int,
                        k,
                    ));
                    assert(calls[0] == first && calls[1] == second && calls[2] == third);
                    assert(is_reinstall(calls, scope, plan@, Err(e@)));
                }
                return Err(e);
            }
            let made = backend.create(scope, plan);
            report.created = true;
            proof {
                let last = BackendCall::Create(scope, plan@, answer(made));
                let tail = wait.push(last);
                let calls = head + tail;
                lemma_took_one_more(start, head + wait, over, last, *backend);
                assert((head + wait).push(last) =~= calls);
                assert(calls.skip(3) =~= tail);
                assert(tail.take(wait.len() as int) =~= wait);
                assert(tail.skip(wait.len() as int) =~= seq![last]);
                let r = if made is Ok {
                    Ok::<ReinstallReport, ErrorModel>(report)
                } else {
                    Err(made->Err_0@)
                };
                assert(waits_and_registers(
                    calls.skip(3),
                    scope,
                    plan@,
                    answer(stop) is Ok,
                    r,
                    wait.len() as int,
                    k,
                ));
                assert(calls[0] == first && calls[1] == second && calls[2] == third);
                assert(is_reinstall(calls, scope, plan@, r));
            }
            match made {
                Err(e) => Err(e),
                Ok(()) => Ok(report),
            }
        },
    }
}

// ---- removal -----------------------------------------------------------------------------------

/// How hard to try in a scope.
#[derive(Debug, Clone, Copy, PartialEq, Eq, Structural)]
pub enum RemovalMode {
    /// The scope that was asked for: deregistered whatever the look says, as a look can miss a
    /// registration.
    Requested,
    /// A scope nobody asked about: touched only where a registration was seen.
    Swept,
}

/// What a removal in one scope did.
#[derive(Debug)]
pub struct ScopeRemoval {
    /// The scope.
    pub scope: ServiceScope,
    /// A registration was seen; that none was seen proves nothing.
    pub found: bool,
    /// The deregistration succeeded.
    pub removed: bool,
    /// Whether a registration remains is not known.
    pub indeterminate: bool,
    /// Why the look or the removal failed, where one did.
    pub error: Option<String>,
}

/// What a removal in one scope did.
pub struct RemovalModel {
    pub scope: ServiceScope,
    pub found: bool,
    pub removed: bool,
    pub indeterminate: bool,
    pub error: Option<Seq<char>>,
}

impl View for ScopeRemoval {
    type V = RemovalModel;

    open spec fn view(&self) -> RemovalModel {
        RemovalModel {
            scope: self.scope,
            found: self.found,
            removed: self.removed,
            indeterminate: self.indeterminate,
            error: text::opt_view(self.error),
        }
    }
}

/// Whether a failed removal leaves it open that a registration remains: it does unless the look
/// succeeded and the manager itself said that there was nothing.
pub fn removal_failure_is_indeterminate(probe_failed: bool, delete_error: ErrorKind) -> (r: bool)
    ensures
        r == (probe_failed || delete_error != ErrorKind::NotFound),
{
    probe_failed || delete_error != ErrorKind::NotFound
}

/// What is noted of a look.
pub open spec fn look_note(seen: Result<bool, ErrorModel>) -> Option<Seq<char>> {
    match seen {
        Ok(_) => None,
        Err(e) => Some("could not determine whether it is registered: "@ + e.message),
    }
}

/// Whether `calls` are a removal in `scope` that came to `m`.
pub open spec fn is_removal(
    calls: Seq<BackendCall>,
    scope: ServiceScope,
    mode: RemovalMode,
    m: RemovalModel,
) -> bool {
    &&& calls.len() > 0
    &&& calls[0] matches BackendCall::Probe(s, seen)
    &&& s == scope
    &&& m.scope == scope
    &&& m.found == (seen == Ok::<bool, ErrorModel>(true))
    &&& if mode == RemovalMode::Swept && !m.found {
        calls.len() == 1 && !m.removed && m.indeterminate == (seen is Err) && m.error == look_note(
            seen,
        )
    } else {
        &&& calls.len() == 3
        &&& calls[1] matches BackendCall::Stop(s1, _)
        &&& s1 == scope
        &&& calls[2] matches BackendCall::Delete(s2, gone)
        &&& s2 == scope
        &&& m.removed == (gone is Ok)
        &&& match gone {
            Ok(()) => !m.indeterminate && m.error == look_note(seen),
            Err(e) => m.indeterminate == (seen is Err || e.kind != ErrorKind::NotFound) && m.error
                == Some(e.message),
        }
    }
}

/// Deregister the service in one scope as far as that goes, and report what happened.
pub fn remove_registration<B: ServiceBackend>(
    backend: &mut B,
    scope: ServiceScope,
    mode: RemovalMode,
) -> (r: ScopeRemoval)
    ensures
        exists|calls: Seq<BackendCall>| #[trigger]
            took(*old(backend), calls, *final(backend)) && is_removal(calls, scope, mode, r@),
{
    let ghost start = *backend;
    let seen = backend.is_installed(scope);
    let ghost first = BackendCall::Probe(scope, answer(seen));
    let ghost looked = *backend;
    proof {
        lemma_took_one_more(start, Seq::empty(), start, first, looked);
        assert(Seq::empty().push(first) =~= seq![first]);
    }
    let mut found = false;
    let mut error: Option<String> = None;
    let mut unseen = false;
    match &seen {
        Ok(f) => {
            found = *f;
        },
        Err(e) => {
            let mut m = "could not determine whether it is registered: ".to_owned();
            m.append(e.message.as_str());
            error = Some(m);
            unseen = true;
        },
    }
    if mode == RemovalMode::Swept && !found {
        let out = ScopeRemoval { scope, found, removed: false, indeterminate: unseen, error };
        proof {
            assert(is_removal(seq![first], scope, mode, out@));
        }
        return out;
    }
    let stop = backend.stop(scope);
    let ghost second = BackendCall::Stop(scope, answer(stop));
    let ghost stopped = *backend;
    let gone = backend.delete(scope);
    let ghost third = BackendCall::Delete(scope, answer(gone));
    let ghost calls = seq![first].push(second).push(third);
    proof {
        lemma_took_one_more(start, seq![first], looked, second, stopped);
        lemma_took_one_more(start, seq![first].push(second), stopped, third, *backend);
        assert(calls[0] == first && calls[1] == second && calls[2] == third);
    }
    let out = match gone {
        Ok(()) => ScopeRemoval { scope, found, removed: true, indeterminate: false, error },
        Err(e) => ScopeRemoval {
            scope,
            found,
            removed: false,
            indeterminate: removal_failure_is_indeterminate(unseen, e.kind),
            error: Some(e.message),
        },
    };
    proof {
        assert(is_removal(calls, scope, mode, out@));
    }
    out
}

/// The models of a list of removals.
pub open spec fn removal_models(list: Seq<ScopeRemoval>) -> Seq<RemovalModel> {
    list.map_values(|r: ScopeRemoval| r@)
}

/// The calls of `parts`, one part behind the other.
pub open spec fn in_turn(parts: Seq<Seq<BackendCall>>) -> Seq<BackendCall>
    decreases parts.len(),
{
    if parts.len() == 0 {
        Seq::empty()
    } else {
        in_turn(parts.drop_last()) + parts.last()
    }
}

/// Whether `calls` are removals in the scopes of `targets`, one behind the other, each with its part
/// of the calls.
pub open spec fn are_removals(
    calls: Seq<BackendCall>,
    targets: Seq<(ServiceScope, RemovalMode)>,
    models: Seq<RemovalModel>,
    parts: Seq<Seq<BackendCall>>,
) -> bool {
    &&& models.len() == targets.len()
    &&& parts.len() == targets.len()
    &&& calls == in_turn(parts)
    &&& forall|i: int|
        0 <= i < targets.len() ==> #[trigger] is_removal(
            parts[i],
            targets[i].0,
            targets[i].1,
            models[i],
        )
}

/// Deregister the service in several scopes, one behind the other.
pub fn remove_registrations<B: ServiceBackend>(
    backend: &mut B,
    targets: &Vec<(ServiceScope, RemovalMode)>,
) -> (r: Vec<ScopeRemoval>)
    ensures
        exists|calls: Seq<BackendCall>, parts: Seq<Seq<BackendCall>>|
            took(*old(backend), calls, *final(backend)) && #[trigger] are_removals(
                calls,
                targets@,
                removal_models(r@),
                parts,
            ),
{
    let ghost start = *backend;
    let ghost mut calls: Seq<BackendCall> = Seq::empty();
    let ghost mut parts: Seq<Seq<BackendCall>> = Seq::empty();
    let mut out: Vec<ScopeRemoval> = Vec::new();
    let mut i: usize = 0;
    proof {
        assert(targets@.take(0) =~= Seq::empty());
        assert(removal_models(out@) =~= Seq::empty());
    }
    while i < targets.len()
        invariant
            i <= targets@.len(),
            start == *old(backend),
            took(start, calls, *backend),
            are_removals(
                calls,
                targets@.take(i as int),
                removal_models(out@),
                parts,
            ),
        decreases targets@.len() - i,
    {
        let ghost before = *backend;
        let ghost done = removal_models(out@);
        let target = targets[i];
        let removal = remove_registration(backend, target.0, target.1);
        out.push(removal);
        proof {
            let step = choose|step: Seq<BackendCall>| #[trigger]
                took(before, step, *backend) && is_removal(step, target.0, target.1, removal@);
            lemma_took_on(start, calls, before, step, *backend);
            calls = calls + step;
            let upto = targets@.take(i + 1);
            let models = removal_models(out@);
            let so_far = parts;
            parts = parts.push(step);
            assert(parts.drop_last() =~= so_far);
            assert(calls == in_turn(parts));
            assert forall|j: int| 0 <= j < upto.len() implies #[trigger] is_removal(
                parts[j],
                upto[j].0,
                upto[j].1,
                models[j],
            ) by {
                if j < i {
                    assert(is_removal(
                        so_far[j],
                        targets@.take(i as int)[j].0,
                        targets@.take(i as int)[j].1,
                        done[j],
                    ));
                }
            }
        }
        i += 1;
    }
    proof {
        assert(targets@.take(targets@.len() as int) =~= targets@);
    }
    out
}

// ---- installing in a scope ---------------------------------------------------------------------

/// What an install in a scope did.
pub struct Registered {
    /// The reinstall in the scope.
    pub report: ReinstallReport,
    /// The removal in the other scope, where there is one.
    pub migration: Option<ScopeRemoval>,
}

/// The first part of an install: the sweep of the other scope, where there is one.
pub open spec fn is_migration(
    calls: Seq<BackendCall>,
    other: Option<ServiceScope>,
    m: Option<RemovalModel>,
) -> bool {
    match (other, m) {
        (None, None) => calls.len() == 0,
        (Some(s), Some(done)) => is_removal(calls, s, RemovalMode::Swept, done),
        _ => false,
    }
}

/// What was removed from the other scope.
pub open spec fn migration_model(m: Option<ScopeRemoval>) -> Option<RemovalModel> {
    match m {
        Some(r) => Some(r@),
        None => None,
    }
}

/// Whether `calls` are an install whose first `n` calls swept the other scope and the rest
/// reinstalled.
pub open spec fn is_install(
    calls: Seq<BackendCall>,
    scope: ServiceScope,
    other: Option<ServiceScope>,
    plan: PlanModel,
    r: Result<ReinstallReport, ErrorModel>,
    m: Option<RemovalModel>,
    n: int,
) -> bool {
    &&& 0 <= n <= calls.len()
    &&& is_migration(calls.take(n), other, m)
    &&& is_reinstall(calls.skip(n), scope, plan, r)
}

/// Register in `scope`, after a registration in the other scope was cleared, so that two services
/// never race for one port. A registration there that cannot be cleared is reported; it does not
/// fail the install.
pub fn install_at_scope<B: ServiceBackend>(
    backend: &mut B,
    scope: ServiceScope,
    other: Option<ServiceScope>,
    plan: &InstallPlan,
) -> (r: Result<Registered, Error>)
    ensures
        match r {
            Ok(done) => exists|calls: Seq<BackendCall>, n: int|
                took(*old(backend), calls, *final(backend)) && #[trigger] is_install(
                    calls,
                    scope,
                    other,
                    plan@,
                    Ok(done.report),
                    migration_model(done.migration),
                    n,
                ),
            Err(e) => exists|calls: Seq<BackendCall>, n: int, m: Option<RemovalModel>|
                took(*old(backend), calls, *final(backend)) && #[trigger] is_install(
                    calls,
                    scope,
                    other,
                    plan@,
                    Err(e@),
                    m,
                    n,
                ),
        },
{
    let ghost start = *backend;
    let migration: Option<ScopeRemoval> = match other {
        Some(s) => Some(remove_registration(backend, s, RemovalMode::Swept)),
        None => None,
    };
    let ghost mid = *backend;
    let ghost sweep = choose|calls: Seq<BackendCall>| #[trigger]
        took(start, calls, mid) && is_migration(calls, other, migration_model(migration));
    proof {
        if other is None {
            assert(took(start, Seq::empty(), mid));
        }
    }
    let result = reinstall(backend, scope, plan);
    let ghost rest = choose|calls: Seq<BackendCall>| #[trigger]
        took(mid, calls, *backend) && is_reinstall(calls, scope, plan@, answer(result));
    proof {
        let calls = sweep + rest;
        lemma_took_on(start, sweep, mid, rest, *backend);
        assert(calls.take(sweep.len() as int) =~= sweep);
        assert(calls.skip(sweep.len() as int) =~= rest);
        assert(is_install(
            calls,
            scope,
            other,
            plan@,
            answer(result),
            migration_model(migration),
            sweep.len() as int,
        ));
    }
    match result {
        Ok(report) => {
            let done = Registered { report, migration };
            proof {
                assert(is_install(
                    sweep + rest,
                    scope,
                    other,
                    plan@,
                    Ok(done.report),
                    migration_model(done.migration),
                    sweep.len() as int,
                ));
            }
            Ok(done)
        },
        Err(e) => Err(e),
    }
}

// ---- laws --------------------------------------------------------------------------------------

proof fn lemma_polled(scope: ServiceScope, k: nat)
    ensures
        polled(scope, k).len() == 2 * k,
        forall|i: int|
            0 <= i < polled(scope, k).len() ==> (#[trigger] polled(scope, k)[i]
                == BackendCall::Probe(scope, Ok(true)) || polled(scope, k)[i]
                == BackendCall::Pause),
    decreases k,
{
    if k > 0 {
        lemma_polled(scope, (k - 1) as nat);
    }
}

/// Where the calls of a reinstall may hold what: the registration is by the plan, is last and follows a
/// look that saw nothing, the deregistration is third, the stop second; all are in the one scope.
pub open spec fn in_order(calls: Seq<BackendCall>, scope: ServiceScope, plan: PlanModel) -> bool {
    &&& forall|i: int|
        0 <= i < calls.len() && #[trigger] calls[i] is Create ==> i == calls.len() - 1 && i > 0
            && calls[i - 1] == BackendCall::Probe(scope, Ok(false)) && calls[i]->Create_1 == plan
    &&& forall|i: int|
        0 <= i < calls.len() && #[trigger] calls[i] is Delete ==> i == 2 && calls[0]
            == BackendCall::Probe(scope, Ok(true))
    &&& forall|i: int| 0 <= i < calls.len() && #[trigger] calls[i] is Stop ==> i == 1
    &&& forall|i: int|
        0 <= i < calls.len() ==> #[trigger] calls[i] is Pause || addressed(calls[i]) == Some(scope)
}

/// Whether a call failed that a reinstall cannot go on without.
pub open spec fn is_fatal(call: BackendCall) -> bool {
    match call {
        BackendCall::Probe(_, r) => r is Err,
        BackendCall::Delete(_, r) => r is Err,
        BackendCall::Create(_, _, r) => r is Err,
        _ => false,
    }
}

/// What holds of the calls behind a deregistration.
proof fn lemma_after_delete(
    rest: Seq<BackendCall>,
    scope: ServiceScope,
    plan: PlanModel,
    stopped: bool,
    r: Result<ReinstallReport, ErrorModel>,
    n: int,
    k: nat,
)
    requires
        waits_and_registers(rest, scope, plan, stopped, r, n, k),
    ensures
        forall|i: int|
            #![trigger rest[i]]
            0 <= i < rest.len() ==> !(rest[i] is Delete) && !(rest[i] is Stop) && (rest[i] is Pause
                || addressed(rest[i]) == Some(scope)),
        forall|i: int|
            #![trigger rest[i]]
            0 <= i < rest.len() && rest[i] is Create ==> i == rest.len() - 1 && i > 0 && rest[i - 1]
                == BackendCall::Probe(scope, Ok(false)) && rest[i]->Create_1 == plan,
        forall|i: int|
            #![trigger rest[i]]
            0 <= i < rest.len() && is_fatal(rest[i]) ==> i == rest.len() - 1,
        rest.len() > 0,
        !(rest.last() is Create) ==> r is Err,
        rest.last() is Pause ==> r == Err::<ReinstallReport, ErrorModel>(lingering()),
        r matches Ok(report) ==> rest.len() > 0 && rest.last() == BackendCall::Create(
            scope,
            plan,
            Ok(()),
        ) && report == (ReinstallReport { existed: true, stopped, deleted: true, created: true }),
{
    lemma_polled(scope, k);
    let p = polled(scope, k);
    if n == rest.len() && r is Err && waited(rest, scope, k, Err(r->Err_0)) {
        assert forall|i: int| #![trigger rest[i]] 0 <= i < rest.len() implies !(rest[i] is Create)
            && !(rest[i] is Delete) && !(rest[i] is Stop) && (rest[i] is Pause || addressed(rest[i])
            == Some(scope)) && (is_fatal(rest[i]) ==> i == rest.len() - 1) by {
            if i < p.len() {
                assert(rest[i] == p[i]);
            }
        }
    } else {
        let wait = rest.take(n);
        let made = rest.skip(n);
        assert(wait == p.push(BackendCall::Probe(scope, Ok(false))));
        assert(wait.len() == n);
        assert(made.len() == 1);
        assert(rest[n] == made[0]);
        assert forall|i: int| #![trigger rest[i]] 0 <= i < n implies !(rest[i] is Create) && !(
        rest[i] is Delete) && !(rest[i] is Stop) && !is_fatal(rest[i]) && (rest[i] is Pause
            || addressed(rest[i]) == Some(scope)) by {
            assert(rest[i] == wait[i]);
            if i < p.len() {
                assert(wait[i] == p[i]);
            }
        }
        assert(rest[n - 1] == wait[n - 1]);
    }
}

/// **Law: never over a service that is there.** In a clean reinstall a registration is by the plan, is
/// the last call and follows a look that saw no service; a deregistration comes after the stop and
/// before the registration, and only where the first look saw a service. No other scope is addressed.
pub proof fn law_a_reinstall_never_creates_over_a_service(
    calls: Seq<BackendCall>,
    scope: ServiceScope,
    plan: PlanModel,
    r: Result<ReinstallReport, ErrorModel>,
)
    requires
        is_reinstall(calls, scope, plan, r),
    ensures
        in_order(calls, scope, plan),
{
    let seen = calls[0]->Probe_1;
    match seen {
        Err(e) => {},
        Ok(found) => {
            if !found {
                let rest = calls.skip(1);
                assert(rest.len() == 1);
                assert(calls[1] == rest[0]);
            } else if calls[2]->Delete_1 is Ok {
                let stop = calls[1]->Stop_1;
                let rest = calls.skip(3);
                let (n, k) = choose|n: int, k: nat|
                    #[trigger] waits_and_registers(rest, scope, plan, stop is Ok, r, n, k);
                lemma_after_delete(rest, scope, plan, stop is Ok, r, n, k);
                assert forall|i: int| 3 <= i < calls.len() implies #[trigger] calls[i] == rest[i
                    - 3] by {}
            }
        },
    }
}

/// **Law: a step that fails is the last.** Behind a look, a deregistration or a registration that failed
/// a reinstall makes no call. Where it does not get as far as the registration it fails, and a service
/// that is still there at the last look fails it as such.
pub proof fn law_a_failed_step_ends_the_reinstall(
    calls: Seq<BackendCall>,
    scope: ServiceScope,
    plan: PlanModel,
    r: Result<ReinstallReport, ErrorModel>,
)
    requires
        is_reinstall(calls, scope, plan, r),
    ensures
        forall|i: int| 0 <= i < calls.len() && is_fatal(#[trigger] calls[i]) ==> i == calls.len() - 1,
        is_fatal(calls.last()) ==> r is Err,
        !(calls.last() is Create) ==> r is Err && forall|i: int|
            0 <= i < calls.len() ==> !(#[trigger] calls[i] is Create),
        calls.last() is Pause ==> r == Err::<ReinstallReport, ErrorModel>(lingering()),
{
    law_a_reinstall_never_creates_over_a_service(calls, scope, plan, r);
    if let Ok(report) = r {
        law_a_successful_reinstall_registered_the_plan(calls, scope, plan, report);
    }
    if let Ok(found) = calls[0]->Probe_1 {
        if !found {
            let rest = calls.skip(1);
            assert(rest.len() == 1);
            assert(calls[1] == rest[0]);
        } else if calls[2]->Delete_1 is Ok {
            let stop = calls[1]->Stop_1;
            let rest = calls.skip(3);
            let (n, k) = choose|n: int, k: nat|
                #[trigger] waits_and_registers(rest, scope, plan, stop is Ok, r, n, k);
            lemma_after_delete(rest, scope, plan, stop is Ok, r, n, k);
            assert forall|i: int| 3 <= i < calls.len() implies #[trigger] calls[i] == rest[i - 3] by {}
        }
    }
}

/// **Law: success means registered.** A reinstall that succeeds ended in a registration by the plan
/// that the manager accepted, and reports it; what it reports of a stop and a deregistration is what
/// the manager answered.
pub proof fn law_a_successful_reinstall_registered_the_plan(
    calls: Seq<BackendCall>,
    scope: ServiceScope,
    plan: PlanModel,
    report: ReinstallReport,
)
    requires
        is_reinstall(calls, scope, plan, Ok(report)),
    ensures
        report.created,
        calls.last() == BackendCall::Create(scope, plan, Ok(())),
        report.existed == (calls[0] == BackendCall::Probe(scope, Ok(true))),
        report.deleted == report.existed,
        report.stopped ==> report.existed,
        report.existed ==> calls[2] == BackendCall::Delete(scope, Ok(())) && (report.stopped
            <==> calls[1]->Stop_1 is Ok),
{
    let seen = calls[0]->Probe_1;
    if seen->Ok_0 {
        let stop = calls[1]->Stop_1;
        let gone = calls[2]->Delete_1;
        assert(gone->Ok_0 == ());
        let rest = calls.skip(3);
        let (n, k) = choose|n: int, k: nat|
            #[trigger] waits_and_registers(rest, scope, plan, stop is Ok, Ok(report), n, k);
        lemma_after_delete(rest, scope, plan, stop is Ok, Ok(report), n, k);
        assert(calls.last() == rest.last());
    } else {
        let rest = calls.skip(1);
        assert(rest.len() == 1);
        assert(calls.last() == rest[0]);
    }
}

/// **Law: waiting ends.** Between a deregistration and what follows it the manager is asked at most
/// [`REMOVAL_POLL_ATTEMPTS`] times.
pub proof fn law_the_wait_is_bounded(
    calls: Seq<BackendCall>,
    scope: ServiceScope,
    k: nat,
    r: Result<(), ErrorModel>,
)
    requires
        waited(calls, scope, k, r),
    ensures
        calls.len() <= 2 * REMOVAL_POLL_ATTEMPTS,
{
    lemma_polled(scope, k);
}

/// **Law: a sweep writes only where it saw something.** A scope nobody asked about is stopped and
/// deregistered only where a registration was seen there.
pub proof fn law_a_sweep_writes_only_what_it_saw(
    calls: Seq<BackendCall>,
    scope: ServiceScope,
    m: RemovalModel,
    i: int,
)
    requires
        is_removal(calls, scope, RemovalMode::Swept, m),
        0 <= i < calls.len(),
        !(calls[i] is Probe),
    ensures
        calls[0] == BackendCall::Probe(scope, Ok(true)),
        m.found,
{
}

/// **Law: what was asked for is always tried.** In the scope that was asked for, the manager is told
/// to deregister whatever the look said, and the report says removed exactly where it did.
pub proof fn law_a_requested_scope_is_always_deregistered(
    calls: Seq<BackendCall>,
    scope: ServiceScope,
    m: RemovalModel,
)
    requires
        is_removal(calls, scope, RemovalMode::Requested, m),
    ensures
        calls.len() == 3,
        calls[2] is Delete,
        calls[2]->Delete_0 == scope,
        m.removed <==> calls[2]->Delete_1 is Ok,
{
}

/// **Law: a removal never guesses.** Neither seen, removed nor open means that the manager answered
/// that there was nothing: the look saw none, and a deregistration, where it was tried, said so.
pub proof fn law_a_clean_scope_was_answered_to_be_clean(
    calls: Seq<BackendCall>,
    scope: ServiceScope,
    mode: RemovalMode,
    m: RemovalModel,
)
    requires
        is_removal(calls, scope, mode, m),
        !m.found,
        !m.removed,
        !m.indeterminate,
    ensures
        calls[0] == BackendCall::Probe(scope, Ok(false)),
        mode == RemovalMode::Requested ==> (calls[2] matches BackendCall::Delete(_, Err(e))
            && e.kind == ErrorKind::NotFound),
{
    let seen = calls[0]->Probe_1;
    assert(seen is Ok);
    assert(seen->Ok_0 == false);
}

/// The scope a call addresses.
pub open spec fn addressed(call: BackendCall) -> Option<ServiceScope> {
    match call {
        BackendCall::Probe(s, _) => Some(s),
        BackendCall::Stop(s, _) => Some(s),
        BackendCall::Delete(s, _) => Some(s),
        BackendCall::Create(s, _, _) => Some(s),
        BackendCall::Pause => None,
    }
}

/// **Law: the other scope is cleared first.** In an install every call to the other scope comes before
/// every call to the scope, the other scope is stopped and deregistered only where a registration was
/// seen there, and what is reported of it is of that scope. So the service is never registered twice
/// by one install.
pub proof fn law_the_other_scope_is_cleared_first(
    calls: Seq<BackendCall>,
    scope: ServiceScope,
    plan: PlanModel,
    r: Result<ReinstallReport, ErrorModel>,
    m: Option<RemovalModel>,
    n: int,
)
    requires
        is_install(calls, scope, Some(scope.opposite()), plan, r, m, n),
    ensures
        forall|i: int, j: int|
            0 <= i < calls.len() && 0 <= j < calls.len() && addressed(#[trigger] calls[i]) == Some(
                scope.opposite(),
            ) && addressed(#[trigger] calls[j]) == Some(scope) ==> i < j,
        forall|i: int|
            0 <= i < calls.len() && addressed(#[trigger] calls[i]) == Some(scope.opposite()) && !(
            calls[i] is Probe) ==> calls[0] == BackendCall::Probe(scope.opposite(), Ok(true)),
        m matches Some(done) && done.scope == scope.opposite(),
{
    let sweep = calls.take(n);
    let rest = calls.skip(n);
    law_a_reinstall_never_creates_over_a_service(rest, scope, plan, r);
    assert forall|i: int| 0 <= i < n implies addressed(#[trigger] calls[i]) == Some(scope.opposite()) && (
    calls[i] is Probe || calls[0] == BackendCall::Probe(scope.opposite(), Ok(true))) by {
        assert(calls[i] == sweep[i]);
        assert(calls[0] == sweep[0]);
    }
    assert forall|i: int| n <= i < calls.len() implies addressed(#[trigger] calls[i]) == None::<ServiceScope>
        || addressed(calls[i]) == Some(scope) by {
        assert(calls[i] == rest[i - n]);
    }
}

// ---- laws of a manager in memory ---------------------------------------------------------------

/// Where a manager stood behind its first `n` calls.
proof fn lemma_took_between<B: ServiceBackend>(from: B, calls: Seq<BackendCall>, to: B, n: int) -> (mid: B)
    requires
        took(from, calls, to),
        0 <= n <= calls.len(),
    ensures
        took(from, calls.take(n), mid),
        took(mid, calls.skip(n), to),
    decreases calls.len(),
{
    if n == calls.len() {
        assert(calls.take(n) =~= calls);
        assert(calls.skip(n) =~= Seq::empty());
        to
    } else {
        let last = choose|b: B|
            took(from, calls.drop_last(), b) && #[trigger] b.may_take(calls.last(), to);
        let mid = lemma_took_between(from, calls.drop_last(), last, n);
        assert(calls.drop_last().take(n) =~= calls.take(n));
        lemma_took_one_more(mid, calls.drop_last().skip(n), last, calls.last(), to);
        assert(calls.drop_last().skip(n).push(calls.last()) =~= calls.skip(n));
        mid
    }
}

/// Where a manager stood behind the first call.
proof fn lemma_took_first<B: ServiceBackend>(from: B, calls: Seq<BackendCall>, to: B) -> (mid: B)
    requires
        took(from, calls, to),
        calls.len() > 0,
    ensures
        from.may_take(calls[0], mid),
        took(mid, calls.skip(1), to),
{
    let mid = lemma_took_between(from, calls, to, 1);
    let one = calls.take(1);
    let before = choose|b: B| took(from, one.drop_last(), b) && #[trigger] b.may_take(one.last(), mid);
    assert(before == from);
    mid
}

proof fn lemma_first_polled(scope: ServiceScope, k: nat)
    ensures
        k > 0 ==> polled(scope, k).len() > 0 && polled(scope, k)[0] == BackendCall::Probe(
            scope,
            Ok(true),
        ),
    decreases k,
{
    if k > 1 {
        lemma_polled(scope, (k - 1) as nat);
        lemma_first_polled(scope, (k - 1) as nat);
    } else if k == 1 {
        assert(polled(scope, 0).len() == 0);
    }
}

/// A manager in memory that holds no registration is seen to hold none at the first look.
proof fn lemma_wait_in_memory(
    from: MemoryBackend,
    rest: Seq<BackendCall>,
    to: MemoryBackend,
    scope: ServiceScope,
    plan: PlanModel,
    stopped: bool,
    r: Result<ReinstallReport, ErrorModel>,
    n: int,
    k: nat,
) -> (mid: MemoryBackend)
    requires
        took(from, rest, to),
        !from.holds(scope),
        waits_and_registers(rest, scope, plan, stopped, r, n, k),
    ensures
        mid == from,
        took(mid, rest.skip(1), to),
        registers(
            rest.skip(1),
            scope,
            plan,
            ReinstallReport { existed: true, stopped, deleted: true, created: true },
            r,
        ),
{
    lemma_polled(scope, k);
    lemma_first_polled(scope, k);
    let p = polled(scope, k);
    if n == rest.len() && r is Err && waited(rest, scope, k, Err(r->Err_0)) {
        assert(rest.len() > 0);
        assert(k > 0 ==> rest[0] == p[0]);
        assert(k == 0 ==> rest[0]->Probe_1 is Err);
        let mid = lemma_took_first(from, rest, to);
        assert(false);
        mid
    } else {
        let wait = rest.take(n);
        assert(wait == p.push(BackendCall::Probe(scope, Ok(false))));
        assert(wait.len() == n);
        assert(rest[0] == wait[0]);
        assert(k > 0 ==> wait[0] == p[0]);
        let mid = lemma_took_first(from, rest, to);
        assert(k == 0);
        mid
    }
}

/// **Law: a reinstall in memory always succeeds.** Whatever was registered, the service is registered
/// in the scope afterwards, the other scope is as it was, and the report says what was there.
pub proof fn law_a_reinstall_in_memory_succeeds(
    from: MemoryBackend,
    calls: Seq<BackendCall>,
    to: MemoryBackend,
    scope: ServiceScope,
    plan: PlanModel,
    r: Result<ReinstallReport, ErrorModel>,
)
    requires
        took(from, calls, to),
        is_reinstall(calls, scope, plan, r),
    ensures
        r == Ok::<ReinstallReport, ErrorModel>(
            ReinstallReport {
                existed: from.holds(scope),
                stopped: from.holds(scope),
                deleted: from.holds(scope),
                created: true,
            },
        ),
        to == from.with(scope, true),
{
    let m1 = lemma_took_first(from, calls, to);
    let c1 = calls.skip(1);
    if from.holds(scope) {
        assert(c1[0] == calls[1]);
        let m2 = lemma_took_first(m1, c1, to);
        let c2 = c1.skip(1);
        assert(c2[0] == calls[2]);
        let m3 = lemma_took_first(m2, c2, to);
        let rest = c2.skip(1);
        assert(rest =~= calls.skip(3));
        let stop = calls[1]->Stop_1;
        let gone = calls[2]->Delete_1;
        assert(gone->Ok_0 == ());
        let (n, k) = choose|n: int, k: nat|
            #[trigger] waits_and_registers(rest, scope, plan, stop is Ok, r, n, k);
        let m4 = lemma_wait_in_memory(m3, rest, to, scope, plan, stop is Ok, r, n, k);
        let made = rest.skip(1);
        let m5 = lemma_took_first(m4, made, to);
        assert(made.skip(1) =~= Seq::empty());
    } else {
        let m2 = lemma_took_first(m1, c1, to);
        assert(c1.skip(1) =~= Seq::empty());
    }
}

/// **Law: one install leaves one registration.** Wherever the service was registered before, an install
/// on a manager in memory succeeds, and leaves it registered in the scope and not in the other one.
pub proof fn law_one_install_leaves_one_registration(
    from: MemoryBackend,
    calls: Seq<BackendCall>,
    to: MemoryBackend,
    scope: ServiceScope,
    plan: PlanModel,
    r: Result<ReinstallReport, ErrorModel>,
    m: Option<RemovalModel>,
    n: int,
)
    requires
        took(from, calls, to),
        is_install(calls, scope, Some(scope.opposite()), plan, r, m, n),
    ensures
        r matches Ok(report) && report.existed == from.holds(scope),
        m matches Some(done) && done.found == from.holds(scope.opposite()) && done.removed
            == done.found,
        to.holds(scope),
        !to.holds(scope.opposite()),
{
    let other = scope.opposite();
    let mid = lemma_took_between(from, calls, to, n);
    let sweep = calls.take(n);
    let m1 = lemma_took_first(from, sweep, mid);
    let c1 = sweep.skip(1);
    if from.holds(other) {
        assert(c1[0] == sweep[1]);
        let m2 = lemma_took_first(m1, c1, mid);
        let c2 = c1.skip(1);
        assert(c2[0] == sweep[2]);
        let m3 = lemma_took_first(m2, c2, mid);
        assert(c2.skip(1) =~= Seq::empty());
    } else {
        assert(c1 =~= Seq::empty());
    }
    law_a_reinstall_in_memory_succeeds(mid, calls.skip(n), to, scope, plan, r);
}

// ---- laws of what is reported ------------------------------------------------------------------

/// **Law: what a removal reports.** A scope counts as found exactly where the manager said so, and as removed
/// exactly where it was deleted. It is left in doubt where the manager could not say, unless it was then
/// deleted; and where it could not be deleted for another reason than that it is not there. Whatever could
/// not be done is reported in the manager's words.
pub proof fn law_what_a_removal_reports(
    calls: Seq<BackendCall>,
    scope: ServiceScope,
    mode: RemovalMode,
    m: RemovalModel,
)
    requires
        is_removal(calls, scope, mode, m),
    ensures
        m.scope == scope,
        m.found <==> calls[0] == BackendCall::Probe(scope, Ok(true)),
        m.removed <==> exists|i: int|
            0 <= i < calls.len() && (#[trigger] calls[i]) is Delete && calls[i]->Delete_0 == scope
                && calls[i]->Delete_1 is Ok,
        m.removed ==> !m.indeterminate,
        calls[0]->Probe_1 is Err && !m.removed ==> m.indeterminate,
        forall|i: int|
            0 <= i < calls.len() && (#[trigger] calls[i]) is Delete && calls[i]->Delete_1 is Err ==> m.error == Some(
                calls[i]->Delete_1->Err_0.message,
            ) && (calls[i]->Delete_1->Err_0.kind != ErrorKind::NotFound ==> m.indeterminate) && (
            calls[i]->Delete_1->Err_0.kind == ErrorKind::NotFound && calls[0]->Probe_1 is Ok
                ==> !m.indeterminate),
        calls[0]->Probe_1 matches Err(e) ==> calls.len() == 1 ==> (m.error matches Some(t) && text::has(
            t,
            e.message,
        )),
        calls[0]->Probe_1 is Ok && m.removed ==> m.error is None,
        mode == RemovalMode::Swept && calls[0] == BackendCall::Probe(scope, Ok(false)) ==> calls.len() == 1
            && m.error is None && !m.indeterminate,
{
    if let BackendCall::Probe(_, seen) = calls[0] {
        if let Err(e) = seen {
            let a = "could not determine whether it is registered: "@;
            text::law_a_longer_text_holds_its_parts(a, e.message, e.message);
        }
    }
    if calls.len() == 3 {
        assert(calls[2] is Delete);
    }
}

/// **Law: how long a removal is waited for.** The manager is asked at most forty times, with a pause behind
/// each answer that the service is still there; it is given up only after the fortieth, and then the
/// service is named.
pub proof fn law_how_long_a_removal_is_waited_for(
    calls: Seq<BackendCall>,
    scope: ServiceScope,
    k: nat,
    r: Result<(), ErrorModel>,
)
    requires
        waited(calls, scope, k, r),
    ensures
        calls.len() <= 80,
        r is Ok <==> calls.len() > 0 && calls.last() == BackendCall::Probe(scope, Ok(false)),
        r matches Err(e) ==> calls.last() == BackendCall::Probe(scope, Err(e)) || (calls.len() == 80 && e.kind
            == ErrorKind::TimedOut && text::has(e.message, "net.dignetwork.dig-node"@)),
{
    lemma_polled(scope, k);
    let a = "dig-node: service \""@;
    let n = "net.dignetwork.dig-node"@;
    let z = "\" was deleted but is still present after waiting for removal; cannot cleanly recreate it (a handle may be held open — close the Services console and retry)"@;
    text::law_a_longer_text_holds_its_parts(a, n, n);
    text::law_a_longer_text_holds_its_parts(a + n, z, n);
    if let Err(e) = r {
        if k == 40 {
            assert(calls.last() == calls[79]);
            assert(calls.last() == BackendCall::Probe(scope, Ok(true)) || calls.last() == BackendCall::Pause);
        }
    }
}

/// **Law: a removal is seen whole, and so is a list of them.**
pub proof fn law_a_removal_is_seen_whole(r: ScopeRemoval, list: Seq<ScopeRemoval>, i: int)
    requires
        0 <= i < list.len(),
    ensures
        r@.scope == r.scope,
        r@.found == r.found,
        r@.removed == r.removed,
        r@.indeterminate == r.indeterminate,
        r@.error is Some <==> r.error is Some,
        r.error matches Some(e) ==> r@.error == Some(e@),
        removal_models(list).len() == list.len(),
        removal_models(list)[i] == list[i]@,
        migration_model(None) is None,
        migration_model(Some(r)) == Some(r@),
{
}

/// **Law: scopes are gone through one behind the other.** Each target has a report of its own, made by calls
/// that follow those of the targets in front of it.
pub proof fn law_scopes_are_gone_through_in_turn(
    parts: Seq<Seq<BackendCall>>,
    part: Seq<BackendCall>,
    calls: Seq<BackendCall>,
    targets: Seq<(ServiceScope, RemovalMode)>,
    models: Seq<RemovalModel>,
    i: int,
)
    ensures
        in_turn(Seq::empty()).len() == 0,
        in_turn(parts.push(part)) == in_turn(parts) + part,
        are_removals(calls, targets, models, parts) ==> models.len() == targets.len() && calls == in_turn(parts),
        are_removals(calls, targets, models, parts) && 0 <= i < targets.len() ==> is_removal(
            parts[i],
            targets[i].0,
            targets[i].1,
            models[i],
        ) && models[i].scope == targets[i].0,
{
    assert(parts.push(part).drop_last() =~= parts);
    if are_removals(calls, targets, models, parts) && 0 <= i < targets.len() {
        assert(is_removal(parts[i], targets[i].0, targets[i].1, models[i]));
    }
}

} // verus!
