//! What each verb decides and reports: install, uninstall, start, stop and status.
use vstd::prelude::*;

use crate::config::Config;
use crate::error::{Error, ErrorKind, ErrorModel};
use crate::net::{endpoint_text, Endpoint};
use crate::outcome::Outcome;
use crate::service::backend::{
    in_turn, is_removal, lemma_took_on, migration_model, remove_registration, removal_models, took,
    BackendCall, Registered, RemovalMode, RemovalModel, ScopeRemoval, ServiceBackend,
};
use crate::service::{
    host_supports_user_scope, scopes_to_remove, uninstall_scopes, ScopeChoice, ServiceScope,
    RECOVERY_ACTIONS, RECOVERY_RESET_SECONDS, SERVICE_DISPLAY_NAME, SERVICE_LABEL,
};
use crate::state::Os;
use crate::text;
use crate::tokens;
use crate::user_scope::{failure_views, UserScopeSweep, RESIDUAL_NOTE};

verus! {

// ---- uninstall ---------------------------------------------------------------------------------

/// What an uninstall reports to a program.
#[derive(Debug)]
pub struct UninstallResult {
    pub installed: bool,
    pub registered: bool,
    pub label: String,
    pub removed_scopes: Vec<String>,
}

/// The scopes in which the deregistration succeeded.
pub open spec fn removed_names(list: Seq<RemovalModel>) -> Seq<Seq<char>>
    decreases list.len(),
{
    if list.len() == 0 {
        Seq::empty()
    } else {
        let head = removed_names(list.drop_last());
        if list.last().removed {
            head.push(list.last().scope.name())
        } else {
            head
        }
    }
}

/// Whether a registration remains in the scope, or may remain.
pub open spec fn is_unresolved(m: RemovalModel) -> bool {
    m.indeterminate || (m.found && !m.removed)
}

/// What is said of a scope that is not resolved.
pub open spec fn problem_line(m: RemovalModel) -> Seq<char> {
    m.scope.name() + " scope: "@ + match m.error {
        Some(e) => e,
        None => "removal did not take effect"@,
    }
}

/// What is said of the scopes that are not resolved.
pub open spec fn problem_lines(list: Seq<RemovalModel>) -> Seq<Seq<char>>
    decreases list.len(),
{
    if list.len() == 0 {
        Seq::empty()
    } else {
        let head = problem_lines(list.drop_last());
        if is_unresolved(list.last()) {
            head.push(problem_line(list.last()))
        } else {
            head
        }
    }
}

/// The errors that were met, each with its scope.
pub open spec fn reason_lines(list: Seq<RemovalModel>) -> Seq<Seq<char>>
    decreases list.len(),
{
    if list.len() == 0 {
        Seq::empty()
    } else {
        let head = reason_lines(list.drop_last());
        match list.last().error {
            Some(e) => head.push(list.last().scope.name() + " scope: "@ + e),
            None => head,
        }
    }
}

/// The scopes that were gone through.
pub open spec fn scope_names(list: Seq<RemovalModel>) -> Seq<Seq<char>> {
    list.map_values(|m: RemovalModel| m.scope.name())
}

/// What is said where a registration remains or may remain.
pub open spec fn incomplete(list: Seq<RemovalModel>) -> ErrorModel {
    let removed = removed_names(list);
    let note = if removed.len() == 0 {
        "nothing was removed"@
    } else {
        "removed at: "@ + text::joined(removed, ", "@)
    };
    ErrorModel {
        kind: ErrorKind::PermissionDenied,
        message: "dig-node: could not fully uninstall service \""@ + SERVICE_LABEL@ + "\" ("@ + note
            + "). Unresolved: "@ + text::joined(problem_lines(list), "; "@)
            + ". Re-run elevated (e.g. `sudo dig-node uninstall --scope system`) — a registration left behind will keep starting the node."@,
    }
}

/// What is said where there was nothing.
pub open spec fn nothing_there(list: Seq<RemovalModel>) -> ErrorModel {
    let reasons = reason_lines(list);
    let said = "dig-node: no service registration for \""@ + SERVICE_LABEL@ + "\" was found at "@
        + text::joined(scope_names(list), " or "@) + " scope — nothing to uninstall."@;
    ErrorModel {
        kind: ErrorKind::NotFound,
        message: if reasons.len() == 0 {
            said
        } else {
            said + " ("@ + text::joined(reasons, "; "@) + ")"@
        },
    }
}

/// What an uninstall is refused with: a scope that is not resolved comes before the answer that there
/// was nothing.
pub open spec fn uninstall_failure(list: Seq<RemovalModel>) -> Option<ErrorModel> {
    if problem_lines(list).len() > 0 {
        Some(incomplete(list))
    } else if removed_names(list).len() == 0 {
        Some(nothing_there(list))
    } else {
        None
    }
}

/// Whether `o` reports a complete removal.
pub open spec fn reports_removal(o: Outcome<UninstallResult>, list: Seq<RemovalModel>) -> bool {
    &&& o.summary@ == "dig-node: uninstalled service \""@ + SERVICE_LABEL@ + "\" at "@
        + text::joined(removed_names(list), " + "@) + " scope"@
    &&& !o.result.installed
    &&& !o.result.registered
    &&& o.result.label@ == SERVICE_LABEL@
    &&& text::views(o.result.removed_scopes@) == removed_names(list)
}

/// What is said of one scope and an error.
fn scope_line(scope: ServiceScope, said: &str) -> (r: String)
    ensures
        r@ == scope.name() + " scope: "@ + said@,
{
    let mut out = scope.as_str().to_owned();
    out.append(" scope: ");
    out.append(said);
    out
}

/// Turn what was done in each scope into the answer of the uninstall. Anything short of a complete
/// removal fails.
pub fn uninstall_outcome(removals: Vec<ScopeRemoval>) -> (r: Result<
    Outcome<UninstallResult>,
    Error,
>)
    ensures
        r is Err <==> uninstall_failure(removal_models(removals@)) is Some,
        r matches Err(e) ==> uninstall_failure(removal_models(removals@)) == Some(e@),
        r matches Ok(o) ==> reports_removal(o, removal_models(removals@)),
{
    let ghost list = removal_models(removals@);
    let mut removed: Vec<String> = Vec::new();
    let mut problems: Vec<String> = Vec::new();
    let mut reasons: Vec<String> = Vec::new();
    let mut scopes: Vec<String> = Vec::new();
    let mut i: usize = 0;
    proof {
        assert(list.take(0) =~= Seq::empty());
        assert(text::views(removed@) =~= removed_names(list.take(0)));
        assert(text::views(problems@) =~= problem_lines(list.take(0)));
        assert(text::views(reasons@) =~= reason_lines(list.take(0)));
        assert(text::views(scopes@) =~= scope_names(list.take(0)));
    }
    while i < removals.len()
        invariant
            i <= removals@.len(),
            list == removal_models(removals@),
            text::views(removed@) == removed_names(list.take(i as int)),
            text::views(problems@) == problem_lines(list.take(i as int)),
            text::views(reasons@) == reason_lines(list.take(i as int)),
            text::views(scopes@) == scope_names(list.take(i as int)),
        decreases removals@.len() - i,
    {
        let m = &removals[i];
        let ghost upto = list.take(i + 1);
        let ghost (removed0, problems0, reasons0, scopes0) = (removed@, problems@, reasons@, scopes@);
        proof {
            assert(upto.drop_last() =~= list.take(i as int));
            assert(upto.last() == m@);
            assert(scope_names(upto) =~= scope_names(list.take(i as int)).push(m.scope.name()));
        }
        scopes.push(m.scope.as_str().to_owned());
        if m.removed {
            removed.push(m.scope.as_str().to_owned());
        }
        if m.indeterminate || (m.found && !m.removed) {
            match &m.error {
                Some(e) => problems.push(scope_line(m.scope, e.as_str())),
                None => problems.push(scope_line(m.scope, "removal did not take effect")),
            }
        }
        if let Some(e) = &m.error {
            reasons.push(scope_line(m.scope, e.as_str()));
        }
        proof {
            assert(text::views(scopes@) =~= text::views(scopes0).push(m.scope.name()));
            if m.removed {
                assert(text::views(removed@) =~= text::views(removed0).push(m.scope.name()));
            }
            if is_unresolved(m@) {
                assert(text::views(problems@) =~= text::views(problems0).push(problem_line(m@)));
            }
            if m.error is Some {
                assert(text::views(reasons@) =~= text::views(reasons0).push(
                    m.scope.name() + " scope: "@ + m@.error->0,
                ));
            }
        }
        i += 1;
    }
    proof {
        assert(list.take(list.len() as int) =~= list);
        assert(removed@.len() == text::views(removed@).len());
        assert(problems@.len() == text::views(problems@).len());
        assert(reasons@.len() == text::views(reasons@).len());
    }
    if problems.len() > 0 {
        let mut m = "dig-node: could not fully uninstall service \"".to_owned();
        m.append(SERVICE_LABEL);
        m.append("\" (");
        let mut note = String::new();
        if removed.len() == 0 {
            note = "nothing was removed".to_owned();
        } else {
            note = "removed at: ".to_owned();
            note.append(text::join(&removed, ", ").as_str());
        }
        m.append(note.as_str());
        m.append("). Unresolved: ");
        m.append(text::join(&problems, "; ").as_str());
        m.append(
            ". Re-run elevated (e.g. `sudo dig-node uninstall --scope system`) — a registration left behind will keep starting the node.",
        );
        return Err(Error::new(ErrorKind::PermissionDenied, m));
    }
    if removed.len() == 0 {
        let mut m = "dig-node: no service registration for \"".to_owned();
        m.append(SERVICE_LABEL);
        m.append("\" was found at ");
        m.append(text::join(&scopes, " or ").as_str());
        m.append(" scope — nothing to uninstall.");
        if reasons.len() > 0 {
            m.append(" (");
            m.append(text::join(&reasons, "; ").as_str());
            m.append(")");
        }
        return Err(Error::new(ErrorKind::NotFound, m));
    }
    let mut summary = "dig-node: uninstalled service \"".to_owned();
    summary.append(SERVICE_LABEL);
    summary.append("\" at ");
    summary.append(text::join(&removed, " + ").as_str());
    summary.append(" scope");
    Ok(
        Outcome {
            summary,
            result: UninstallResult {
                installed: false,
                registered: false,
                label: SERVICE_LABEL.to_owned(),
                removed_scopes: removed,
            },
        },
    )
}

/// What was found of the host before an uninstall.
pub struct UninstallFacts {
    /// The operating system.
    pub os: Os,
    /// Whether the caller is root.
    pub is_root: bool,
    /// Whether the console is elevated; always, where that is no question.
    pub is_elevated: bool,
    /// Whether the service manager could be had in the machine-wide scope.
    pub system_manager: Result<(), Error>,
    /// Whether it could be had in the per-user scope.
    pub user_manager: Result<(), Error>,
}

impl UninstallFacts {
    /// Whether the service manager could be had in `scope`.
    pub open spec fn manager(self, scope: ServiceScope) -> Result<(), Error> {
        match scope {
            ServiceScope::System => self.system_manager,
            ServiceScope::User => self.user_manager,
        }
    }
}

/// What an uninstall on Windows is told without elevation.
pub const UNINSTALL_ELEVATION_REFUSAL: &'static str = "dig-node: uninstalling a Windows service requires an elevated \
(Administrator) console.";

/// The mode of the scope at place `i`: the first was asked for, any other is swept.
pub open spec fn mode_at(i: int) -> RemovalMode {
    if i == 0 {
        RemovalMode::Requested
    } else {
        RemovalMode::Swept
    }
}

/// What is reported of a scope whose manager could not be had: that nothing is known of it.
pub open spec fn unreachable_scope(scope: ServiceScope, why: Error) -> RemovalModel {
    RemovalModel { scope, found: false, removed: false, indeterminate: true, error: Some(why.message@) }
}

/// Whether `part` is what an uninstall does in the scope at place `i`, and `m` what it reports.
pub open spec fn is_scope_pass(
    part: Seq<BackendCall>,
    scopes: Seq<ServiceScope>,
    facts: UninstallFacts,
    i: int,
    m: RemovalModel,
) -> bool {
    match facts.manager(scopes[i]) {
        Ok(()) => is_removal(part, scopes[i], mode_at(i), m),
        Err(e) => part.len() == 0 && m == unreachable_scope(scopes[i], e),
    }
}

/// Whether `calls` are the passes of an uninstall through `scopes`, and `models` what they report.
pub open spec fn are_scope_passes(
    calls: Seq<BackendCall>,
    scopes: Seq<ServiceScope>,
    facts: UninstallFacts,
    models: Seq<RemovalModel>,
    parts: Seq<Seq<BackendCall>>,
) -> bool {
    &&& models.len() == scopes.len()
    &&& parts.len() == scopes.len()
    &&& calls == in_turn(parts)
    &&& forall|i: int|
        0 <= i < scopes.len() ==> #[trigger] is_scope_pass(parts[i], scopes, facts, i, models[i])
}

/// The scopes an uninstall goes through on a host.
pub open spec fn scopes_on(choice: ScopeChoice, os: Os, is_root: bool) -> Seq<ServiceScope> {
    scopes_to_remove(choice, os != Os::Windows, is_root)
}

/// What an uninstall came to.
pub open spec fn is_uninstall_answer(
    models: Seq<RemovalModel>,
    r: Result<Outcome<UninstallResult>, Error>,
) -> bool {
    match r {
        Ok(o) => uninstall_failure(models) is None && reports_removal(o, models),
        Err(e) => uninstall_failure(models) == Some(e@),
    }
}

/// Remove the service from the scopes that the choice means, the one that was asked for first. A
/// scope whose manager cannot be had is reported, and the others are gone through all the same.
pub fn uninstall<B: ServiceBackend>(
    choice: ScopeChoice,
    facts: &UninstallFacts,
    backend: &mut B,
) -> (r: Result<Outcome<UninstallResult>, Error>)
    ensures
        facts.os == Os::Windows && !facts.is_elevated ==> *final(backend) == *old(backend) && (
        r matches Err(e) && e.kind == ErrorKind::PermissionDenied && e.message@
            == UNINSTALL_ELEVATION_REFUSAL@),
        !(facts.os == Os::Windows && !facts.is_elevated) ==> exists|
            calls: Seq<BackendCall>,
            models: Seq<RemovalModel>,
            parts: Seq<Seq<BackendCall>>,
        |
            took(*old(backend), calls, *final(backend)) && #[trigger] are_scope_passes(
                calls,
                scopes_on(choice, facts.os, facts.is_root),
                *facts,
                models,
                parts,
            ) && is_uninstall_answer(models, r),
{
    if facts.os == Os::Windows && !facts.is_elevated {
        return Err(
            Error::new(ErrorKind::PermissionDenied, UNINSTALL_ELEVATION_REFUSAL.to_owned()),
        );
    }
    let scopes = uninstall_scopes(choice, host_supports_user_scope(facts.os), facts.is_root);
    let ghost start = *backend;
    let ghost mut calls: Seq<BackendCall> = Seq::empty();
    let ghost mut parts: Seq<Seq<BackendCall>> = Seq::empty();
    let mut removals: Vec<ScopeRemoval> = Vec::new();
    let mut i: usize = 0;
    proof {
        assert(removal_models(removals@) =~= Seq::empty());
        assert(scopes@.take(0) =~= Seq::empty());
    }
    while i < scopes.len()
        invariant
            i <= scopes@.len(),
            scopes@ == scopes_on(choice, facts.os, facts.is_root),
            !(facts.os == Os::Windows && !facts.is_elevated),
            start == *old(backend),
            took(start, calls, *backend),
            are_scope_passes(
                calls,
                scopes@.take(i as int),
                *facts,
                removal_models(removals@),
                parts,
            ),
        decreases scopes@.len() - i,
    {
        let scope = scopes[i];
        let mode = if i == 0 {
            RemovalMode::Requested
        } else {
            RemovalMode::Swept
        };
        let manager = match scope {
            ServiceScope::System => &facts.system_manager,
            ServiceScope::User => &facts.user_manager,
        };
        let ghost before = *backend;
        let ghost done = removal_models(removals@);
        let removal = match manager {
            Ok(_) => remove_registration(backend, scope, mode),
            Err(e) => ScopeRemoval {
                scope,
                found: false,
                removed: false,
                indeterminate: true,
                error: Some(e.message.clone()),
            },
        };
        removals.push(removal);
        proof {
            let step = choose|step: Seq<BackendCall>| #[trigger]
                took(before, step, *backend) && match manager {
                    Ok(_) => is_removal(step, scope, mode, removal@),
                    Err(_) => step.len() == 0,
                };
            if manager is Err {
                assert(took(before, Seq::empty(), *backend));
            }
            lemma_took_on(start, calls, before, step, *backend);
            calls = calls + step;
            let so_far = parts;
            parts = parts.push(step);
            assert(parts.drop_last() =~= so_far);
            let upto = scopes@.take(i + 1);
            let models = removal_models(removals@);
            assert(models =~= done.push(removal@));
            assert forall|j: int| 0 <= j < upto.len() implies #[trigger] is_scope_pass(
                parts[j],
                upto,
                *facts,
                j,
                models[j],
            ) by {
                if j < i {
                    assert(is_scope_pass(so_far[j], scopes@.take(i as int), *facts, j, done[j]));
                    assert(upto[j] == scopes@.take(i as int)[j]);
                }
            }
        }
        i += 1;
    }
    proof {
        assert(scopes@.take(scopes@.len() as int) =~= scopes@);
    }
    let ghost models = removal_models(removals@);
    let r = uninstall_outcome(removals);
    proof {
        assert(is_uninstall_answer(models, r));
    }
    r
}

proof fn lemma_problem_lines(list: Seq<RemovalModel>, i: int)
    requires
        problem_lines(list).len() == 0,
        0 <= i < list.len(),
    ensures
        !is_unresolved(list[i]),
    decreases list.len(),
{
    if i < list.len() - 1 {
        lemma_problem_lines(list.drop_last(), i);
    }
}

/// **Law: an uninstall never hides a leftover.** Where it succeeds, no scope it went through holds a
/// registration that was seen and not removed, and none was left in doubt.
pub proof fn law_an_uninstall_never_hides_a_leftover(
    models: Seq<RemovalModel>,
    r: Result<Outcome<UninstallResult>, Error>,
    i: int,
)
    requires
        is_uninstall_answer(models, r),
        r is Ok,
        0 <= i < models.len(),
    ensures
        !models[i].indeterminate,
        models[i].found ==> models[i].removed,
{
    lemma_problem_lines(models, i);
}

proof fn lemma_removed_names(list: Seq<RemovalModel>)
    ensures
        forall|i: int|
            0 <= i < list.len() && #[trigger] list[i].removed ==> removed_names(list).contains(
                list[i].scope.name(),
            ),
    decreases list.len(),
{
    if list.len() > 0 {
        let rest = list.drop_last();
        lemma_removed_names(rest);
        assert forall|i: int| 0 <= i < list.len() && #[trigger] list[i].removed implies removed_names(
            list,
        ).contains(list[i].scope.name()) by {
            let names = removed_names(list);
            if i < list.len() - 1 {
                assert(rest[i].removed);
                let k = removed_names(rest).index_of(list[i].scope.name());
                assert(names[k] == list[i].scope.name());
            } else {
                assert(names.last() == list[i].scope.name());
            }
        }
    }
}

/// **Law: a success names every scope that was removed.**
pub proof fn law_a_success_names_what_was_removed(
    models: Seq<RemovalModel>,
    r: Result<Outcome<UninstallResult>, Error>,
    i: int,
)
    requires
        is_uninstall_answer(models, r),
        r is Ok,
        0 <= i < models.len(),
        models[i].removed,
    ensures
        text::views(r->Ok_0.result.removed_scopes@).contains(models[i].scope.name()),
{
    lemma_removed_names(models);
}

/// **Law: a refused uninstall says nothing was there only where that was answered.** The class
/// `NotFound` means that no scope was left in doubt and none was removed.
pub proof fn law_nothing_there_is_never_a_guess(models: Seq<RemovalModel>, i: int)
    requires
        uninstall_failure(models) matches Some(e) && e.kind == ErrorKind::NotFound,
        0 <= i < models.len(),
    ensures
        !models[i].indeterminate,
        !models[i].found,
        !models[i].removed,
{
    lemma_problem_lines(models, i);
    lemma_removed_names(models);
    if models[i].removed {
        assert(removed_names(models).contains(models[i].scope.name()));
    }
}

// ---- install -----------------------------------------------------------------------------------

/// What the sweep of every account reports to a program.
#[derive(Debug)]
pub struct SweepResult {
    pub removed_accounts: Vec<String>,
    pub failed_accounts: Vec<(String, String)>,
    pub residual: String,
}

/// What an install reports to a program.
#[derive(Debug)]
pub struct InstallResult {
    pub installed: bool,
    pub reinstalled: bool,
    pub registered: bool,
    pub started: bool,
    pub label: String,
    pub display_name: String,
    pub scope: String,
    pub program: String,
    pub addr: String,
    pub upstream: String,
    pub recovery_configured: bool,
    pub display_name_verified: Option<bool>,
    pub user_scope_sweep: Option<SweepResult>,
    pub migrated_from_scope: Option<ScopeRemoval>,
}

/// What came of an install.
pub struct InstallDone {
    /// What the service manager did.
    pub registered: Registered,
    /// What the sweep of every account did, where it was made.
    pub sweep: Option<UserScopeSweep>,
    /// Why a restart after a crash could not be set up, where it could not.
    pub recovery_failure: Option<String>,
    /// Whether the name a person sees was confirmed, where that was asked.
    pub display_name_verified: Option<bool>,
}

/// The first lines of an install's summary.
pub open spec fn install_head(
    existed: bool,
    scope: ServiceScope,
    program: Seq<char>,
    addr: Seq<char>,
) -> Seq<char> {
    "dig-node: "@ + (if existed {
        "reinstalled (stopped + deleted the existing service, then recreated it)"@
    } else {
        "installed"@
    }) + " as a "@ + scope.name() + "-level service\n  id:      "@ + SERVICE_LABEL@
        + "\n  display: "@ + SERVICE_DISPLAY_NAME@ + "\n  program: "@ + program
        + "\n  serves:  http://"@ + addr
        + "\n  Set the DIG Chrome extension's \"server host\" to "@ + addr
        + ".\n  Start it now with: dig-node start"@
}

/// What the summary says of the other scope.
pub open spec fn migration_note(m: Option<RemovalModel>) -> Seq<char> {
    match m {
        None => Seq::empty(),
        Some(m) => if m.removed {
            "\n  note: removed a previous "@ + m.scope.name()
                + "-scope registration of this service."@
        } else if m.found || m.indeterminate {
            "\n  WARN a "@ + m.scope.name()
                + "-scope registration of this service is still present and could not be removed ("@
                + (match m.error {
                Some(e) => e,
                None => "removal did not take effect"@,
            }) + "); both may try to serve the same port. Remove it with: dig-node uninstall --scope "@
                + m.scope.name()
        } else {
            Seq::empty()
        },
    }
}

/// What the summary says of the accounts that were cleared.
pub open spec fn cleared_notes(homes: Seq<Seq<char>>) -> Seq<char>
    decreases homes.len(),
{
    if homes.len() == 0 {
        Seq::empty()
    } else {
        cleared_notes(homes.drop_last())
            + "\n  note: removed (and stopped) the user-level registration belonging to "@
            + homes.last() + "."@
    }
}

/// What the summary says of the accounts that could not be cleared.
pub open spec fn failed_notes(list: Seq<(Seq<char>, Seq<char>)>) -> Seq<char>
    decreases list.len(),
{
    if list.len() == 0 {
        Seq::empty()
    } else {
        failed_notes(list.drop_last())
            + "\n  WARN could not remove the user-level registration belonging to "@
            + list.last().0 + " ("@ + list.last().1
            + "); it                  may keep starting a second node on the same port. Have that user run: dig-node                  uninstall --scope user"@
    }
}

/// What the summary says of the sweep of every account.
pub open spec fn sweep_note(s: Option<UserScopeSweep>) -> Seq<char> {
    match s {
        None => Seq::empty(),
        Some(s) => cleared_notes(text::views(s.removed@)) + failed_notes(failure_views(s.failed@))
            + "\n  note: "@ + RESIDUAL_NOTE@,
    }
}

/// What the summary says of a restart after a crash that could not be set up.
pub open spec fn recovery_note(failure: Option<Seq<char>>) -> Seq<char> {
    match failure {
        None => Seq::empty(),
        Some(e) => "\n  note: could not configure Windows SCM restart-on-crash recovery actions ("@ + e
            + "); the service is installed but will NOT auto-restart if it crashes. Configure manually with: sc.exe failure "@
            + SERVICE_LABEL@ + " reset= "@ + RECOVERY_RESET_SECONDS@ + " actions= "@
            + RECOVERY_ACTIONS@,
    }
}

/// What the summary says of a name that could not be confirmed.
pub open spec fn display_note(verified: Option<bool>) -> Seq<char> {
    if verified == Some(false) {
        "\n  note: the Windows display name override could not be confirmed via `sc qc`; the service is installed and usable, just possibly showing its id in the Services console."@
    } else {
        Seq::empty()
    }
}

/// The summary of an install.
pub open spec fn install_summary(
    scope: ServiceScope,
    program: Seq<char>,
    addr: Seq<char>,
    d: InstallDone,
) -> Seq<char> {
    install_head(d.registered.report.existed, scope, program, addr) + migration_note(
        migration_model(d.registered.migration),
    ) + sweep_note(d.sweep) + recovery_note(text::opt_view(d.recovery_failure)) + display_note(
        d.display_name_verified,
    )
}

/// Whether a program is told of the sweep what it did.
pub open spec fn is_sweep_result(r: Option<SweepResult>, s: Option<UserScopeSweep>) -> bool {
    match (r, s) {
        (None, None) => true,
        (Some(r), Some(s)) => text::views(r.removed_accounts@) == text::views(s.removed@)
            && failure_views(r.failed_accounts@) == failure_views(s.failed@) && r.residual@
            == RESIDUAL_NOTE@,
        _ => false,
    }
}

/// Whether `o` reports what came of an install.
pub open spec fn reports_install(
    o: Outcome<InstallResult>,
    config: Config,
    scope: ServiceScope,
    program: Seq<char>,
    d: InstallDone,
) -> bool {
    let addr = endpoint_text(config.bound());
    &&& o.summary@ == install_summary(scope, program, addr, d)
    &&& o.result.installed
    &&& o.result.reinstalled == d.registered.report.existed
    &&& o.result.registered
    &&& !o.result.started
    &&& o.result.label@ == SERVICE_LABEL@
    &&& o.result.display_name@ == SERVICE_DISPLAY_NAME@
    &&& o.result.scope@ == scope.name()
    &&& o.result.program@ == program
    &&& o.result.addr@ == addr
    &&& o.result.upstream@ == config.upstream@
    &&& o.result.recovery_configured == (d.recovery_failure is None)
    &&& o.result.display_name_verified == d.display_name_verified
    &&& is_sweep_result(o.result.user_scope_sweep, d.sweep)
    &&& migration_model(o.result.migrated_from_scope) == migration_model(d.registered.migration)
}

fn head_text(existed: bool, scope: ServiceScope, program: &str, addr: &str) -> (r: String)
    ensures
        r@ == install_head(existed, scope, program@, addr@),
{
    let mut out = "dig-node: ".to_owned();
    if existed {
        out.append("reinstalled (stopped + deleted the existing service, then recreated it)");
    } else {
        out.append("installed");
    }
    out.append(" as a ");
    out.append(scope.as_str());
    out.append("-level service\n  id:      ");
    out.append(SERVICE_LABEL);
    out.append("\n  display: ");
    out.append(SERVICE_DISPLAY_NAME);
    out.append("\n  program: ");
    out.append(program);
    out.append("\n  serves:  http://");
    out.append(addr);
    out.append("\n  Set the DIG Chrome extension's \"server host\" to ");
    out.append(addr);
    out.append(".\n  Start it now with: dig-node start");
    out
}

fn append_recovery(out: &mut String, failure: &str)
    ensures
        final(out)@ == old(out)@ + recovery_note(Some(failure@)),
{
    out.append("\n  note: could not configure Windows SCM restart-on-crash recovery actions (");
    out.append(failure);
    out.append(
        "); the service is installed but will NOT auto-restart if it crashes. Configure manually with: sc.exe failure ",
    );
    out.append(SERVICE_LABEL);
    out.append(" reset= ");
    out.append(RECOVERY_RESET_SECONDS);
    out.append(" actions= ");
    out.append(RECOVERY_ACTIONS);
    proof {
        assert(out@ =~= old(out)@ + recovery_note(Some(failure@)));
    }
}

fn append_migration(out: &mut String, m: &ScopeRemoval)
    ensures
        final(out)@ == old(out)@ + migration_note(Some(m@)),
{
    if m.removed {
        out.append("\n  note: removed a previous ");
        out.append(m.scope.as_str());
        out.append("-scope registration of this service.");
        proof {
            assert(out@ =~= old(out)@ + migration_note(Some(m@)));
        }
    } else if m.found || m.indeterminate {
        out.append("\n  WARN a ");
        out.append(m.scope.as_str());
        out.append(
            "-scope registration of this service is still present and could not be removed (",
        );
        match &m.error {
            Some(e) => out.append(e.as_str()),
            None => out.append("removal did not take effect"),
        }
        out.append(
            "); both may try to serve the same port. Remove it with: dig-node uninstall --scope ",
        );
        out.append(m.scope.as_str());
        proof {
            assert(out@ =~= old(out)@ + migration_note(Some(m@)));
        }
    } else {
        proof {
            assert(out@ =~= old(out)@ + migration_note(Some(m@)));
        }
    }
}

fn append_sweep(out: &mut String, s: &UserScopeSweep)
    ensures
        final(out)@ == old(out)@ + sweep_note(Some(*s)),
{
    let ghost start = out@;
    let ghost homes = text::views(s.removed@);
    let ghost failures = failure_views(s.failed@);
    let mut i: usize = 0;
    proof {
        assert(homes.take(0) =~= Seq::empty());
        assert(start + cleared_notes(homes.take(0)) =~= start);
    }
    while i < s.removed.len()
        invariant
            i <= s.removed@.len(),
            homes == text::views(s.removed@),
            out@ == start + cleared_notes(homes.take(i as int)),
        decreases s.removed@.len() - i,
    {
        proof {
            assert(homes.take(i + 1).drop_last() =~= homes.take(i as int));
            assert(homes.take(i + 1).last() == s.removed@[i as int]@);
        }
        out.append("\n  note: removed (and stopped) the user-level registration belonging to ");
        out.append(s.removed[i].as_str());
        out.append(".");
        proof {
            assert(out@ =~= start + cleared_notes(homes.take(i + 1)));
        }
        i += 1;
    }
    proof {
        assert(homes.take(homes.len() as int) =~= homes);
    }
    let ghost mid = out@;
    let mut j: usize = 0;
    proof {
        assert(failures.take(0) =~= Seq::empty());
        assert(mid + failed_notes(failures.take(0)) =~= mid);
    }
    while j < s.failed.len()
        invariant
            j <= s.failed@.len(),
            failures == failure_views(s.failed@),
            out@ == mid + failed_notes(failures.take(j as int)),
        decreases s.failed@.len() - j,
    {
        proof {
            assert(failures.take(j + 1).drop_last() =~= failures.take(j as int));
            assert(failures.take(j + 1).last() == (s.failed@[j as int].0@, s.failed@[j as int].1@));
        }
        out.append("\n  WARN could not remove the user-level registration belonging to ");
        out.append(s.failed[j].0.as_str());
        out.append(" (");
        out.append(s.failed[j].1.as_str());
        out.append(
            "); it                  may keep starting a second node on the same port. Have that user run: dig-node                  uninstall --scope user",
        );
        proof {
            assert(out@ =~= mid + failed_notes(failures.take(j + 1)));
        }
        j += 1;
    }
    proof {
        assert(failures.take(failures.len() as int) =~= failures);
    }
    out.append("\n  note: ");
    out.append(RESIDUAL_NOTE);
    proof {
        assert(out@ =~= start + sweep_note(Some(*s)));
    }
}

fn copy_failures(list: &Vec<(String, String)>) -> (r: Vec<(String, String)>)
    ensures
        failure_views(r@) == failure_views(list@),
{
    let mut out: Vec<(String, String)> = Vec::new();
    let mut i: usize = 0;
    while i < list.len()
        invariant
            i <= list@.len(),
            failure_views(out@) == failure_views(list@).take(i as int),
        decreases list@.len() - i,
    {
        let ghost before = out@;
        out.push((list[i].0.clone(), list[i].1.clone()));
        proof {
            assert(failure_views(out@) =~= failure_views(before).push(
                (list@[i as int].0@, list@[i as int].1@),
            ));
            assert(failure_views(out@) =~= failure_views(list@).take(i + 1));
        }
        i += 1;
    }
    proof {
        assert(failure_views(list@).take(list@.len() as int) =~= failure_views(list@));
    }
    out
}

/// Report an install: where the service lives, what was cleared away before it, and what could not
/// be.
pub fn install_outcome(config: &Config, scope: ServiceScope, program: &str, done: InstallDone) -> (r:
    Outcome<InstallResult>)
    ensures
        reports_install(r, *config, scope, program@, done),
{
    let addr = config.bind_addr().to_text();
    let mut summary = head_text(
        done.registered.report.existed,
        scope,
        program,
        addr.as_str(),
    );
    let ghost head = install_head(
        done.registered.report.existed,
        scope,
        program@,
        endpoint_text(config.bound()),
    );
    let ghost n1 = migration_note(migration_model(done.registered.migration));
    let ghost n2 = sweep_note(done.sweep);
    let ghost n3 = recovery_note(text::opt_view(done.recovery_failure));
    let ghost n4 = display_note(done.display_name_verified);
    match &done.registered.migration {
        Some(m) => append_migration(&mut summary, m),
        None => {},
    }
    proof {
        assert(summary@ =~= head + n1);
    }
    let mut told: Option<SweepResult> = None;
    match &done.sweep {
        Some(s) => {
            append_sweep(&mut summary, s);
            told = Some(
                SweepResult {
                    removed_accounts: text::copy_list(&s.removed),
                    failed_accounts: copy_failures(&s.failed),
                    residual: RESIDUAL_NOTE.to_owned(),
                },
            );
        },
        None => {},
    }
    proof {
        assert(summary@ =~= head + n1 + n2);
    }
    match &done.recovery_failure {
        Some(e) => append_recovery(&mut summary, e.as_str()),
        None => {},
    }
    proof {
        assert(summary@ =~= head + n1 + n2 + n3);
    }
    if let Some(false) = done.display_name_verified {
        summary.append(
            "\n  note: the Windows display name override could not be confirmed via `sc qc`; the service is installed and usable, just possibly showing its id in the Services console.",
        );
    }
    proof {
        assert(summary@ =~= head + n1 + n2 + n3 + n4);
    }
    let recovery_configured = done.recovery_failure.is_none();
    Outcome {
        summary,
        result: InstallResult {
            installed: true,
            reinstalled: done.registered.report.existed,
            registered: true,
            started: false,
            label: SERVICE_LABEL.to_owned(),
            display_name: SERVICE_DISPLAY_NAME.to_owned(),
            scope: scope.as_str().to_owned(),
            program: program.to_owned(),
            addr,
            upstream: config.upstream.clone(),
            recovery_configured,
            display_name_verified: done.display_name_verified,
            user_scope_sweep: told,
            migrated_from_scope: done.registered.migration,
        },
    }
}

/// What is said where the state directory could not be secured before an install.
pub open spec fn harden_sentence(dir: Seq<char>, why: Seq<char>) -> Seq<char> {
    "dig-node: WARN could not harden "@ + dir + " during install ("@ + why
        + "); the service will re-secure it at startup"@
}

/// What is said where the state directory could not be secured before an install.
pub fn harden_warning(dir: &str, why: &Error) -> (r: String)
    ensures
        r@ == harden_sentence(dir@, why.message@),
{
    let mut out = "dig-node: WARN could not harden ".to_owned();
    out.append(dir);
    out.append(" during install (");
    out.append(why.message.as_str());
    out.append("); the service will re-secure it at startup");
    out
}

// ---- start and stop ----------------------------------------------------------------------------

/// Whether an error of a start says that the service runs already.
pub open spec fn says_running(message: Seq<char>) -> bool {
    let m = tokens::lowered(message);
    ||| text::has(m, "1056"@) && (text::has(m, "already"@) || text::has(m, "running"@))
    ||| text::has(m, "already running"@)
    ||| text::has(m, "already loaded"@)
    ||| text::has(m, "already in progress"@)
    ||| text::has(m, "already active"@)
}

/// Whether an error of a start says that the service runs already, in the words of any of the
/// service managers. The number alone says nothing: it may be part of a path.
pub fn is_already_running_error(message: &str) -> (r: bool)
    ensures
        r == says_running(message@),
{
    let m = tokens::to_ascii_lowercase(message);
    let s = m.as_str();
    (text::contains(s, "1056") && (text::contains(s, "already") || text::contains(s, "running")))
        || text::contains(s, "already running") || text::contains(s, "already loaded")
        || text::contains(s, "already in progress") || text::contains(s, "already active")
}

/// What a start reports to a program.
#[derive(Debug)]
pub struct StartResult {
    pub started: bool,
    pub already_running: bool,
    pub label: String,
}

/// Whether `r` is the answer to a start that the manager answered by `result`.
pub open spec fn is_start_answer(
    result: Result<(), Error>,
    r: Result<Outcome<StartResult>, Error>,
) -> bool {
    match result {
        Ok(()) => r matches Ok(o) && o.summary@ == "dig-node: start requested for \""@
            + SERVICE_LABEL@ + "\""@ && o.result.started && !o.result.already_running
            && o.result.label@ == SERVICE_LABEL@,
        Err(e) => if says_running(e.message@) {
            r matches Ok(o) && o.summary@ == "dig-node: service \""@ + SERVICE_LABEL@
                + "\" is already running"@ && o.result.started && o.result.already_running
                && o.result.label@ == SERVICE_LABEL@
        } else {
            r matches Err(same) && same@ == e@
        },
    }
}

/// Report a start. A service that runs already is what was wanted.
pub fn start_outcome(result: Result<(), Error>) -> (r: Result<Outcome<StartResult>, Error>)
    ensures
        is_start_answer(result, r),
{
    match result {
        Ok(()) => {
            let mut summary = "dig-node: start requested for \"".to_owned();
            summary.append(SERVICE_LABEL);
            summary.append("\"");
            Ok(
                Outcome {
                    summary,
                    result: StartResult {
                        started: true,
                        already_running: false,
                        label: SERVICE_LABEL.to_owned(),
                    },
                },
            )
        },
        Err(e) => {
            if is_already_running_error(e.message.as_str()) {
                let mut summary = "dig-node: service \"".to_owned();
                summary.append(SERVICE_LABEL);
                summary.append("\" is already running");
                Ok(
                    Outcome {
                        summary,
                        result: StartResult {
                            started: true,
                            already_running: true,
                            label: SERVICE_LABEL.to_owned(),
                        },
                    },
                )
            } else {
                Err(e)
            }
        },
    }
}

/// Report a start from whether the manager could be had and what it answered.
pub fn start(manager: Result<(), Error>, started: Result<(), Error>) -> (r: Result<
    Outcome<StartResult>,
    Error,
>)
    ensures
        manager is Ok ==> is_start_answer(started, r),
        manager matches Err(e) ==> (r matches Err(same) && same@ == e@),
{
    match manager {
        Err(e) => Err(e),
        Ok(()) => start_outcome(started),
    }
}

/// What a stop reports to a program.
#[derive(Debug)]
pub struct StopResult {
    pub stopped: bool,
    pub label: String,
}

/// Report a stop from whether the manager could be had and what it answered.
pub fn stop(manager: Result<(), Error>, stopped: Result<(), Error>) -> (r: Result<
    Outcome<StopResult>,
    Error,
>)
    ensures
        manager matches Err(e) ==> (r matches Err(same) && same@ == e@),
        manager is Ok && stopped is Err ==> (r matches Err(same) && same@ == stopped->Err_0@),
        manager is Ok && stopped is Ok ==> (r matches Ok(o) && o.summary@
            == "dig-node: stop requested for \""@ + SERVICE_LABEL@ + "\""@ && o.result.stopped
            && o.result.label@ == SERVICE_LABEL@),
{
    match manager {
        Err(e) => Err(e),
        Ok(()) => match stopped {
            Err(e) => Err(e),
            Ok(()) => {
                let mut summary = "dig-node: stop requested for \"".to_owned();
                summary.append(SERVICE_LABEL);
                summary.append("\"");
                Ok(
                    Outcome {
                        summary,
                        result: StopResult { stopped: true, label: SERVICE_LABEL.to_owned() },
                    },
                )
            },
        },
    }
}

// ---- status ------------------------------------------------------------------------------------

/// What a status reports to a program.
#[derive(Debug)]
pub struct StatusResult {
    pub serving: bool,
    pub addr: String,
    pub health_url: String,
}

/// The summary of a status.
pub open spec fn status_summary(addr: Seq<char>, probe: Result<bool, Error>) -> Seq<char> {
    match probe {
        Ok(true) => "dig-node: SERVING on http://"@ + addr + " (http://"@ + addr + "/health)"@,
        Ok(false) => "dig-node: NOT responding on http://"@ + addr
            + " (the service may be stopped or not installed)"@,
        Err(e) => "dig-node: could not probe http://"@ + addr + ": "@ + e.message@,
    }
}

/// Report whether the node serves, from what a look at its health address answered.
pub fn status(config: &Config, probe: Result<bool, Error>) -> (r: Outcome<StatusResult>)
    ensures
        ({
            let addr = endpoint_text(config.bound());
            &&& r.summary@ == status_summary(addr, probe)
            &&& r.result.serving == (probe matches Ok(true))
            &&& r.result.addr@ == addr
            &&& r.result.health_url@ == "http://"@ + addr + "/health"@
        }),
{
    let addr = config.bind_addr().to_text();
    let mut health_url = "http://".to_owned();
    health_url.append(addr.as_str());
    health_url.append("/health");
    let mut serving = false;
    let mut summary = String::new();
    match &probe {
        Ok(true) => {
            serving = true;
            summary = "dig-node: SERVING on http://".to_owned();
            summary.append(addr.as_str());
            summary.append(" (http://");
            summary.append(addr.as_str());
            summary.append("/health)");
        },
        Ok(false) => {
            summary = "dig-node: NOT responding on http://".to_owned();
            summary.append(addr.as_str());
            summary.append(" (the service may be stopped or not installed)");
        },
        Err(e) => {
            summary = "dig-node: could not probe http://".to_owned();
            summary.append(addr.as_str());
            summary.append(": ");
            summary.append(e.message.as_str());
        },
    }
    Outcome { summary, result: StatusResult { serving, addr, health_url } }
}

/// The request by which the node's health is asked.
pub fn health_request(addr: &Endpoint) -> (r: String)
    ensures
        r@ == "GET /health HTTP/1.0\r\nHost: "@ + endpoint_text(*addr)
            + "\r\nConnection: close\r\n\r\n"@,
{
    let mut out = "GET /health HTTP/1.0\r\nHost: ".to_owned();
    out.append(addr.to_text().as_str());
    out.append("\r\nConnection: close\r\n\r\n");
    out
}

/// The first line of `s`, or nothing.
pub open spec fn first_line(s: Seq<char>) -> Seq<char> {
    let lines = text::lines_of(s);
    if lines.len() == 0 {
        Seq::empty()
    } else {
        lines[0]
    }
}

/// Whether the first line of an answer is a status line that says success: its second word is a
/// number from 200 to 299.
pub open spec fn says_success(head: Seq<char>) -> bool {
    let line = first_line(head);
    let words = tokens::words_of(line);
    &&& text::starts(line, "HTTP/"@)
    &&& words.len() > 1
    &&& tokens::numeral(words[1], 65535) matches Some(code)
    &&& 200 <= code < 300
}

/// Whether the first line of an answer is a status line that says success. Only the second word of
/// that line counts.
pub fn is_2xx_status_line(response_head: &str) -> (r: bool)
    ensures
        r == says_success(response_head@),
{
    let lines = text::lines(response_head);
    let first = if lines.len() == 0 {
        String::new()
    } else {
        lines[0].clone()
    };
    proof {
        assert(lines@.len() == text::views(lines@).len());
        assert(first@ =~= first_line(response_head@));
    }
    if !text::starts_with(first.as_str(), "HTTP/") {
        return false;
    }
    let words = tokens::words(first.as_str());
    proof {
        assert(words@.len() == text::views(words@).len());
    }
    if words.len() < 2 {
        return false;
    }
    proof {
        assert(text::views(words@)[1] == words@[1]@);
    }
    match tokens::parse_number(words[1].as_str(), 65535) {
        Some(code) => 200 <= code && code < 300,
        None => false,
    }
}

// ---- laws of what is reported ------------------------------------------------------------------

/// **Law: which scopes are named as removed.** A name is among them exactly where a scope of that name was
/// deregistered.
pub proof fn law_which_scopes_are_named(list: Seq<RemovalModel>, m: RemovalModel)
    ensures
        removed_names(Seq::empty()).len() == 0,
        m.removed ==> removed_names(list.push(m)) == removed_names(list).push(m.scope.name()),
        !m.removed ==> removed_names(list.push(m)) == removed_names(list),
        problem_lines(Seq::empty()).len() == 0,
        m.indeterminate || (m.found && !m.removed) ==> problem_lines(list.push(m)) == problem_lines(list).push(
            problem_line(m),
        ),
        !m.indeterminate && (!m.found || m.removed) ==> problem_lines(list.push(m)) == problem_lines(list),
        m.error is Some ==> reason_lines(list.push(m)).len() == reason_lines(list).len() + 1,
        m.error is None ==> reason_lines(list.push(m)) == reason_lines(list),
        text::has(problem_line(m), m.scope.name()),
        m.error matches Some(e) ==> text::has(problem_line(m), e) && text::has(
            reason_lines(list.push(m)).last(),
            e,
        ),
        scope_names(list).len() == list.len(),
        forall|i: int| 0 <= i < list.len() ==> #[trigger] scope_names(list)[i] == list[i].scope.name(),
{
    assert(list.push(m).drop_last() =~= list);
    let n = m.scope.name();
    let s = " scope: "@;
    let tail = match m.error {
        Some(e) => e,
        None => "removal did not take effect"@,
    };
    text::law_parts_are_found(Seq::empty(), n, s + tail);
    assert(Seq::<char>::empty() + n + (s + tail) =~= problem_line(m));
    text::law_parts_are_found(n + s, tail, Seq::empty());
    assert(n + s + tail + Seq::<char>::empty() =~= problem_line(m));
}

/// **Law: what an uninstall is answered.** It fails for want of permission where a registration remains or
/// may remain in any scope; it fails as nothing found where none remains and none was removed; and it
/// succeeds where at least one was removed and none remains.
pub proof fn law_what_an_uninstall_is_answered(list: Seq<RemovalModel>)
    ensures
        (exists|i: int|
            0 <= i < list.len() && ((#[trigger] list[i]).indeterminate || (list[i].found && !list[i].removed)))
            <==> (uninstall_failure(list) matches Some(e) && e.kind == ErrorKind::PermissionDenied),
        (forall|i: int|
            0 <= i < list.len() ==> !(#[trigger] list[i]).indeterminate && !list[i].found && !list[i].removed)
            <==> (uninstall_failure(list) matches Some(e) && e.kind == ErrorKind::NotFound),
{
    lemma_problems(list);
    lemma_removals(list);
    if uninstall_failure(list) matches Some(e) && e.kind == ErrorKind::NotFound {
        assert forall|i: int| 0 <= i < list.len() implies !(#[trigger] list[i]).indeterminate && !list[i].found
            && !list[i].removed by {
            law_nothing_there_is_never_a_guess(list, i);
        }
    }
}

proof fn lemma_problems(list: Seq<RemovalModel>)
    ensures
        problem_lines(list).len() > 0 <==> exists|i: int| 0 <= i < list.len() && is_unresolved(#[trigger] list[i]),
    decreases list.len(),
{
    if list.len() > 0 {
        let prior = list.drop_last();
        lemma_problems(prior);
        assert(list.last() == list[list.len() - 1]);
        if exists|i: int| 0 <= i < prior.len() && is_unresolved(#[trigger] prior[i]) {
            let i = choose|i: int| 0 <= i < prior.len() && is_unresolved(#[trigger] prior[i]);
            assert(list[i] == prior[i]);
        }
        if exists|i: int| 0 <= i < list.len() && is_unresolved(#[trigger] list[i]) {
            let i = choose|i: int| 0 <= i < list.len() && is_unresolved(#[trigger] list[i]);
            if i < prior.len() {
                assert(prior[i] == list[i]);
            }
        }
    }
}

proof fn lemma_removals(list: Seq<RemovalModel>)
    ensures
        removed_names(list).len() > 0 <==> exists|i: int| 0 <= i < list.len() && (#[trigger] list[i]).removed,
    decreases list.len(),
{
    if list.len() > 0 {
        let prior = list.drop_last();
        lemma_removals(prior);
        assert(list.last() == list[list.len() - 1]);
        if exists|i: int| 0 <= i < prior.len() && (#[trigger] prior[i]).removed {
            let i = choose|i: int| 0 <= i < prior.len() && (#[trigger] prior[i]).removed;
            assert(list[i] == prior[i]);
        }
        if exists|i: int| 0 <= i < list.len() && (#[trigger] list[i]).removed {
            let i = choose|i: int| 0 <= i < list.len() && (#[trigger] list[i]).removed;
            if i < prior.len() {
                assert(prior[i] == list[i]);
            }
        }
    }
}

/// **Law: an uninstall goes through its scopes as they were asked for.** The first is removed whatever is
/// seen, any other only where something is seen; a scope whose manager could not be had is left in doubt,
/// with the reason.
pub proof fn law_how_each_scope_is_gone_through(scope: ServiceScope, why: Error, i: int, f: UninstallFacts)
    ensures
        mode_at(0) == RemovalMode::Requested,
        i > 0 ==> mode_at(i) == RemovalMode::Swept,
        unreachable_scope(scope, why).scope == scope,
        unreachable_scope(scope, why).indeterminate,
        !unreachable_scope(scope, why).removed,
        !unreachable_scope(scope, why).found,
        unreachable_scope(scope, why).error == Some(why.message@),
        f.manager(ServiceScope::System) == f.system_manager,
        f.manager(ServiceScope::User) == f.user_manager,
{
}

proof fn lemma_grown(a: Seq<char>, b: Seq<char>, c: Seq<char>, d: Seq<char>, x: Seq<char>)
    ensures
        text::has(a, x) ==> text::has(a + b, x) && text::has(a + b + c, x) && text::has(a + b + c + d, x),
        text::starts(a, x) ==> text::starts(a + b, x) && text::starts(a + b + c, x) && text::starts(
            a + b + c + d,
            x,
        ),
{
    text::law_a_longer_text_holds_its_parts(a, b, x);
    text::law_a_longer_text_holds_its_parts(a + b, c, x);
    text::law_a_longer_text_holds_its_parts(a + b + c, d, x);
}

/// **Law: an install's summary says what was installed.** It names the scope, the program and the address
/// that is served, and it begins with these whatever else it has to tell.
pub proof fn law_the_summary_says_what_was_installed(
    existed: bool,
    scope: ServiceScope,
    program: Seq<char>,
    addr: Seq<char>,
    d: InstallDone,
)
    ensures
        text::has(install_head(existed, scope, program, addr), program),
        text::has(install_head(existed, scope, program, addr), "\n  serves:  http://"@ + addr),
        text::has(install_head(existed, scope, program, addr), scope.name()),
        text::starts(install_head(false, scope, program, addr), "dig-node: "@ + "installed"@),
        text::starts(
            install_summary(scope, program, addr, d),
            install_head(d.registered.report.existed, scope, program, addr),
        ),
        d.recovery_failure matches Some(e) ==> text::has(install_summary(scope, program, addr, d), e@),
{
    let w = "dig-node: "@ + (if existed {
        "reinstalled (stopped + deleted the existing service, then recreated it)"@
    } else {
        "installed"@
    });
    let n = scope.name();
    let a = w + " as a "@;
    let b = a + n;
    let c = b + "-level service\n  id:      "@;
    let e = c + SERVICE_LABEL@ + "\n  display: "@ + SERVICE_DISPLAY_NAME@;
    let f = e + "\n  program: "@;
    let g = f + program;
    let h = g + "\n  serves:  http://"@;
    let i = h + addr;
    let l1 = "\n  Set the DIG Chrome extension's \"server host\" to "@;
    let l2 = ".\n  Start it now with: dig-node start"@;
    assert(install_head(existed, scope, program, addr) == i + l1 + addr + l2);
    text::law_a_longer_text_holds_its_parts(a, n, n);
    lemma_grown(b, "-level service\n  id:      "@, SERVICE_LABEL@, "\n  display: "@, n);
    lemma_grown(c + SERVICE_LABEL@ + "\n  display: "@, SERVICE_DISPLAY_NAME@, "\n  program: "@, program, n);
    lemma_grown(g, "\n  serves:  http://"@, addr, l1, n);
    text::law_a_longer_text_holds_its_parts(i + l1, addr, n);
    text::law_a_longer_text_holds_its_parts(i + l1 + addr, l2, n);
    text::law_a_longer_text_holds_its_parts(f, program, program);
    lemma_grown(g, "\n  serves:  http://"@, addr, l1, program);
    text::law_a_longer_text_holds_its_parts(i + l1, addr, program);
    text::law_a_longer_text_holds_its_parts(i + l1 + addr, l2, program);
    let s = "\n  serves:  http://"@ + addr;
    assert(i == g + s) by {
        assert(g + "\n  serves:  http://"@ + addr =~= g + ("\n  serves:  http://"@ + addr));
    }
    text::law_a_longer_text_holds_its_parts(g, s, s);
    lemma_grown(i, l1, addr, l2, s);
    lemma_first_words(scope, program, addr);
    lemma_summary_ends(scope, program, addr, d);
}

proof fn lemma_first_words(scope: ServiceScope, program: Seq<char>, addr: Seq<char>)
    ensures
        text::starts(install_head(false, scope, program, addr), "dig-node: "@ + "installed"@),
{
    let x = "dig-node: "@ + "installed"@;
    let n = scope.name();
    text::law_a_longer_text_holds_its_parts(x, " as a "@, x);
    lemma_grown(x + " as a "@, n, "-level service\n  id:      "@, SERVICE_LABEL@, x);
    let c = x + " as a "@ + n + "-level service\n  id:      "@ + SERVICE_LABEL@;
    lemma_grown(c, "\n  display: "@, SERVICE_DISPLAY_NAME@, "\n  program: "@, x);
    let f = c + "\n  display: "@ + SERVICE_DISPLAY_NAME@ + "\n  program: "@;
    lemma_grown(f, program, "\n  serves:  http://"@, addr, x);
    lemma_grown(
        f + program + "\n  serves:  http://"@ + addr,
        "\n  Set the DIG Chrome extension's \"server host\" to "@,
        addr,
        ".\n  Start it now with: dig-node start"@,
        x,
    );
}

proof fn lemma_summary_ends(scope: ServiceScope, program: Seq<char>, addr: Seq<char>, d: InstallDone)
    ensures
        text::starts(
            install_summary(scope, program, addr, d),
            install_head(d.registered.report.existed, scope, program, addr),
        ),
        d.recovery_failure matches Some(e) ==> text::has(install_summary(scope, program, addr, d), e@),
{
    let h = install_head(d.registered.report.existed, scope, program, addr);
    let a = migration_note(migration_model(d.registered.migration));
    let b = sweep_note(d.sweep);
    let c = recovery_note(text::opt_view(d.recovery_failure));
    let z = display_note(d.display_name_verified);
    text::law_a_longer_text_holds_its_parts(h, a, h);
    lemma_grown(h + a, b, c, z, h);
    if let Some(e) = d.recovery_failure {
        lemma_recovery_note(e@);
        text::law_a_longer_text_holds_its_parts(h + a + b, c, e@);
        text::law_a_longer_text_holds_its_parts(h + a + b + c, z, e@);
    }
}

proof fn lemma_recovery_note(e: Seq<char>)
    ensures
        text::has(recovery_note(Some(e)), e),
{
    let a = "\n  note: could not configure Windows SCM restart-on-crash recovery actions ("@;
    let b = "); the service is installed but will NOT auto-restart if it crashes. Configure manually with: sc.exe failure "@;
    text::law_a_longer_text_holds_its_parts(a, e, e);
    lemma_grown(a + e, b, SERVICE_LABEL@, " reset= "@, e);
    lemma_grown(
        a + e + b + SERVICE_LABEL@ + " reset= "@,
        RECOVERY_RESET_SECONDS@,
        " actions= "@,
        RECOVERY_ACTIONS@,
        e,
    );
}

/// **Law: what was left behind is told.** A registration that could not be cleared is warned of, with its
/// scope and why; one that was cleared is noted; where there was none nothing is said.
pub proof fn law_what_was_left_behind_is_told(m: RemovalModel)
    ensures
        migration_note(None).len() == 0,
        !m.found && !m.removed && !m.indeterminate ==> migration_note(Some(m)).len() == 0,
        m.removed ==> text::starts(migration_note(Some(m)), "\n  note: removed a previous "@ + m.scope.name()),
        !m.removed && (m.found || m.indeterminate) ==> text::starts(
            migration_note(Some(m)),
            "\n  WARN a "@ + m.scope.name(),
        ) && (m.error matches Some(e) ==> text::has(migration_note(Some(m)), e)),
{
    let n = m.scope.name();
    if m.removed {
        let a = "\n  note: removed a previous "@ + n;
        text::law_a_longer_text_holds_its_parts(a, "-scope registration of this service."@, a);
    } else if m.found || m.indeterminate {
        let a = "\n  WARN a "@ + n;
        let b = "-scope registration of this service is still present and could not be removed ("@;
        let why = match m.error {
            Some(e) => e,
            None => "removal did not take effect"@,
        };
        let c = "); both may try to serve the same port. Remove it with: dig-node uninstall --scope "@;
        text::law_a_longer_text_holds_its_parts(a, b, a);
        lemma_grown(a + b, why, c, n, a);
        text::law_a_longer_text_holds_its_parts(a + b, why, why);
        text::law_a_longer_text_holds_its_parts(a + b + why, c, why);
        text::law_a_longer_text_holds_its_parts(a + b + why + c, n, why);
    }
}

/// **Law: every account of a sweep is told.** Each home that was cleared, and each that could not be, with
/// why.
pub proof fn law_every_account_is_told(
    homes: Seq<Seq<char>>,
    home: Seq<char>,
    list: Seq<(Seq<char>, Seq<char>)>,
    why: Seq<char>,
)
    ensures
        cleared_notes(Seq::empty()).len() == 0,
        failed_notes(Seq::empty()).len() == 0,
        text::starts(cleared_notes(homes.push(home)), cleared_notes(homes)),
        text::has(cleared_notes(homes.push(home)), home),
        text::starts(failed_notes(list.push((home, why))), failed_notes(list)),
        text::has(failed_notes(list.push((home, why))), home),
        text::has(failed_notes(list.push((home, why))), why),
{
    assert(homes.push(home).drop_last() =~= homes);
    assert(list.push((home, why)).drop_last() =~= list);
    let h = cleared_notes(homes);
    let a = "\n  note: removed (and stopped) the user-level registration belonging to "@;
    text::law_a_longer_text_holds_its_parts(h, a, h);
    lemma_grown(h + a, home, "."@, Seq::empty(), h);
    text::law_a_longer_text_holds_its_parts(h + a, home, home);
    text::law_a_longer_text_holds_its_parts(h + a + home, "."@, home);
    let f = failed_notes(list);
    let b = "\n  WARN could not remove the user-level registration belonging to "@;
    let c = "); it                  may keep starting a second node on the same port. Have that user run: dig-node                  uninstall --scope user"@;
    text::law_a_longer_text_holds_its_parts(f, b, f);
    text::law_a_longer_text_holds_its_parts(f + b, home, f);
    lemma_grown(f + b + home, " ("@, why, c, f);
    text::law_a_longer_text_holds_its_parts(f + b, home, home);
    lemma_grown(f + b + home, " ("@, why, c, home);
    text::law_a_longer_text_holds_its_parts(f + b + home + " ("@, why, why);
    text::law_a_longer_text_holds_its_parts(f + b + home + " ("@ + why, c, why);
}

/// **Law: what the report tells a program.** The service is installed and registered and not started, in the
/// scope, with the program, the address and the upstream of the configuration; whether it was there
/// before, whether restarts were set up, and whether the name was confirmed, as they came out.
pub proof fn law_the_report_tells_what_was_done(
    o: Outcome<InstallResult>,
    config: Config,
    scope: ServiceScope,
    program: Seq<char>,
    d: InstallDone,
)
    requires
        reports_install(o, config, scope, program, d),
    ensures
        o.result.installed && o.result.registered && !o.result.started,
        o.result.reinstalled == d.registered.report.existed,
        o.result.scope@ == scope.name(),
        o.result.program@ == program,
        o.result.addr@ == endpoint_text(config.bound()),
        o.result.upstream@ == config.upstream@,
        o.result.recovery_configured <==> d.recovery_failure is None,
        o.result.display_name_verified == d.display_name_verified,
        o.result.migrated_from_scope is Some <==> d.registered.migration is Some,
        o.result.user_scope_sweep is Some <==> d.sweep is Some,
        o.result.label@ == "net.dignetwork.dig-node"@,
{
}

/// **Law: what says that the service runs already.** Any message that holds one of the phrases of the
/// service managers, in any case; the number of Windows' message only beside `already` or `running`; and no
/// message that holds neither a phrase nor the number.
pub proof fn law_what_says_that_it_runs(m: Seq<char>)
    ensures
        text::has(tokens::lowered(m), "already running"@) || text::has(tokens::lowered(m), "already loaded"@)
            || text::has(tokens::lowered(m), "already in progress"@) || text::has(
            tokens::lowered(m),
            "already active"@,
        ) ==> says_running(m),
        text::has(tokens::lowered(m), "1056"@) && text::has(tokens::lowered(m), "already"@) ==> says_running(m),
        text::has(tokens::lowered(m), "1056"@) && text::has(tokens::lowered(m), "running"@) ==> says_running(m),
        says_running(m) && !text::has(tokens::lowered(m), "1056"@) ==> text::has(
            tokens::lowered(m),
            "already running"@,
        ) || text::has(tokens::lowered(m), "already loaded"@) || text::has(
            tokens::lowered(m),
            "already in progress"@,
        ) || text::has(tokens::lowered(m), "already active"@),
{
}

/// **Law: a start that finds the service running is a start.** It succeeds where the manager says yes, and
/// where it says that the service runs already, told apart; any other refusal is handed on as it came.
pub proof fn law_a_start_is_answered(result: Result<(), Error>, r: Result<Outcome<StartResult>, Error>)
    requires
        is_start_answer(result, r),
    ensures
        result is Ok ==> (r matches Ok(o) && o.result.started && !o.result.already_running),
        result matches Err(e) ==> if says_running(e.message@) {
            r matches Ok(o) && o.result.started && o.result.already_running
        } else {
            r matches Err(x) && x.kind == e.kind && x.message@ == e.message@
        },
{
}

/// **Law: a status names the address it asked.** Serving, silence and a failed look are told apart, and a
/// failed look says why.
pub proof fn law_a_status_names_the_address(addr: Seq<char>, e: Error)
    ensures
        text::starts(status_summary(addr, Ok(true)), "dig-node: SERVING on http://"@ + addr),
        text::starts(status_summary(addr, Ok(false)), "dig-node: NOT responding on http://"@ + addr),
        text::starts(status_summary(addr, Err(e)), "dig-node: could not probe http://"@ + addr),
        text::has(status_summary(addr, Err(e)), e.message@),
{
    let a = "dig-node: SERVING on http://"@ + addr;
    text::law_a_longer_text_holds_its_parts(a, " (http://"@, a);
    lemma_grown(a + " (http://"@, addr, "/health)"@, Seq::empty(), a);
    let b = "dig-node: NOT responding on http://"@ + addr;
    text::law_a_longer_text_holds_its_parts(b, " (the service may be stopped or not installed)"@, b);
    let c = "dig-node: could not probe http://"@ + addr;
    text::law_a_longer_text_holds_its_parts(c, ": "@, c);
    text::law_a_longer_text_holds_its_parts(c + ": "@, e.message@, c);
    text::law_a_longer_text_holds_its_parts(c + ": "@, e.message@, e.message@);
}

/// **Law: what a success looks like on the wire.** A first line that begins with `HTTP/`, and whose second
/// word is a number from 200 to 299; a line with any other number, or that begins otherwise, is none.
pub proof fn law_what_a_success_looks_like(version: Seq<char>, n: nat, reason: Seq<char>)
    requires
        n <= 999,
        !reason.contains('\n'),
        forall|i: int| 0 <= i < version.len() ==> 0x21 <= (#[trigger] version[i] as int) <= 0x7E,
    ensures
        says_success("HTTP/"@ + version + seq![' '] + text::decimal(n) + seq![' '] + reason) <==> 200 <= n < 300,
        !says_success(Seq::empty()),
{
    let w = "HTTP/"@ + version;
    let d = text::decimal(n);
    let line = w + seq![' '] + d + seq![' '] + reason;
    tokens::law_decimal_reads_back(n);
    assert(tokens::numeral(d, 65535) == Some(n));
    assert(text::starts(line, "HTTP/"@)) by {
        text::law_a_longer_text_holds_its_parts("HTTP/"@, version, "HTTP/"@);
        lemma_grown(w, seq![' '], d, seq![' '], "HTTP/"@);
        text::law_a_longer_text_holds_its_parts(w + seq![' '] + d + seq![' '], reason, "HTTP/"@);
    }
    lemma_no_gap(version);
    lemma_status_words(w, d, reason);
    lemma_status_is_one_line(w, d, reason);
    lemma_judged_by_its_number(line, d, n);
    lemma_silence_is_no_success();
}

proof fn lemma_judged_by_its_number(line: Seq<char>, d: Seq<char>, n: nat)
    requires
        first_line(line) == line,
        text::starts(line, "HTTP/"@),
        tokens::words_of(line).len() > 1,
        tokens::words_of(line)[1] == d,
        tokens::numeral(d, 65535) == Some(n),
    ensures
        says_success(line) <==> 200 <= n < 300,
{
}

proof fn lemma_silence_is_no_success()
    ensures
        !says_success(Seq::empty()),
{
    reveal_strlit("HTTP/");
    assert("HTTP/"@.len() == 5);
    text::law_lines_end_at_newlines(Seq::empty(), Seq::empty());
    text::law_parts_are_found(Seq::empty(), "HTTP/"@, Seq::empty());
}

proof fn lemma_no_gap(version: Seq<char>)
    requires
        forall|i: int| 0 <= i < version.len() ==> 0x21 <= (#[trigger] version[i] as int) <= 0x7E,
    ensures
        ("HTTP/"@ + version).len() > 0,
        forall|i: int|
            0 <= i < ("HTTP/"@ + version).len() ==> 0x21 <= (#[trigger] ("HTTP/"@ + version)[i] as int) <= 0x7E,
{
    reveal_strlit("HTTP/");
    let w = "HTTP/"@ + version;
    assert forall|i: int| 0 <= i < w.len() implies 0x21 <= (#[trigger] w[i] as int) <= 0x7E by {
        if i >= 5 {
            assert(w[i] == version[i - 5]);
        }
    }
}

proof fn lemma_status_words(w: Seq<char>, d: Seq<char>, reason: Seq<char>)
    requires
        w.len() > 0,
        d.len() > 0,
        forall|i: int| 0 <= i < w.len() ==> 0x21 <= (#[trigger] w[i] as int) <= 0x7E,
        forall|i: int| 0 <= i < d.len() ==> 0x30 <= (#[trigger] d[i] as int) <= 0x39,
    ensures
        tokens::words_of(w + seq![' '] + d + seq![' '] + reason).len() > 1,
        tokens::words_of(w + seq![' '] + d + seq![' '] + reason)[1] == d,
{
    let line = w + seq![' '] + d + seq![' '] + reason;
    assert forall|i: int| 0 <= i < w.len() implies !text::is_white(#[trigger] w[i]) by {}
    assert forall|i: int| 0 <= i < d.len() implies !text::is_white(#[trigger] d[i]) by {}
    tokens::law_words_stand_between_white_space(d, ' ', reason);
    tokens::law_words_stand_between_white_space(w, ' ', d + seq![' '] + reason);
    assert(w + seq![' '] + (d + seq![' '] + reason) =~= line);
}

proof fn lemma_status_is_one_line(w: Seq<char>, d: Seq<char>, reason: Seq<char>)
    requires
        forall|i: int| 0 <= i < w.len() ==> 0x21 <= (#[trigger] w[i] as int) <= 0x7E,
        forall|i: int| 0 <= i < d.len() ==> 0x30 <= (#[trigger] d[i] as int) <= 0x39,
        !reason.contains('\n'),
    ensures
        first_line(w + seq![' '] + d + seq![' '] + reason) == w + seq![' '] + d + seq![' '] + reason,
{
    let line = w + seq![' '] + d + seq![' '] + reason;
    if line.contains('\n') {
        let i = choose|i: int| 0 <= i < line.len() && line[i] == '\n';
        if i < w.len() {
            assert(line[i] == w[i]);
        } else if i > w.len() && i < w.len() + 1 + d.len() {
            assert(line[i] == d[i - w.len() - 1]);
        } else if i > w.len() + 1 + d.len() {
            assert(line[i] == reason[i - w.len() - d.len() - 2]);
            assert(reason.contains('\n'));
        }
    }
    text::law_lines_end_at_newlines(line, Seq::empty());
}

/// **Law: an uninstall says what it left.** A removal that was not completed says what was removed, or that
/// nothing was, and each scope that is not resolved; one that found nothing names the scopes it looked at
/// and each reason there is; one that succeeded names the scopes it removed.
pub proof fn law_an_uninstall_says_what_it_left(list: Seq<RemovalModel>, o: Outcome<UninstallResult>)
    ensures
        incomplete(list).kind == ErrorKind::PermissionDenied,
        text::has(
            incomplete(list).message,
            "). Unresolved: "@ + text::joined(problem_lines(list), "; "@),
        ),
        removed_names(list).len() > 0 ==> text::has(
            incomplete(list).message,
            "removed at: "@ + text::joined(removed_names(list), ", "@),
        ),
        removed_names(list).len() == 0 ==> text::has(incomplete(list).message, "nothing was removed"@),
        nothing_there(list).kind == ErrorKind::NotFound,
        text::has(
            nothing_there(list).message,
            "\" was found at "@ + text::joined(scope_names(list), " or "@),
        ),
        reason_lines(list).len() > 0 ==> text::has(
            nothing_there(list).message,
            text::joined(reason_lines(list), "; "@),
        ),
        reports_removal(o, list) ==> !o.result.installed && !o.result.registered && o.result.label@
            == "net.dignetwork.dig-node"@ && text::views(o.result.removed_scopes@) == removed_names(list) && text::has(
            o.summary@,
            "\" at "@ + text::joined(removed_names(list), " + "@),
        ),
{
    lemma_incomplete_says(list);
    lemma_nothing_there_says(list);
    if reports_removal(o, list) {
        let l = o.summary@;
        let a = "dig-node: uninstalled service \""@ + SERVICE_LABEL@;
        let n = text::joined(removed_names(list), " + "@);
        text::lemma_begins_with_itself(l);
        text::law_a_text_holds_its_beginning(l, a + "\" at "@ + n, " scope"@);
        text::law_neighbours_stay_together(l, a, "\" at "@, n);
    }
}

proof fn lemma_incomplete_says(list: Seq<RemovalModel>)
    ensures
        text::has(
            incomplete(list).message,
            "). Unresolved: "@ + text::joined(problem_lines(list), "; "@),
        ),
        removed_names(list).len() > 0 ==> text::has(
            incomplete(list).message,
            "removed at: "@ + text::joined(removed_names(list), ", "@),
        ),
        removed_names(list).len() == 0 ==> text::has(incomplete(list).message, "nothing was removed"@),
{
    let l = incomplete(list).message;
    let removed = removed_names(list);
    let note = if removed.len() == 0 {
        "nothing was removed"@
    } else {
        "removed at: "@ + text::joined(removed, ", "@)
    };
    let a = "dig-node: could not fully uninstall service \""@ + SERVICE_LABEL@ + "\" ("@;
    let p = text::joined(problem_lines(list), "; "@);
    let z = ". Re-run elevated (e.g. `sudo dig-node uninstall --scope system`) — a registration left behind will keep starting the node."@;
    assert(l == a + note + "). Unresolved: "@ + p + z);
    text::lemma_begins_with_itself(l);
    text::law_a_text_holds_its_beginning(l, a + note + "). Unresolved: "@ + p, z);
    text::law_neighbours_stay_together(l, a + note, "). Unresolved: "@, p);
    text::law_a_text_holds_its_beginning(l, a, note);
}

proof fn lemma_nothing_there_says(list: Seq<RemovalModel>)
    ensures
        text::has(
            nothing_there(list).message,
            "\" was found at "@ + text::joined(scope_names(list), " or "@),
        ),
        reason_lines(list).len() > 0 ==> text::has(
            nothing_there(list).message,
            text::joined(reason_lines(list), "; "@),
        ),
{
    let l = nothing_there(list).message;
    let a = "dig-node: no service registration for \""@ + SERVICE_LABEL@;
    let n = text::joined(scope_names(list), " or "@);
    let said = a + "\" was found at "@ + n + " scope — nothing to uninstall."@;
    let why = text::joined(reason_lines(list), "; "@);
    text::lemma_begins_with_itself(l);
    if reason_lines(list).len() > 0 {
        text::law_a_text_holds_its_beginning(l, said + " ("@ + why, ")"@);
        text::law_a_text_holds_its_beginning(l, said + " ("@, why);
        text::law_a_text_holds_its_beginning(l, said, " ("@);
    }
    text::law_a_text_holds_its_beginning(
        l,
        a + "\" was found at "@ + n,
        " scope — nothing to uninstall."@,
    );
    text::law_neighbours_stay_together(l, a, "\" was found at "@, n);
}

/// **Law: what is noted of an install.** That the name could not be confirmed, where that was tried and
/// failed, and only there; that a directory could not be secured, with the directory and why; and of a sweep
/// each account and what is left to be known.
pub proof fn law_what_is_noted_of_an_install(
    dir: Seq<char>,
    why: Seq<char>,
    r: Option<SweepResult>,
    s: Option<UserScopeSweep>,
)
    ensures
        display_note(None).len() == 0,
        display_note(Some(true)).len() == 0,
        display_note(Some(false)).len() > 0,
        text::has(harden_sentence(dir, why), "dig-node: WARN could not harden "@ + dir),
        text::has(harden_sentence(dir, why), " during install ("@ + why),
        recovery_note(None).len() == 0,
        sweep_note(None).len() == 0,
        is_sweep_result(r, s) ==> (r is Some <==> s is Some),
        is_sweep_result(r, s) ==> (r matches Some(a) ==> s matches Some(b) ==> text::views(a.removed_accounts@)
            == text::views(b.removed@) && failure_views(a.failed_accounts@) == failure_views(b.failed@)),
{
    reveal_strlit(
        "\n  note: the Windows display name override could not be confirmed via `sc qc`; the service is installed and usable, just possibly showing its id in the Services console.",
    );
    let l = harden_sentence(dir, why);
    let a = "dig-node: WARN could not harden "@ + dir;
    text::lemma_begins_with_itself(l);
    text::law_a_text_holds_its_beginning(
        l,
        a + " during install ("@ + why,
        "); the service will re-secure it at startup"@,
    );
    text::law_neighbours_stay_together(l, a, " during install ("@, why);
}

/// **Law: how an uninstall goes through the scopes.** Those of the choice, in their order, each once; one whose
/// manager could not be had is not touched, and any other is removed as its place asks for.
pub proof fn law_how_an_uninstall_goes_through_the_scopes(
    calls: Seq<BackendCall>,
    scopes: Seq<ServiceScope>,
    f: UninstallFacts,
    models: Seq<RemovalModel>,
    parts: Seq<Seq<BackendCall>>,
    i: int,
)
    requires
        are_scope_passes(calls, scopes, f, models, parts),
        0 <= i < scopes.len(),
    ensures
        calls == in_turn(parts),
        models.len() == scopes.len(),
        models[i].scope == scopes[i],
        (match scopes[i] {
            ServiceScope::System => f.system_manager,
            ServiceScope::User => f.user_manager,
        }) matches Err(e) ==> parts[i].len() == 0 && models[i].indeterminate && models[i].error == Some(e.message@),
        (match scopes[i] {
            ServiceScope::System => f.system_manager,
            ServiceScope::User => f.user_manager,
        }) is Ok ==> is_removal(
            parts[i],
            scopes[i],
            if i == 0 {
                RemovalMode::Requested
            } else {
                RemovalMode::Swept
            },
            models[i],
        ),
        scopes_on(ScopeChoice::Auto, Os::Linux, true) == seq![ServiceScope::System, ServiceScope::User],
        scopes_on(ScopeChoice::Auto, Os::MacOs, false) == seq![ServiceScope::User, ServiceScope::System],
        scopes_on(ScopeChoice::Auto, Os::Windows, false) == seq![ServiceScope::System],
{
    assert(is_scope_pass(parts[i], scopes, f, i, models[i]));
}

} // verus!
