//! What stands between a request to install and a registration: the plan, and the guards it passes.
use vstd::prelude::*;

use crate::config::{cache_dir_env_value, host_override_refusal, host_refusal, Config};
use crate::error::{Error, ErrorKind, ErrorModel};
use crate::net::{endpoint_text, law_kinds_of_address_are_told_apart, loops_back, text_of, Ip};
use crate::service::backend::{variables, InstallPlan, PlanModel};
use crate::service::{
    ensure_privilege_for_scope, host_supports_user_scope, needs_root, resolve_scope, scope_for,
    ScopeChoice, ServiceScope, PRIVILEGE_REFUSAL, SERVICE_DISPLAY_NAME, SERVICE_LABEL,
};
use crate::state::acl::grantable_sid;
use crate::state::{
    interactive_read_grant, machine_candidates, machine_state_dirs, Os, RUN_CONTEXT_ENV,
    RUN_CONTEXT_SERVICE,
};
use crate::text;
use crate::tokens;

verus! {

// ---- the plan ----------------------------------------------------------------------------------

/// The command by which the operating system enters the program.
pub open spec fn entry_argument(os: Os) -> Seq<char> {
    if os == Os::Windows {
        "run-service"@
    } else {
        "run"@
    }
}

/// The variables that make the service resolve the configuration it was installed with. A host and a
/// cache directory are recorded only where they were named, so that the service follows the defaults
/// otherwise.
pub open spec fn baked(config: Config) -> Seq<(Seq<char>, Seq<char>)> {
    let always = seq![
        ("DIG_NODE_PORT"@, text::decimal(config.port as nat)),
        ("DIG_RPC_UPSTREAM"@, config.upstream@),
        (RUN_CONTEXT_ENV@, RUN_CONTEXT_SERVICE@),
    ];
    let host = match config.host {
        Some(h) => seq![("DIG_NODE_HOST"@, text_of(h))],
        None => Seq::empty(),
    };
    let cache = match config.cache_dir {
        Some(d) => seq![("DIG_NODE_CACHE"@, d@)],
        None => Seq::empty(),
    };
    always + host + cache
}

/// The plan by which `program` is registered.
pub open spec fn plan_for(config: Config, program: Seq<char>, os: Os) -> PlanModel {
    PlanModel {
        label: SERVICE_LABEL@,
        display_name: SERVICE_DISPLAY_NAME@,
        program,
        args: seq![entry_argument(os)],
        environment: baked(config),
        autostart: true,
    }
}

/// The plan by which `program` is registered.
pub fn build_plan(config: &Config, program: String, os: Os) -> (r: InstallPlan)
    ensures
        r@ == plan_for(*config, program@, os),
{
    let mut environment: Vec<(String, String)> = Vec::new();
    environment.push(("DIG_NODE_PORT".to_owned(), text::number(config.port as u64)));
    environment.push(("DIG_RPC_UPSTREAM".to_owned(), config.upstream.clone()));
    environment.push((RUN_CONTEXT_ENV.to_owned(), RUN_CONTEXT_SERVICE.to_owned()));
    if let Some(host) = &config.host {
        environment.push(("DIG_NODE_HOST".to_owned(), host.to_text()));
    }
    let cache = match &config.cache_dir {
        Some(d) => cache_dir_env_value(Some(d.as_str())),
        None => cache_dir_env_value(None),
    };
    if let Some(dir) = cache {
        environment.push(("DIG_NODE_CACHE".to_owned(), dir));
    }
    let mut args: Vec<String> = Vec::new();
    if os == Os::Windows {
        args.push("run-service".to_owned());
    } else {
        args.push("run".to_owned());
    }
    proof {
        assert(variables(environment@) =~= baked(*config));
        assert(text::views(args@) =~= seq![entry_argument(os)]);
    }
    InstallPlan {
        label: SERVICE_LABEL.to_owned(),
        display_name: SERVICE_DISPLAY_NAME.to_owned(),
        program,
        args,
        environment,
        autostart: true,
    }
}

// ---- the environment of a privileged unit ------------------------------------------------------

/// Whether `s` holds a character that ends or truncates a line of a unit file.
pub open spec fn breaks_a_line(s: Seq<char>) -> bool {
    s.contains('\n') || s.contains('\r') || s.contains('\0')
}

fn breaks_line(s: &str) -> (r: bool)
    ensures
        r == breaks_a_line(s@),
{
    text::contains_char(s, '\n') || text::contains_char(s, '\r') || text::contains_char(s, '\0')
}

/// Whether a variable cannot stand in one line of a unit file.
pub open spec fn unsafe_variable(v: (Seq<char>, Seq<char>)) -> bool {
    breaks_a_line(v.0) || breaks_a_line(v.1)
}

/// The first variable that cannot stand in one line of a unit file, where the scope is privileged.
pub open spec fn first_unsafe(environment: Seq<(Seq<char>, Seq<char>)>) -> Option<Seq<char>>
    decreases environment.len(),
{
    if environment.len() == 0 {
        None
    } else if unsafe_variable(environment[0]) {
        Some(environment[0].0)
    } else {
        first_unsafe(environment.skip(1))
    }
}

/// Why a variable is refused.
pub open spec fn variable_refusal(key: Seq<char>) -> ErrorModel {
    ErrorModel {
        kind: ErrorKind::InvalidInput,
        message: "dig-node: refusing to register a system-level (privileged) service whose baked environment variable \""@
            + key
            + "\" contains a control character (a newline, carriage return or NUL). Each variable is written verbatim as one line of a root-owned systemd unit file, so such a value could append arbitrary directives that run as root (#526). Fix the value in the environment or in config.json and re-run `dig-node install`."@,
    }
}

/// Refuse a variable that would end its line of a privileged unit file, in its name or in its value.
/// A per-user unit belongs to the user who set the values.
pub fn ensure_environment_is_unit_file_safe(
    environment: &Vec<(String, String)>,
    scope: ServiceScope,
) -> (r: Result<(), Error>)
    ensures
        r is Ok <==> (scope == ServiceScope::User || first_unsafe(variables(environment@)) is None),
        r matches Err(e) ==> e@ == variable_refusal(first_unsafe(variables(environment@))->0),
{
    if scope.is_user() {
        return Ok(());
    }
    let ghost all = variables(environment@);
    let mut i: usize = 0;
    proof {
        assert(all.skip(0) =~= all);
    }
    while i < environment.len()
        invariant
            i <= environment@.len(),
            all == variables(environment@),
            scope == ServiceScope::System,
            first_unsafe(all) == first_unsafe(all.skip(i as int)),
        decreases environment@.len() - i,
    {
        proof {
            let rest = all.skip(i as int);
            assert(rest[0] == (environment@[i as int].0@, environment@[i as int].1@));
            assert(rest.skip(1) =~= all.skip(i + 1));
        }
        if breaks_line(environment[i].0.as_str()) || breaks_line(environment[i].1.as_str()) {
            let mut m = "dig-node: refusing to register a system-level (privileged) service whose baked environment variable \"".to_owned();
            m.append(environment[i].0.as_str());
            m.append(
                "\" contains a control character (a newline, carriage return or NUL). Each variable is written verbatim as one line of a root-owned systemd unit file, so such a value could append arbitrary directives that run as root (#526). Fix the value in the environment or in config.json and re-run `dig-node install`.",
            );
            return Err(Error::new(ErrorKind::InvalidInput, m));
        }
        i += 1;
    }
    Ok(())
}

// ---- the program of a privileged service -------------------------------------------------------

/// The variable that switches the guard on the program off, for an install of an unreleased build.
pub const ALLOW_INSECURE_SERVICE_TARGET_ENV: &'static str = "DIG_NODE_ALLOW_INSECURE_SERVICE_TARGET";

/// Whether the variable's value says yes.
pub open spec fn says_yes(value: Option<Seq<char>>) -> bool {
    match value {
        Some(v) => {
            let t = text::trimmed(v);
            text::same_but_ascii_case(t, "1"@) || text::same_but_ascii_case(t, "true"@)
                || text::same_but_ascii_case(t, "yes"@)
        },
        None => false,
    }
}

/// Whether the variable's value says yes: `1`, `true` or `yes`, in any case. Anything else leaves
/// the guard on.
pub fn insecure_service_target_allowed(value: Option<&str>) -> (r: bool)
    ensures
        r == says_yes(text::opt_str_view(value)),
{
    match value {
        Some(v) => {
            let t = text::trim(v);
            text::eq_ignore_ascii_case(t.as_str(), "1") || text::eq_ignore_ascii_case(
                t.as_str(),
                "true",
            ) || text::eq_ignore_ascii_case(t.as_str(), "yes")
        },
        None => false,
    }
}

/// Whether the switch is in force. Root registering a machine-wide service cannot use it: a variable
/// is inherited, and that registration is the one the guard is for.
pub fn insecure_override_is_effective(env_set: bool, scope: ServiceScope, is_root: bool) -> (r: bool)
    ensures
        r == (env_set && !(scope == ServiceScope::System && is_root)),
{
    env_set && !(scope == ServiceScope::System && is_root)
}

/// Why a program must not be the target of a machine-wide service.
#[derive(Debug, PartialEq, Eq)]
pub enum TargetRefusal {
    /// A directory on the way to it belongs to no privileged account.
    Directory(String),
    /// The file itself belongs to none, or others may write to it.
    ProgramFile,
}

/// What the refusal says of the program file.
pub const PROGRAM_FILE_REFUSAL: &'static str = "the program file itself is not owned by root/SYSTEM, or \
grants write access beyond its owner (a non-privileged user could rewrite it in \
place, which the directory's permissions do not prevent)";

impl TargetRefusal {
    /// The clause that names what is wrong.
    pub open spec fn clause(self) -> Seq<char> {
        match self {
            TargetRefusal::Directory(level) => "the path level \""@ + level@
                + "\" is writable by a non-privileged user"@,
            TargetRefusal::ProgramFile => PROGRAM_FILE_REFUSAL@,
        }
    }

    /// The clause that names what is wrong.
    pub fn describe(&self) -> (r: String)
        ensures
            r@ == self.clause(),
    {
        match self {
            TargetRefusal::Directory(level) => {
                let mut out = "the path level \"".to_owned();
                out.append(level.as_str());
                out.append("\" is writable by a non-privileged user");
                out
            },
            TargetRefusal::ProgramFile => PROGRAM_FILE_REFUSAL.to_owned(),
        }
    }
}

/// Whether a program is refused, and why: its directories must be privileged, and so must the file.
/// The directory is named where both fail.
pub fn classify_system_target(
    unprivileged_dir_level: Option<&str>,
    program_file_privileged: bool,
) -> (r: Option<TargetRefusal>)
    ensures
        match text::opt_str_view(unprivileged_dir_level) {
            Some(level) => r matches Some(TargetRefusal::Directory(l)) && l@ == level,
            None => r == (if program_file_privileged {
                None
            } else {
                Some(TargetRefusal::ProgramFile)
            }),
        },
{
    match unprivileged_dir_level {
        Some(level) => Some(TargetRefusal::Directory(level.to_owned())),
        None => {
            if program_file_privileged {
                None
            } else {
                Some(TargetRefusal::ProgramFile)
            }
        },
    }
}

/// The clause that names what is wrong with a program, from what was found of it.
pub open spec fn target_clause(level: Option<Seq<char>>, file_privileged: bool) -> Option<Seq<char>> {
    match level {
        Some(l) => Some("the path level \""@ + l + "\" is writable by a non-privileged user"@),
        None => if file_privileged {
            None
        } else {
            Some(PROGRAM_FILE_REFUSAL@)
        },
    }
}

/// Why the program is refused.
pub open spec fn program_refusal(program: Seq<char>, clause: Seq<char>) -> ErrorModel {
    ErrorModel {
        kind: ErrorKind::PermissionDenied,
        message: "dig-node: refusing to register a system-level (privileged) service pointing at \""@
            + program + "\": "@ + clause
            + ". Registering it would let a non-privileged local user replace that binary and gain persistent SYSTEM/root code execution (a privilege-escalation vector, #565). Install dig-node into a protected, admin-owned location — via the DIG installer or a native OS package — and re-run `dig-node install` from there."@,
    }
}

/// What is said where the switch lets such a program through.
pub open spec fn program_warning(program: Seq<char>, clause: Seq<char>) -> Seq<char> {
    "dig-node: WARN "@ + ALLOW_INSECURE_SERVICE_TARGET_ENV@
        + " is set — registering a system-level service pointing at \""@ + program
        + "\", which is not privileged-owned ("@ + clause
        + "). This is a privilege-escalation risk (#565) and is intended ONLY for test/dev installs of an unreleased build."@
}

/// What the guard on the program answers: nothing to say, a warning, or a refusal.
pub open spec fn target_verdict(
    program: Seq<char>,
    scope: ServiceScope,
    level: Option<Seq<char>>,
    file_privileged: bool,
    allow_insecure_override: bool,
) -> Result<Option<Seq<char>>, ErrorModel> {
    match target_clause(level, file_privileged) {
        None => Ok(None),
        Some(clause) => if scope == ServiceScope::User {
            Ok(None)
        } else if allow_insecure_override {
            Ok(Some(program_warning(program, clause)))
        } else {
            Err(program_refusal(program, clause))
        },
    }
}

/// Refuse a machine-wide service whose program an ordinary account could replace. A per-user service
/// runs as the account that owns the program. Where the switch is in force the answer is a warning.
pub fn ensure_service_target_is_safe(
    program: &str,
    scope: ServiceScope,
    unprivileged_dir_level: Option<&str>,
    program_file_privileged: bool,
    allow_insecure_override: bool,
) -> (r: Result<Option<String>, Error>)
    ensures
        ({
            let verdict = target_verdict(
                program@,
                scope,
                text::opt_str_view(unprivileged_dir_level),
                program_file_privileged,
                allow_insecure_override,
            );
            match r {
                Ok(w) => verdict == Ok::<_, ErrorModel>(text::opt_view(w)),
                Err(e) => verdict == Err::<Option<Seq<char>>, _>(e@),
            }
        }),
{
    if scope.is_user() {
        return Ok(None);
    }
    let refusal = match classify_system_target(unprivileged_dir_level, program_file_privileged) {
        None => {
            return Ok(None);
        },
        Some(f) => f,
    };
    let clause = refusal.describe();
    if allow_insecure_override {
        let mut m = "dig-node: WARN ".to_owned();
        m.append(ALLOW_INSECURE_SERVICE_TARGET_ENV);
        m.append(" is set — registering a system-level service pointing at \"");
        m.append(program);
        m.append("\", which is not privileged-owned (");
        m.append(clause.as_str());
        m.append(
            "). This is a privilege-escalation risk (#565) and is intended ONLY for test/dev installs of an unreleased build.",
        );
        return Ok(Some(m));
    }
    let mut m = "dig-node: refusing to register a system-level (privileged) service pointing at \"".to_owned();
    m.append(program);
    m.append("\": ");
    m.append(clause.as_str());
    m.append(
        ". Registering it would let a non-privileged local user replace that binary and gain persistent SYSTEM/root code execution (a privilege-escalation vector, #565). Install dig-node into a protected, admin-owned location — via the DIG installer or a native OS package — and re-run `dig-node install` from there.",
    );
    Err(Error::new(ErrorKind::PermissionDenied, m))
}

// ---- the host ----------------------------------------------------------------------------------

/// Whether the configuration names a host that must not be bound.
pub open spec fn host_refused(config: Config) -> bool {
    config.host is Some && !loops_back(config.host->0) && !config.allow_remote
}

/// Refuse at install a host that the service would refuse at its first start.
pub fn ensure_install_host_allowed(config: &Config) -> (r: Result<(), Error>)
    ensures
        r is Err <==> host_refused(*config),
        r matches Err(e) ==> e@ == host_error(*config),
{
    match host_override_refusal(config.host, config.allow_remote) {
        Some(msg) => {
            let mut m = "dig-node: ".to_owned();
            m.append(msg.as_str());
            Err(Error::new(ErrorKind::InvalidInput, m))
        },
        None => Ok(()),
    }
}

/// What such a host is told.
pub open spec fn host_error(config: Config) -> ErrorModel {
    ErrorModel {
        kind: ErrorKind::InvalidInput,
        message: "dig-node: "@ + host_refusal(config.host->0),
    }
}

// ---- the install as a whole --------------------------------------------------------------------

/// What was found of the host before an install.
pub struct InstallFacts {
    /// The operating system.
    pub os: Os,
    /// Whether the caller is root.
    pub is_root: bool,
    /// Whether the console is elevated; always, where that is no question.
    pub is_elevated: bool,
    /// Whether the service manager could be had in the scope.
    pub manager: Result<(), Error>,
    /// Whether it could be had in the other scope.
    pub other_manager: bool,
    /// The path of the running program.
    pub program: Result<String, Error>,
    /// The first directory on the way to it that belongs to no privileged account.
    pub unprivileged_level: Option<String>,
    /// Whether the file itself is privileged.
    pub program_file_privileged: bool,
    /// The value of the switch on the program's guard.
    pub insecure_value: Option<String>,
    /// The value of the Windows variable that names the program-data directory.
    pub program_data: Option<String>,
    /// Who the caller is, in the words of the Windows tool that tells.
    pub whoami: Option<String>,
}

/// What an install is to do once its guards are passed.
pub struct InstallOrder {
    /// The scope to register in.
    pub scope: ServiceScope,
    /// The other scope, to be swept first, where there is one.
    pub other: Option<ServiceScope>,
    /// What to register.
    pub plan: InstallPlan,
    /// What to warn of.
    pub warning: Option<String>,
    /// The machine-wide state directory to secure first, where there is one.
    pub harden: Option<String>,
    /// Who is to keep reading it.
    pub read_grant: Option<String>,
    /// Whether the registrations of every account are swept.
    pub sweep_accounts: bool,
}

/// What an install on Windows is told without elevation.
pub const INSTALL_ELEVATION_REFUSAL: &'static str = "dig-node: installing a Windows service requires an elevated \
(Administrator) console. Re-run this in a terminal opened with \
\"Run as administrator\".";

/// What the guards answer, in their order: the host, the privilege, the elevation, the manager, the
/// program's path, the program, the environment. The first that refuses decides.
pub open spec fn gate_refusal(config: Config, choice: ScopeChoice, f: InstallFacts) -> Option<
    ErrorModel,
> {
    let both = f.os != Os::Windows;
    let scope = scope_for(choice, both, f.is_root);
    let verdict = target_verdict(
        f.program->Ok_0@,
        scope,
        text::opt_view(f.unprivileged_level),
        f.program_file_privileged,
        override_in_force(f, scope),
    );
    if host_refused(config) {
        Some(host_error(config))
    } else if needs_root(scope, both) && !f.is_root {
        Some(ErrorModel { kind: ErrorKind::PermissionDenied, message: PRIVILEGE_REFUSAL@ })
    } else if f.os == Os::Windows && !f.is_elevated {
        Some(ErrorModel { kind: ErrorKind::PermissionDenied, message: INSTALL_ELEVATION_REFUSAL@ })
    } else if f.manager is Err {
        Some(f.manager->Err_0@)
    } else if f.program is Err {
        Some(f.program->Err_0@)
    } else if verdict is Err {
        Some(verdict->Err_0)
    } else if scope == ServiceScope::System && first_unsafe(baked(config)) is Some {
        Some(variable_refusal(first_unsafe(baked(config))->0))
    } else {
        None
    }
}

/// Whether the switch on the program's guard is in force.
pub open spec fn override_in_force(f: InstallFacts, scope: ServiceScope) -> bool {
    says_yes(text::opt_view(f.insecure_value)) && !(scope == ServiceScope::System && f.is_root)
}

/// What an install is to do.
pub open spec fn is_order(
    config: Config,
    choice: ScopeChoice,
    f: InstallFacts,
    o: InstallOrder,
) -> bool {
    let both = f.os != Os::Windows;
    let scope = scope_for(choice, both, f.is_root);
    let program = f.program->Ok_0@;
    let dirs = machine_candidates(f.os, text::opt_view(f.program_data));
    &&& o.scope == scope
    &&& o.other == (if both && f.other_manager {
        Some(scope.opposite())
    } else {
        None
    })
    &&& o.plan@ == plan_for(config, program, f.os)
    &&& target_verdict(
        program,
        scope,
        text::opt_view(f.unprivileged_level),
        f.program_file_privileged,
        override_in_force(f, scope),
    ) == Ok::<_, ErrorModel>(text::opt_view(o.warning))
    &&& text::opt_view(o.harden) == (if dirs.len() > 0 {
        Some(dirs[0])
    } else {
        None
    })
    &&& text::opt_view(o.read_grant) == (if both {
        None
    } else {
        grantable_sid(text::opt_view(f.whoami))
    })
    &&& o.sweep_accounts == (scope == ServiceScope::System && both)
}

/// Pass the guards of an install, in their order and before anything is touched, and say what it is
/// to do.
pub fn plan_install(config: &Config, choice: ScopeChoice, facts: &InstallFacts) -> (r: Result<
    InstallOrder,
    Error,
>)
    ensures
        r is Err <==> gate_refusal(*config, choice, *facts) is Some,
        r matches Err(e) ==> gate_refusal(*config, choice, *facts) == Some(e@),
        r matches Ok(o) ==> is_order(*config, choice, *facts, o),
{
    ensure_install_host_allowed(config)?;
    let both = host_supports_user_scope(facts.os);
    let scope = resolve_scope(choice, both, facts.is_root);
    ensure_privilege_for_scope(scope, both, facts.is_root)?;
    if facts.os == Os::Windows && !facts.is_elevated {
        return Err(
            Error::new(ErrorKind::PermissionDenied, INSTALL_ELEVATION_REFUSAL.to_owned()),
        );
    }
    if let Err(e) = &facts.manager {
        return Err(e.clone());
    }
    let program = match &facts.program {
        Err(e) => {
            return Err(e.clone());
        },
        Ok(p) => p.clone(),
    };
    let env_set = match &facts.insecure_value {
        Some(v) => insecure_service_target_allowed(Some(v.as_str())),
        None => insecure_service_target_allowed(None),
    };
    let allow = insecure_override_is_effective(env_set, scope, facts.is_root);
    let level: Option<&str> = match &facts.unprivileged_level {
        Some(l) => Some(l.as_str()),
        None => None,
    };
    let warning = ensure_service_target_is_safe(
        program.as_str(),
        scope,
        level,
        facts.program_file_privileged,
        allow,
    )?;
    let plan = build_plan(config, program, facts.os);
    ensure_environment_is_unit_file_safe(&plan.environment, scope)?;
    let program_data: Option<&str> = match &facts.program_data {
        Some(d) => Some(d.as_str()),
        None => None,
    };
    let dirs = machine_state_dirs(facts.os, program_data);
    let harden = if dirs.len() > 0 {
        Some(dirs[0].clone())
    } else {
        None
    };
    let whoami: Option<&str> = match &facts.whoami {
        Some(w) => Some(w.as_str()),
        None => None,
    };
    let other = if both && facts.other_manager {
        Some(scope.other())
    } else {
        None
    };
    Ok(
        InstallOrder {
            scope,
            other,
            plan,
            warning,
            harden,
            read_grant: interactive_read_grant(facts.os, whoami),
            sweep_accounts: scope == ServiceScope::System && both,
        },
    )
}

// ---- laws --------------------------------------------------------------------------------------

/// **Law: no line is appended to a privileged unit.** Where an install passes its guards for the
/// machine-wide scope, no variable it bakes in holds a character that ends a line.
pub proof fn law_a_privileged_environment_stays_on_its_lines(
    config: Config,
    choice: ScopeChoice,
    f: InstallFacts,
    i: int,
)
    requires
        gate_refusal(config, choice, f) is None,
        scope_for(choice, f.os != Os::Windows, f.is_root) == ServiceScope::System,
        0 <= i < baked(config).len(),
    ensures
        !unsafe_variable(baked(config)[i]),
{
    lemma_first_unsafe(baked(config), i);
}

proof fn lemma_first_unsafe(environment: Seq<(Seq<char>, Seq<char>)>, i: int)
    requires
        first_unsafe(environment) is None,
        0 <= i < environment.len(),
    ensures
        !unsafe_variable(environment[i]),
    decreases environment.len(),
{
    if i > 0 {
        let rest = environment.skip(1);
        lemma_first_unsafe(rest, i - 1);
        assert(rest[i - 1] == environment[i]);
    }
}

/// **Law: root cannot switch the guard off.** A machine-wide registration by root passes only with a
/// privileged program in privileged directories, whatever the switch says.
pub proof fn law_the_switch_is_inert_for_root(config: Config, choice: ScopeChoice, f: InstallFacts)
    requires
        gate_refusal(config, choice, f) is None,
        f.is_root,
        scope_for(choice, f.os != Os::Windows, true) == ServiceScope::System,
    ensures
        f.unprivileged_level is None,
        f.program_file_privileged,
{
}

/// **Law: a machine-wide registration is never made without privilege.** Where both scopes exist,
/// passing the guards in the machine-wide scope means root; there is no fall-back to the other scope.
pub proof fn law_no_silent_downgrade(config: Config, choice: ScopeChoice, f: InstallFacts, o: InstallOrder)
    requires
        gate_refusal(config, choice, f) is None,
        is_order(config, choice, f, o),
        f.os != Os::Windows,
    ensures
        o.scope == ServiceScope::System ==> f.is_root,
        choice == ScopeChoice::System ==> o.scope == ServiceScope::System,
{
}

/// **Law: the service serves with the configuration it was installed with.** Read back, the plan's
/// variables give the port and the upstream of the configuration, a host and a cache directory exactly
/// where it names them, and that the program runs as a service. Each is there once, and nothing else is.
pub proof fn law_the_environment_reads_back(config: Config, program: Seq<char>, os: Os)
    ensures
        ({
            let env = plan_for(config, program, os).environment;
            &&& forall|i: int, j: int|
                0 <= i < j < env.len() ==> (#[trigger] env[i]).0 != (#[trigger] env[j]).0
            &&& forall|i: int|
                0 <= i < env.len() ==> {
                    ||| (#[trigger] env[i]).0 == "DIG_NODE_PORT"@ && tokens::numeral(env[i].1, 65535)
                        == Some(config.port as nat)
                    ||| env[i].0 == "DIG_RPC_UPSTREAM"@ && env[i].1 == config.upstream@
                    ||| env[i].0 == "DIG_NODE_RUN_CONTEXT"@ && env[i].1 == "service"@
                    ||| env[i].0 == "DIG_NODE_HOST"@ && (config.host matches Some(h) && env[i].1 == text_of(h))
                    ||| env[i].0 == "DIG_NODE_CACHE"@ && (config.cache_dir matches Some(d) && env[i].1 == d@)
                }
            &&& exists|i: int| 0 <= i < env.len() && (#[trigger] env[i]).0 == "DIG_NODE_PORT"@
            &&& exists|i: int| 0 <= i < env.len() && (#[trigger] env[i]).0 == "DIG_RPC_UPSTREAM"@
            &&& exists|i: int| 0 <= i < env.len() && (#[trigger] env[i]).0 == "DIG_NODE_RUN_CONTEXT"@
            &&& config.host is Some <==> exists|i: int|
                0 <= i < env.len() && (#[trigger] env[i]).0 == "DIG_NODE_HOST"@
            &&& config.cache_dir is Some <==> exists|i: int|
                0 <= i < env.len() && (#[trigger] env[i]).0 == "DIG_NODE_CACHE"@
        }),
{
    reveal_strlit("DIG_NODE_PORT");
    reveal_strlit("DIG_RPC_UPSTREAM");
    reveal_strlit("DIG_NODE_RUN_CONTEXT");
    reveal_strlit("DIG_NODE_HOST");
    reveal_strlit("DIG_NODE_CACHE");
    tokens::law_decimal_reads_back(config.port as nat);
    assert("DIG_NODE_PORT"@ != "DIG_NODE_HOST"@) by {
        assert("DIG_NODE_PORT"@[9] == 'P' && "DIG_NODE_HOST"@[9] == 'H');
    }
    let env = plan_for(config, program, os).environment;
    assert(env[0].0 == "DIG_NODE_PORT"@);
    assert(env[1].0 == "DIG_RPC_UPSTREAM"@);
    assert(env[2].0 == "DIG_NODE_RUN_CONTEXT"@);
    if config.host is Some {
        assert(env[3].0 == "DIG_NODE_HOST"@);
        if config.cache_dir is Some {
            assert(env[4].0 == "DIG_NODE_CACHE"@);
        }
    } else if config.cache_dir is Some {
        assert(env[3].0 == "DIG_NODE_CACHE"@);
    }
}

/// What stands under each name.
proof fn lemma_value_under(config: Config, program: Seq<char>, os: Os, i: int)
    requires
        0 <= i < plan_for(config, program, os).environment.len(),
    ensures
        ({
            let v = plan_for(config, program, os).environment[i];
            &&& v.0 == "DIG_NODE_PORT"@ ==> tokens::numeral(v.1, 65535) == Some(config.port as nat)
            &&& v.0 == "DIG_RPC_UPSTREAM"@ ==> v.1 == config.upstream@
            &&& v.0 == "DIG_NODE_HOST"@ ==> (config.host matches Some(h) && v.1 == text_of(h))
            &&& v.0 == "DIG_NODE_CACHE"@ ==> (config.cache_dir matches Some(d) && v.1 == d@)
        }),
{
    law_the_environment_reads_back(config, program, os);
    reveal_strlit("DIG_NODE_PORT");
    reveal_strlit("DIG_RPC_UPSTREAM");
    reveal_strlit("DIG_NODE_RUN_CONTEXT");
    reveal_strlit("DIG_NODE_HOST");
    reveal_strlit("DIG_NODE_CACHE");
    let v = plan_for(config, program, os).environment[i];
    assert("DIG_NODE_PORT"@[9] == 'P' && "DIG_NODE_HOST"@[9] == 'H');
    assert("DIG_NODE_PORT"@.len() == 13 && "DIG_RPC_UPSTREAM"@.len() == 16 && "DIG_NODE_RUN_CONTEXT"@.len()
        == 20 && "DIG_NODE_HOST"@.len() == 13 && "DIG_NODE_CACHE"@.len() == 14);
}

/// **Law: two configurations, two environments.** Configurations that differ in the port, the upstream or
/// the cache directory, or in the text of the host, are never installed with the same variables.
pub proof fn law_plans_tell_configurations_apart(a: Config, b: Config, program: Seq<char>, os: Os)
    requires
        plan_for(a, program, os).environment == plan_for(b, program, os).environment,
    ensures
        a.port == b.port,
        a.upstream@ == b.upstream@,
        text::opt_view(a.cache_dir) == text::opt_view(b.cache_dir),
        a.host is Some <==> b.host is Some,
        a.host is Some ==> text_of(a.host->0) == text_of(b.host->0),
{
    law_the_environment_reads_back(a, program, os);
    law_the_environment_reads_back(b, program, os);
    let env = plan_for(a, program, os).environment;
    let p = choose|i: int| 0 <= i < env.len() && (#[trigger] env[i]).0 == "DIG_NODE_PORT"@;
    let u = choose|i: int| 0 <= i < env.len() && (#[trigger] env[i]).0 == "DIG_RPC_UPSTREAM"@;
    lemma_value_under(a, program, os, p);
    lemma_value_under(b, program, os, p);
    lemma_value_under(a, program, os, u);
    lemma_value_under(b, program, os, u);
    if a.host is Some {
        let h = choose|i: int| 0 <= i < env.len() && (#[trigger] env[i]).0 == "DIG_NODE_HOST"@;
        lemma_value_under(a, program, os, h);
        lemma_value_under(b, program, os, h);
    }
    if a.cache_dir is Some {
        let c = choose|i: int| 0 <= i < env.len() && (#[trigger] env[i]).0 == "DIG_NODE_CACHE"@;
        lemma_value_under(a, program, os, c);
        lemma_value_under(b, program, os, c);
    }
}

/// **Law: the service binds what the report names.** A node that finds the plan's variables in its
/// environment, and takes its port and its host from them, serves on the address that the configuration
/// was reported with.
pub proof fn law_the_service_binds_the_reported_address(
    config: Config,
    started: Config,
    program: Seq<char>,
    os: Os,
)
    requires
        ({
            let env = plan_for(config, program, os).environment;
            &&& exists|i: int|
                0 <= i < env.len() && (#[trigger] env[i]).0 == "DIG_NODE_PORT"@ && tokens::numeral(
                    env[i].1,
                    65535,
                ) == Some(started.port as nat)
            &&& match started.host {
                Some(h) => exists|i: int|
                    0 <= i < env.len() && (#[trigger] env[i]).0 == "DIG_NODE_HOST"@ && env[i].1 == text_of(h),
                None => forall|i: int| 0 <= i < env.len() ==> (#[trigger] env[i]).0 != "DIG_NODE_HOST"@,
            }
        }),
    ensures
        endpoint_text(started.bound()) == endpoint_text(config.bound()),
        started.port == config.port,
{
    law_the_environment_reads_back(config, program, os);
    let env = plan_for(config, program, os).environment;
    let p = choose|i: int|
        0 <= i < env.len() && (#[trigger] env[i]).0 == "DIG_NODE_PORT"@ && tokens::numeral(env[i].1, 65535)
            == Some(started.port as nat);
    lemma_value_under(config, program, os, p);
    if let Some(h) = started.host {
        let k = choose|i: int|
            0 <= i < env.len() && (#[trigger] env[i]).0 == "DIG_NODE_HOST"@ && env[i].1 == text_of(h);
        lemma_value_under(config, program, os, k);
        let named = config.host->0;
        assert(text_of(h) == text_of(named));
        if let Ip::V4(a, b, c, d) = h {
            if let Ip::V6(g) = named {
                law_kinds_of_address_are_told_apart(a, b, c, d, g);
            }
        }
        if let Ip::V6(g) = h {
            if let Ip::V4(a, b, c, d) = named {
                law_kinds_of_address_are_told_apart(a, b, c, d, g);
            }
        }
    } else {
        if config.host is Some {
            let k = choose|i: int| 0 <= i < env.len() && (#[trigger] env[i]).0 == "DIG_NODE_HOST"@;
            assert(env[k].0 == "DIG_NODE_HOST"@);
        }
    }
}

/// **Law: the program that was named is the one that runs.** A plan runs that program, with one argument:
/// the command that serves, which on Windows is the one that answers the service controller. It starts
/// with the machine or the session, under the service's own label.
pub proof fn law_a_plan_runs_the_program(config: Config, program: Seq<char>, os: Os)
    ensures
        plan_for(config, program, os).program == program,
        plan_for(config, program, os).args.len() == 1,
        os == Os::Windows ==> plan_for(config, program, os).args[0] == "run-service"@,
        os != Os::Windows ==> plan_for(config, program, os).args[0] == "run"@,
        plan_for(config, program, os).autostart,
        plan_for(config, program, os).label == "net.dignetwork.dig-node"@,
        plan_for(config, program, os).display_name == "DIG NETWORK: NODE"@,
{
}

/// **Law: a plan is seen whole.** What is said of a plan is said of each of its parts.
pub proof fn law_a_plan_is_seen_whole(p: InstallPlan)
    ensures
        p@.label == p.label@,
        p@.display_name == p.display_name@,
        p@.program == p.program@,
        p@.autostart == p.autostart,
        p@.args.len() == p.args@.len(),
        forall|i: int| 0 <= i < p.args@.len() ==> #[trigger] p@.args[i] == p.args@[i]@,
        p@.environment.len() == p.environment@.len(),
        forall|i: int|
            0 <= i < p.environment@.len() ==> (#[trigger] p@.environment[i]).0 == p.environment@[i].0@
                && p@.environment[i].1 == p.environment@[i].1@,
{
}

/// **Law: a variable that would end its line is found.** The environment is refused exactly where a name
/// or a value holds a newline, a carriage return or a null character, and the first such variable is
/// the one that is named.
pub proof fn law_a_line_break_in_a_variable_is_found(environment: Seq<(Seq<char>, Seq<char>)>)
    ensures
        first_unsafe(environment) is Some <==> exists|i: int|
            0 <= i < environment.len() && ((#[trigger] environment[i]).0.contains('\n')
                || environment[i].0.contains('\r') || environment[i].0.contains('\0')
                || environment[i].1.contains('\n') || environment[i].1.contains('\r')
                || environment[i].1.contains('\0')),
        first_unsafe(environment) matches Some(key) ==> exists|i: int|
            0 <= i < environment.len() && (#[trigger] environment[i]).0 == key && unsafe_variable(
                environment[i],
            ) && forall|j: int| 0 <= j < i ==> !unsafe_variable(#[trigger] environment[j]),
    decreases environment.len(),
{
    if environment.len() > 0 {
        let rest = environment.skip(1);
        law_a_line_break_in_a_variable_is_found(rest);
        if !unsafe_variable(environment[0]) {
            if first_unsafe(rest) is Some {
                let key = first_unsafe(rest)->0;
                let i = choose|i: int|
                    0 <= i < rest.len() && (#[trigger] rest[i]).0 == key && unsafe_variable(rest[i])
                        && forall|j: int| 0 <= j < i ==> !unsafe_variable(#[trigger] rest[j]);
                assert(environment[i + 1] == rest[i]);
                assert forall|j: int| 0 <= j < i + 1 implies !unsafe_variable(#[trigger] environment[j]) by {
                    if j > 0 {
                        assert(rest[j - 1] == environment[j]);
                    }
                }
            }
            if exists|i: int| 0 <= i < environment.len() && unsafe_variable(#[trigger] environment[i]) {
                let i = choose|i: int| 0 <= i < environment.len() && unsafe_variable(#[trigger] environment[i]);
                assert(rest[i - 1] == environment[i]);
            } else {
                assert forall|i: int| 0 <= i < environment.len() implies !unsafe_variable(
                    #[trigger] environment[i],
                ) by {}
            }
        } else {
            assert(environment[0].0 == first_unsafe(environment)->0);
        }
    }
}

/// **Law: only a clear yes switches the guard off.** The value, in small letters and without the white
/// space around it, is `1`, `true` or `yes`; any other, and no value, leaves the guard on.
pub proof fn law_only_a_clear_yes_is_one(v: Seq<char>)
    ensures
        !says_yes(None),
        says_yes(Some(v)) <==> ({
            let t = tokens::lowered(text::trimmed(v));
            t == "1"@ || t == "true"@ || t == "yes"@
        }),
{
    reveal_strlit("1");
    reveal_strlit("true");
    reveal_strlit("yes");
    let t = text::trimmed(v);
    tokens::law_lowering_changes_capitals_alone(t, "1"@);
    tokens::law_lowering_changes_capitals_alone(t, "true"@);
    tokens::law_lowering_changes_capitals_alone(t, "yes"@);
    assert(tokens::lowered("1"@) =~= "1"@);
    assert(tokens::lowered("true"@) =~= "true"@);
    assert(tokens::lowered("yes"@) =~= "yes"@);
}

/// **Law: whom the guard on the program lets through.** A per-user service passes without a word, and so
/// does a privileged file in privileged directories; any other machine-wide one is refused for want of
/// permission, unless the switch is in force: then it passes with a warning. What is said names the
/// program, and the directory where one is at fault.
pub proof fn law_an_unprivileged_program_is_refused(
    program: Seq<char>,
    level: Option<Seq<char>>,
    file_privileged: bool,
    allow: bool,
)
    ensures
        target_verdict(program, ServiceScope::User, level, file_privileged, allow) == Ok::<_, ErrorModel>(
            None::<Seq<char>>,
        ),
        target_verdict(program, ServiceScope::System, None, true, allow) == Ok::<_, ErrorModel>(
            None::<Seq<char>>,
        ),
        level is Some || !file_privileged ==> {
            let refused = target_verdict(program, ServiceScope::System, level, file_privileged, false);
            let warned = target_verdict(program, ServiceScope::System, level, file_privileged, true);
            &&& refused matches Err(e) && e.kind == ErrorKind::PermissionDenied && text::has(e.message, program)
            &&& refused matches Err(e) && (level matches Some(l) ==> text::has(e.message, l))
            &&& warned matches Ok(Some(w)) && text::has(w, program) && (level matches Some(l) ==> text::has(w, l))
        },
{
    if level is Some || !file_privileged {
        let clause = target_clause(level, file_privileged)->0;
        let refused = target_verdict(program, ServiceScope::System, level, file_privileged, false);
        let warned = target_verdict(program, ServiceScope::System, level, file_privileged, true);
        let a = "dig-node: refusing to register a system-level (privileged) service pointing at \""@;
        let tail = ". Registering it would let a non-privileged local user replace that binary and gain persistent SYSTEM/root code execution (a privilege-escalation vector, #565). Install dig-node into a protected, admin-owned location — via the DIG installer or a native OS package — and re-run `dig-node install` from there."@;
        let m = refused->Err_0.message;
        text::law_parts_are_found(a, program, "\": "@ + clause + tail);
        assert(m =~= a + program + ("\": "@ + clause + tail));
        let b = "dig-node: WARN "@ + ALLOW_INSECURE_SERVICE_TARGET_ENV@
            + " is set — registering a system-level service pointing at \""@;
        let end = "). This is a privilege-escalation risk (#565) and is intended ONLY for test/dev installs of an unreleased build."@;
        let w = warned->Ok_0->0;
        text::law_parts_are_found(b, program, "\", which is not privileged-owned ("@ + clause + end);
        assert(w =~= b + program + ("\", which is not privileged-owned ("@ + clause + end));
        if let Some(l) = level {
            let c = "the path level \""@;
            let d = "\" is writable by a non-privileged user"@;
            text::law_parts_are_found(a + program + "\": "@ + c, l, d + tail);
            assert(m =~= a + program + "\": "@ + c + l + (d + tail));
            text::law_parts_are_found(b + program + "\", which is not privileged-owned ("@ + c, l, d + end);
            assert(w =~= b + program + "\", which is not privileged-owned ("@ + c + l + (d + end));
        }
    }
}

/// **Law: which installs pass.** One passes its guards exactly where its host is the machine itself or
/// was allowed, its scope is one the caller may register in, the manager and the program's path could be
/// had, a machine-wide program is privileged or the switch is in force, and no variable of a machine-wide
/// one would end its line. The first guard that does not hold gives the error.
pub proof fn law_which_installs_pass(config: Config, choice: ScopeChoice, f: InstallFacts)
    ensures
        ({
            let system = f.os == Os::Windows || choice == ScopeChoice::System || (choice == ScopeChoice::Auto
                && f.is_root);
            let sound = f.unprivileged_level is None && f.program_file_privileged;
            let yes = says_yes(text::opt_view(f.insecure_value)) && !f.is_root;
            gate_refusal(config, choice, f) is None <==> {
                &&& config.host is None || loops_back(config.host->0) || config.allow_remote
                &&& f.os != Os::Windows && system ==> f.is_root
                &&& f.os == Os::Windows ==> f.is_elevated
                &&& f.manager is Ok
                &&& f.program is Ok
                &&& system ==> sound || yes
                &&& system ==> first_unsafe(plan_for(config, Seq::empty(), f.os).environment) is None
            }
        }),
        config.host is Some && !loops_back(config.host->0) && !config.allow_remote ==> (gate_refusal(
            config,
            choice,
            f,
        ) matches Some(e) && e.kind == ErrorKind::InvalidInput),
        f.manager is Ok && f.program is Ok ==> (gate_refusal(config, choice, f) matches Some(e) ==> e.kind
            == ErrorKind::InvalidInput || e.kind == ErrorKind::PermissionDenied),
{
}

/// **Law: what an install is to do.** It registers in the scope the choice means; it clears the other
/// scope where there is one and its manager could be had; it sweeps the accounts where a machine-wide
/// service is registered beside per-user ones; and it secures the first machine-wide state directory.
pub proof fn law_what_an_install_is_to_do(
    config: Config,
    choice: ScopeChoice,
    f: InstallFacts,
    o: InstallOrder,
)
    requires
        is_order(config, choice, f, o),
    ensures
        o.scope == ServiceScope::System <==> f.os == Os::Windows || choice == ScopeChoice::System || (choice
            == ScopeChoice::Auto && f.is_root),
        o.other is Some <==> f.os != Os::Windows && f.other_manager,
        o.other matches Some(s) ==> s != o.scope,
        o.sweep_accounts <==> f.os != Os::Windows && o.scope == ServiceScope::System,
        o.plan@.program == f.program->Ok_0@,
        o.plan@.environment == plan_for(config, Seq::empty(), f.os).environment,
        f.os != Os::Windows ==> o.read_grant is None,
        o.harden is Some <==> machine_candidates(f.os, text::opt_view(f.program_data)).len() > 0,
        o.harden matches Some(d) ==> d@ == machine_candidates(f.os, text::opt_view(f.program_data))[0],
        o.scope == ServiceScope::User ==> o.warning is None,
{
}

/// **Law: a refused install says what is wrong.** Each refusal has its class, and names the program and the
/// level of its path, the variable, or the host.
pub proof fn law_a_refused_install_says_what_is_wrong(
    program: Seq<char>,
    clause: Seq<char>,
    key: Seq<char>,
    level: Seq<char>,
    l: String,
    config: Config,
)
    requires
        config.host is Some,
    ensures
        program_refusal(program, clause).kind == ErrorKind::PermissionDenied,
        text::has(program_refusal(program, clause).message, program),
        text::has(program_refusal(program, clause).message, "\": "@ + clause),
        text::has(program_warning(program, clause), program),
        text::has(program_warning(program, clause), clause),
        variable_refusal(key).kind == ErrorKind::InvalidInput,
        text::has(variable_refusal(key).message, key),
        host_error(config).kind == ErrorKind::InvalidInput,
        text::has(host_error(config).message, host_refusal(config.host->0)),
        target_clause(None, true) is None,
        target_clause(None, false) == Some(PROGRAM_FILE_REFUSAL@),
        target_clause(Some(level), true) == target_clause(Some(level), false),
        target_clause(Some(level), true) matches Some(t) && text::has(t, level),
        TargetRefusal::ProgramFile.clause() == PROGRAM_FILE_REFUSAL@,
        TargetRefusal::Directory(l).clause() == target_clause(Some(l@), true)->0,
{
    lemma_program_is_named(program, clause);
    let a = "dig-node: refusing to register a system-level (privileged) service whose baked environment variable \""@;
    let z = "\" contains a control character (a newline, carriage return or NUL). Each variable is written verbatim as one line of a root-owned systemd unit file, so such a value could append arbitrary directives that run as root (#526). Fix the value in the environment or in config.json and re-run `dig-node install`."@;
    text::law_parts_are_found(a, key, z);
    let h = host_refusal(config.host->0);
    text::law_a_longer_text_holds_its_parts("dig-node: "@, h, h);
    text::law_parts_are_found("the path level \""@, level, "\" is writable by a non-privileged user"@);
}

proof fn lemma_program_is_named(program: Seq<char>, clause: Seq<char>)
    ensures
        text::has(program_refusal(program, clause).message, program),
        text::has(program_refusal(program, clause).message, "\": "@ + clause),
        text::has(program_warning(program, clause), program),
        text::has(program_warning(program, clause), clause),
{
    let l = program_refusal(program, clause).message;
    let a = "dig-node: refusing to register a system-level (privileged) service pointing at \""@;
    let z = ". Registering it would let a non-privileged local user replace that binary and gain persistent SYSTEM/root code execution (a privilege-escalation vector, #565). Install dig-node into a protected, admin-owned location — via the DIG installer or a native OS package — and re-run `dig-node install` from there."@;
    text::lemma_begins_with_itself(l);
    text::law_a_text_holds_its_beginning(l, a + program + "\": "@ + clause, z);
    text::law_neighbours_stay_together(l, a + program, "\": "@, clause);
    text::law_a_text_holds_its_beginning(l, a, program);
    let w = program_warning(program, clause);
    let b = "dig-node: WARN "@ + ALLOW_INSECURE_SERVICE_TARGET_ENV@
        + " is set — registering a system-level service pointing at \""@;
    let c = "\", which is not privileged-owned ("@;
    text::lemma_begins_with_itself(w);
    text::law_a_text_holds_its_beginning(
        w,
        b + program + c + clause,
        "). This is a privilege-escalation risk (#565) and is intended ONLY for test/dev installs of an unreleased build."@,
    );
    text::law_a_text_holds_its_beginning(w, b + program + c, clause);
    text::law_a_text_holds_its_beginning(w, b + program, c);
    text::law_a_text_holds_its_beginning(w, b, program);
}

} // verus!
