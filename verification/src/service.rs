//! The node as an OS service: its identity, the scope a registration lives in, and the commands by
//! which the operating system is asked about it.
//!
//! A registration lives in one of two scopes, machine-wide or per-user, and every verb says which.
//! `backend` holds the clean reinstall and the removal, `target` the guards before a privileged
//! registration, `install` the order of an install's steps, `verbs` what each verb decides and
//! reports, and `report` the report as JSON.
use vstd::prelude::*;

use crate::error::{Error, ErrorKind};
use crate::oracle::{all_no, askable, first_yes, may_say};
use crate::paths::{inside_for, inside_windows, join_for, join_windows};
use crate::state::Os;
use crate::text;

pub mod backend;
pub mod install;
pub mod report;
pub mod target;
pub mod verbs;

pub use self::backend::{
    install_at_scope, reinstall, remove_registration, remove_registrations, InstallPlan,
    ReinstallReport, RemovalMode, ScopeRemoval, ServiceBackend,
};
pub use self::target::{
    build_plan, classify_system_target, ensure_environment_is_unit_file_safe,
    ensure_install_host_allowed, ensure_service_target_is_safe, insecure_override_is_effective,
    insecure_service_target_allowed, TargetRefusal, ALLOW_INSECURE_SERVICE_TARGET_ENV,
};
pub use self::verbs::{
    is_2xx_status_line, is_already_running_error, start, start_outcome, status, stop, uninstall,
    uninstall_outcome,
};


verus! {

/// The reverse-DNS name the service is registered under.
pub const SERVICE_LABEL: &'static str = "net.dignetwork.dig-node";

/// The name a person sees in the Windows Services console.
pub const SERVICE_DISPLAY_NAME: &'static str = "DIG NETWORK: NODE";

// ---- scope -------------------------------------------------------------------------------------

/// Where a registration lives.
#[derive(Debug, Clone, Copy, PartialEq, Eq, Structural)]
pub enum ServiceScope {
    /// Machine-wide: started at boot, with no login session; registering it takes privilege.
    System,
    /// Per user: started with that user's session; registering it takes no privilege.
    User,
}

/// What the operator asked for.
#[derive(Debug, Clone, Copy, PartialEq, Eq, Structural)]
pub enum ScopeChoice {
    /// Let the host decide.
    Auto,
    /// Machine-wide.
    System,
    /// Per user, where the operating system has such a scope.
    User,
}

impl Default for ScopeChoice {
    fn default() -> (r: Self)
        ensures
            r == ScopeChoice::Auto,
    {
        ScopeChoice::Auto
    }
}

impl ServiceScope {
    /// The spelling of the scope.
    pub open spec fn name(self) -> Seq<char> {
        match self {
            ServiceScope::System => "system"@,
            ServiceScope::User => "user"@,
        }
    }

    /// The scope that this one is not.
    pub open spec fn opposite(self) -> ServiceScope {
        match self {
            ServiceScope::System => ServiceScope::User,
            ServiceScope::User => ServiceScope::System,
        }
    }

    /// Whether this is the per-user scope.
    pub fn is_user(self) -> (r: bool)
        ensures
            r == (self == ServiceScope::User),
    {
        self == ServiceScope::User
    }

    /// The spelling of the scope.
    pub fn as_str(self) -> (r: &'static str)
        ensures
            r@ == self.name(),
    {
        match self {
            ServiceScope::System => "system",
            ServiceScope::User => "user",
        }
    }

    /// The other scope, in which a registration of an earlier install may hide.
    pub fn other(self) -> (r: Self)
        ensures
            r == self.opposite(),
    {
        match self {
            ServiceScope::System => ServiceScope::User,
            ServiceScope::User => ServiceScope::System,
        }
    }
}

/// The scope that a choice means on a host.
pub open spec fn scope_for(choice: ScopeChoice, os_supports_user: bool, is_root: bool) -> ServiceScope {
    if !os_supports_user {
        ServiceScope::System
    } else {
        match choice {
            ScopeChoice::System => ServiceScope::System,
            ScopeChoice::User => ServiceScope::User,
            ScopeChoice::Auto => if is_root {
                ServiceScope::System
            } else {
                ServiceScope::User
            },
        }
    }
}

/// The scope that a choice means on a host: the only one where the operating system has no per-user
/// services, else the one that was named, else by privilege.
pub fn resolve_scope(choice: ScopeChoice, os_supports_user: bool, is_root: bool) -> (r: ServiceScope)
    ensures
        r == scope_for(choice, os_supports_user, is_root),
{
    if !os_supports_user {
        return ServiceScope::System;
    }
    match choice {
        ScopeChoice::System => ServiceScope::System,
        ScopeChoice::User => ServiceScope::User,
        ScopeChoice::Auto => {
            if is_root {
                ServiceScope::System
            } else {
                ServiceScope::User
            }
        },
    }
}

/// The scopes an uninstall goes through, in order.
pub open spec fn scopes_to_remove(
    choice: ScopeChoice,
    os_supports_user: bool,
    is_root: bool,
) -> Seq<ServiceScope> {
    let requested = scope_for(choice, os_supports_user, is_root);
    if !os_supports_user || choice != ScopeChoice::Auto {
        seq![requested]
    } else {
        seq![requested, requested.opposite()]
    }
}

/// The scopes an uninstall goes through, in order: the one that was named, or under `Auto` both, the
/// resolved one first.
pub fn uninstall_scopes(choice: ScopeChoice, os_supports_user: bool, is_root: bool) -> (r: Vec<
    ServiceScope,
>)
    ensures
        r@ == scopes_to_remove(choice, os_supports_user, is_root),
{
    let requested = resolve_scope(choice, os_supports_user, is_root);
    let mut out: Vec<ServiceScope> = Vec::new();
    out.push(requested);
    if os_supports_user && choice == ScopeChoice::Auto {
        out.push(requested.other());
    }
    proof {
        assert(out@ =~= scopes_to_remove(choice, os_supports_user, is_root));
    }
    out
}

/// Whether the operating system has per-user services at all.
pub fn host_supports_user_scope(os: Os) -> (r: bool)
    ensures
        r == (os != Os::Windows),
{
    os != Os::Windows
}

/// What an unprivileged request for a machine-wide registration is told.
pub const PRIVILEGE_REFUSAL: &'static str = "dig-node: registering a system-level (machine-wide, boot-started) service requires \
root. Re-run with `sudo dig-node install --scope system`, or install at user scope \
(`--scope user`) — noting that a user-scope service only starts with your login \
session and so may not come back after a reboot on a headless host.";

/// Whether a registration in `scope` is one that only root can make.
pub open spec fn needs_root(scope: ServiceScope, os_supports_user: bool) -> bool {
    os_supports_user && scope == ServiceScope::System
}

/// Refuse a machine-wide registration that the caller cannot make, in place of falling back to the
/// per-user scope. Windows has its own guard.
pub fn ensure_privilege_for_scope(scope: ServiceScope, os_supports_user: bool, is_root: bool) -> (r:
    Result<(), Error>)
    ensures
        r is Ok <==> (needs_root(scope, os_supports_user) ==> is_root),
        r matches Err(e) ==> e.kind == ErrorKind::PermissionDenied && e.message@
            == PRIVILEGE_REFUSAL@,
{
    if !os_supports_user || scope.is_user() || is_root {
        return Ok(());
    }
    Err(Error::new(ErrorKind::PermissionDenied, PRIVILEGE_REFUSAL.to_owned()))
}

// ---- the tools of the operating system ---------------------------------------------------------

/// The directories a Unix tool may be run from.
pub open spec fn unix_tool_dirs() -> Seq<Seq<char>> {
    seq!["/usr/sbin"@, "/usr/bin"@, "/sbin"@, "/bin"@]
}

/// The directories a Windows tool may be run from.
pub open spec fn windows_tool_dirs(system_root: Seq<char>) -> Seq<Seq<char>> {
    seq![inside_windows(system_root, "System32"@), system_root]
}

/// The directories a Unix tool may be run from: privileged ones that the distribution owns. One that
/// an ordinary account can write to, such as `/usr/local/bin`, is not among them.
pub fn unix_os_tool_dirs() -> (r: Vec<String>)
    ensures
        text::views(r@) == unix_tool_dirs(),
{
    let mut out: Vec<String> = Vec::new();
    out.push("/usr/sbin".to_owned());
    out.push("/usr/bin".to_owned());
    out.push("/sbin".to_owned());
    out.push("/bin".to_owned());
    proof {
        assert(text::views(out@) =~= unix_tool_dirs());
    }
    out
}

/// The directories a Windows tool may be run from: the system directory and what it holds.
pub fn windows_os_tool_dirs(system_root: &str) -> (r: Vec<String>)
    ensures
        text::views(r@) == windows_tool_dirs(system_root@),
{
    let mut out: Vec<String> = Vec::new();
    out.push(join_windows(system_root, "System32"));
    out.push(system_root.to_owned());
    proof {
        assert(text::views(out@) =~= windows_tool_dirs(system_root@));
    }
    out
}

/// The directories a tool may be run from on a host.
pub open spec fn tool_dirs(os: Os, system_root: Option<Seq<char>>) -> Seq<Seq<char>> {
    if os == Os::Windows {
        windows_tool_dirs(
            match system_root {
                Some(r) => r,
                None => "C:\\Windows"@,
            },
        )
    } else {
        unix_tool_dirs()
    }
}

/// The directories a tool may be run from on a host; `system_root` is the value of the Windows
/// variable of that name.
pub fn os_tool_dirs(os: Os, system_root: Option<&str>) -> (r: Vec<String>)
    ensures
        text::views(r@) == tool_dirs(os, text::opt_str_view(system_root)),
{
    if os == Os::Windows {
        match system_root {
            Some(r) => windows_os_tool_dirs(r),
            None => windows_os_tool_dirs("C:\\Windows"),
        }
    } else {
        unix_os_tool_dirs()
    }
}

/// Where a tool is looked for, in order.
pub open spec fn tool_places(os: Os, dirs: Seq<Seq<char>>, program: Seq<char>) -> Seq<Seq<char>> {
    dirs.map_values(|d: Seq<char>| inside_for(os, d, program))
}

/// A tool to run: its absolute path, and the only directories its own children may be found in.
#[derive(Debug)]
pub struct OsTool {
    pub path: String,
    pub search: Vec<String>,
}

/// The tool `program`, from the first of the privileged directories that holds it. One that none of
/// them holds is not run at all.
pub fn os_tool<F: Fn(&str) -> bool>(
    os: Os,
    system_root: Option<&str>,
    program: &str,
    is_file: F,
) -> (r: Option<OsTool>)
    requires
        askable(is_file, tool_places(os, tool_dirs(os, text::opt_str_view(system_root)), program@)),
    ensures
        ({
            let dirs = tool_dirs(os, text::opt_str_view(system_root));
            let places = tool_places(os, dirs, program@);
            match r {
                Some(t) => text::views(t.search@) == dirs && exists|k: int|
                    #[trigger] first_yes(is_file, places, k) && t.path@ == places[k],
                None => all_no(is_file, places),
            }
        }),
{
    let dirs = os_tool_dirs(os, system_root);
    let ghost places = tool_places(os, text::views(dirs@), program@);
    let mut i: usize = 0;
    while i < dirs.len()
        invariant
            i <= dirs@.len(),
            text::views(dirs@) == tool_dirs(os, text::opt_str_view(system_root)),
            places == tool_places(os, text::views(dirs@), program@),
            askable(is_file, places),
            forall|j: int| 0 <= j < i ==> #[trigger] may_say(is_file, places[j], false),
        decreases dirs@.len() - i,
    {
        let path = join_for(os, dirs[i].as_str(), program);
        proof {
            assert(places[i as int] == path@);
            assert(all_no(is_file, places.take(i as int)));
        }
        let found = is_file(path.as_str());
        proof {
            assert(may_say(is_file, places[i as int], found));
        }
        if found {
            proof {
                assert(first_yes(is_file, places, i as int));
            }
            return Some(OsTool { path, search: dirs });
        }
        i += 1;
    }
    None
}

/// The tool by which the operating system is asked about services.
pub open spec fn manager_tool(os: Os) -> Seq<char> {
    match os {
        Os::Windows => "sc.exe"@,
        Os::MacOs => "launchctl"@,
        Os::Linux => "systemctl"@,
    }
}

/// The tool by which the operating system is asked about services.
pub fn service_tool(os: Os) -> (r: &'static str)
    ensures
        r@ == manager_tool(os),
{
    match os {
        Os::Windows => "sc.exe",
        Os::MacOs => "launchctl",
        Os::Linux => "systemctl",
    }
}

/// What is said where that tool is in none of the privileged directories.
pub fn missing_tool(os: Os) -> (r: Error)
    ensures
        r.kind == ErrorKind::NotFound,
        r.message@ == "dig-node: "@ + manager_tool(os)
            + " was not found in a privileged system directory; refusing to run it from an unverified location"@,
{
    let mut m = "dig-node: ".to_owned();
    m.append(service_tool(os));
    m.append(
        " was not found in a privileged system directory; refusing to run it from an unverified location",
    );
    Error::new(ErrorKind::NotFound, m)
}

// ---- the service's names -----------------------------------------------------------------------

/// A service label in its parts.
#[derive(Debug)]
pub struct Label {
    pub qualifier: Option<String>,
    pub organization: Option<String>,
    pub application: String,
}

/// The qualifier of the label whose dot-separated pieces are `p`.
pub open spec fn qualifier_in(p: Seq<Seq<char>>) -> Option<Seq<char>> {
    if p.len() >= 3 {
        Some(p[0])
    } else {
        None
    }
}

/// The organization of the label whose dot-separated pieces are `p`.
pub open spec fn organization_in(p: Seq<Seq<char>>) -> Option<Seq<char>> {
    if p.len() >= 3 {
        Some(p[1])
    } else if p.len() == 2 {
        Some(p[0])
    } else {
        None
    }
}

/// The application of the label whose dot-separated pieces are `p`.
pub open spec fn application_in(p: Seq<Seq<char>>) -> Seq<char> {
    if p.len() >= 3 {
        text::joined(p.skip(2), "."@)
    } else {
        p.last()
    }
}

/// A part of a label with the character that separates it from the next, or nothing.
pub open spec fn led_by(part: Option<Seq<char>>, sep: Seq<char>) -> Seq<char> {
    match part {
        Some(p) => p + sep,
        None => Seq::empty(),
    }
}

impl Label {
    /// The label written out, its parts between dots.
    pub open spec fn qualified(self) -> Seq<char> {
        led_by(text::opt_view(self.qualifier), "."@) + led_by(
            text::opt_view(self.organization),
            "."@,
        ) + self.application@
    }

    /// Organization and application, with a hyphen between them.
    pub open spec fn script(self) -> Seq<char> {
        led_by(text::opt_view(self.organization), "-"@) + self.application@
    }
}

/// `service_manager::ServiceLabel::from_str`: a label is split at its dots. One piece is the
/// application, two are organization and application, three or more are qualifier, organization and
/// the rest, joined again by dots. No text is refused.
#[verifier::external_body]
fn parsed_label(s: &str) -> (r: Result<Label, String>)
    ensures
        r is Ok,
        r matches Ok(l) ==> text::opt_view(l.qualifier) == qualifier_in(text::pieces(s@, "."@))
            && text::opt_view(l.organization) == organization_in(text::pieces(s@, "."@))
            && l.application@ == application_in(text::pieces(s@, "."@)),
{
    match <service_manager::ServiceLabel as std::str::FromStr>::from_str(s) {
        Ok(l) => Ok(
            Label {
                qualifier: l.qualifier,
                organization: l.organization,
                application: l.application,
            },
        ),
        Err(e) => Err(e.to_string()),
    }
}

/// `service_manager::ServiceLabel::to_qualified_name`: the qualifier and the organization, each with
/// a dot behind it where there is one, and the application.
#[verifier::external_body]
fn qualified_name(l: &Label) -> (r: String)
    ensures
        r@ == l.qualified(),
{
    let label = service_manager::ServiceLabel {
        qualifier: l.qualifier.clone(),
        organization: l.organization.clone(),
        application: l.application.clone(),
    };
    label.to_qualified_name()
}

/// `service_manager::ServiceLabel::to_script_name`: the organization with a hyphen behind it where
/// there is one, and the application.
#[verifier::external_body]
fn script_name(l: &Label) -> (r: String)
    ensures
        r@ == l.script(),
{
    let label = service_manager::ServiceLabel {
        qualifier: l.qualifier.clone(),
        organization: l.organization.clone(),
        application: l.application.clone(),
    };
    label.to_script_name()
}

/// The service's label in its parts.
pub fn label() -> (r: Result<Label, Error>)
    ensures
        r is Ok,
        r matches Ok(l) ==> text::opt_view(l.qualifier) == qualifier_in(
            text::pieces(SERVICE_LABEL@, "."@),
        ) && text::opt_view(l.organization) == organization_in(text::pieces(SERVICE_LABEL@, "."@))
            && l.application@ == application_in(text::pieces(SERVICE_LABEL@, "."@)),
{
    match parsed_label(SERVICE_LABEL) {
        Ok(l) => Ok(l),
        Err(e) => Err(Error::new(ErrorKind::InvalidInput, e)),
    }
}

/// The name under which the operating system's manager registers a label.
pub open spec fn native_name(l: Label, os: Os) -> Seq<char> {
    if os == Os::Linux {
        l.script()
    } else {
        l.qualified()
    }
}

/// The name under which the operating system's manager registers a label: systemd drops the
/// qualifier, the others keep the label as it is written.
pub fn os_native_service_name(l: &Label, os: Os) -> (r: String)
    ensures
        r@ == native_name(*l, os),
{
    if os == Os::Linux {
        script_name(l)
    } else {
        qualified_name(l)
    }
}

/// The domain target that launchd is asked about.
pub open spec fn domain_target(name: Seq<char>, scope: ServiceScope, uid: nat) -> Seq<char> {
    match scope {
        ServiceScope::User => "gui/"@ + text::decimal(uid) + "/"@ + name,
        ServiceScope::System => "system/"@ + name,
    }
}

/// The domain target that launchd is asked about: the user's own, or the machine's.
pub fn launchd_domain_target(service_name: &str, scope: ServiceScope, uid: u32) -> (r: String)
    ensures
        r@ == domain_target(service_name@, scope, uid as nat),
{
    if scope.is_user() {
        let mut out = "gui/".to_owned();
        out.append(text::number(uid as u64).as_str());
        out.append("/");
        out.append(service_name);
        out
    } else {
        let mut out = "system/".to_owned();
        out.append(service_name);
        out
    }
}

/// The arguments by which the manager is asked whether a service is registered in a scope.
pub open spec fn query_arguments(
    os: Os,
    name: Seq<char>,
    scope: ServiceScope,
    uid: nat,
) -> Seq<Seq<char>> {
    match os {
        Os::Windows => seq!["query"@, name],
        Os::MacOs => seq!["print"@, domain_target(name, scope, uid)],
        Os::Linux => if scope == ServiceScope::User {
            seq!["--user"@, "cat"@, name + ".service"@]
        } else {
            seq!["cat"@, name + ".service"@]
        },
    }
}

/// The arguments by which the manager is asked whether a service is registered in a scope. It is,
/// where the tool then exits with success.
pub fn query_args(os: Os, service_name: &str, scope: ServiceScope, uid: u32) -> (r: Vec<String>)
    ensures
        text::views(r@) == query_arguments(os, service_name@, scope, uid as nat),
{
    let mut out: Vec<String> = Vec::new();
    match os {
        Os::Windows => {
            out.push("query".to_owned());
            out.push(service_name.to_owned());
        },
        Os::MacOs => {
            out.push("print".to_owned());
            out.push(launchd_domain_target(service_name, scope, uid));
        },
        Os::Linux => {
            if scope.is_user() {
                out.push("--user".to_owned());
            }
            out.push("cat".to_owned());
            let mut unit = service_name.to_owned();
            unit.append(".service");
            out.push(unit);
        },
    }
    proof {
        assert(text::views(out@) =~= query_arguments(os, service_name@, scope, uid as nat));
    }
    out
}

/// The file name of the service's systemd unit.
pub open spec fn unit_file(l: Label) -> Seq<char> {
    l.script() + ".service"@
}

/// The file name of the service's systemd unit.
pub fn unit_file_name(l: &Label) -> (r: String)
    ensures
        r@ == unit_file(*l),
{
    let mut out = script_name(l);
    out.append(".service");
    out
}

/// The arguments by which launchd stops the service of another account.
pub fn other_account_bootout_args(uid: u32) -> (r: Vec<String>)
    ensures
        text::views(r@) == seq![
            "bootout"@,
            domain_target(SERVICE_LABEL@, ServiceScope::User, uid as nat),
        ],
{
    let mut out: Vec<String> = Vec::new();
    out.push("bootout".to_owned());
    out.push(launchd_domain_target(SERVICE_LABEL, ServiceScope::User, uid));
    proof {
        assert(text::views(out@) =~= seq![
            "bootout"@,
            domain_target(SERVICE_LABEL@, ServiceScope::User, uid as nat),
        ]);
    }
    out
}

/// The arguments by which systemd stops the unit of another account.
pub fn other_account_stop_args(account: &str, unit: &str) -> (r: Vec<String>)
    ensures
        text::views(r@) == seq!["--user"@, "--machine="@ + account@ + "@.host"@, "stop"@, unit@],
{
    let mut machine = "--machine=".to_owned();
    machine.append(account);
    machine.append("@.host");
    let mut out: Vec<String> = Vec::new();
    out.push("--user".to_owned());
    out.push(machine);
    out.push("stop".to_owned());
    out.push(unit.to_owned());
    proof {
        assert(text::views(out@) =~= seq![
            "--user"@,
            "--machine="@ + account@ + "@.host"@,
            "stop"@,
            unit@,
        ]);
    }
    out
}

// ---- the Windows service controller ------------------------------------------------------------

/// How long without a crash until the count of crashes starts anew, in seconds.
pub const RECOVERY_RESET_SECONDS: &'static str = "86400";

/// What is done at the first, the second and any further crash.
pub const RECOVERY_ACTIONS: &'static str = "restart/5000/restart/10000/restart/30000";

/// The arguments of `sc.exe` that make a crashed service restart.
pub open spec fn recovery_arguments(name: Seq<char>) -> Seq<Seq<char>> {
    seq!["failure"@, name, "reset="@, RECOVERY_RESET_SECONDS@, "actions="@, RECOVERY_ACTIONS@]
}

/// The arguments of `sc.exe` that make a crashed service restart.
pub fn recovery_action_args(service_name: &str) -> (r: Vec<String>)
    ensures
        text::views(r@) == recovery_arguments(service_name@),
{
    let mut out: Vec<String> = Vec::new();
    out.push("failure".to_owned());
    out.push(service_name.to_owned());
    out.push("reset=".to_owned());
    out.push(RECOVERY_RESET_SECONDS.to_owned());
    out.push("actions=".to_owned());
    out.push(RECOVERY_ACTIONS.to_owned());
    proof {
        assert(text::views(out@) =~= recovery_arguments(service_name@));
    }
    out
}

/// What a failed `sc.exe failure` said: its trimmed error output, or how it exited.
pub open spec fn recovery_failure_text(stderr: Seq<char>, status: Seq<char>) -> Seq<char> {
    if text::is_blank(stderr) {
        "sc.exe failure exited with "@ + status
    } else {
        text::trimmed(stderr)
    }
}

/// What came of `sc.exe failure`.
pub fn recovery_outcome(success: bool, stderr: &str, status: &str) -> (r: Result<(), Error>)
    ensures
        r is Ok <==> success,
        r matches Err(e) ==> e.kind == ErrorKind::Other && e.message@ == recovery_failure_text(
            stderr@,
            status@,
        ),
{
    if success {
        return Ok(());
    }
    let said = text::trim(stderr);
    if said.as_str().is_empty() {
        let mut m = "sc.exe failure exited with ".to_owned();
        m.append(status);
        Err(Error::other(m))
    } else {
        Err(Error::other(said))
    }
}

/// The arguments of `sc.exe` that set the name a person sees.
pub open spec fn display_name_arguments(name: Seq<char>, display: Seq<char>) -> Seq<Seq<char>> {
    seq!["config"@, name, "displayname="@, display]
}

/// The arguments of `sc.exe` that set the name a person sees.
pub fn display_name_config_args(service_name: &str, display_name: &str) -> (r: Vec<String>)
    ensures
        text::views(r@) == display_name_arguments(service_name@, display_name@),
{
    let mut out: Vec<String> = Vec::new();
    out.push("config".to_owned());
    out.push(service_name.to_owned());
    out.push("displayname=".to_owned());
    out.push(display_name.to_owned());
    proof {
        assert(text::views(out@) =~= display_name_arguments(service_name@, display_name@));
    }
    out
}

/// Whether a line of the answer gives the display name.
pub open spec fn names_display(line: Seq<char>) -> bool {
    let k = text::first_of(line, ":"@);
    k < line.len() && text::same_but_ascii_case(text::trimmed(line.take(k)), "DISPLAY_NAME"@)
}

/// What a line of the answer gives behind its first colon.
pub open spec fn field_value(line: Seq<char>) -> Seq<char> {
    text::trimmed(line.skip(text::first_of(line, ":"@) + 1))
}

/// The display name in the answer of `sc.exe qc`: the value of the first line that gives one. Only
/// the first colon of a line separates, so a name may hold colons of its own.
pub open spec fn display_name_in(lines: Seq<Seq<char>>) -> Option<Seq<char>>
    decreases lines.len(),
{
    if lines.len() == 0 {
        None
    } else if names_display(lines[0]) {
        Some(field_value(lines[0]))
    } else {
        display_name_in(lines.skip(1))
    }
}

/// The display name in the answer of `sc.exe qc`.
pub fn parse_sc_qc_display_name(output: &str) -> (r: Option<String>)
    ensures
        text::opt_view(r) == display_name_in(text::lines_of(output@)),
{
    let lines = text::lines(output);
    let ghost all = text::lines_of(output@);
    let mut i: usize = 0;
    proof {
        assert(all.skip(0) =~= all);
    }
    while i < lines.len()
        invariant
            i <= lines@.len(),
            all == text::lines_of(output@),
            text::views(lines@) == all,
            display_name_in(all) == display_name_in(all.skip(i as int)),
        decreases lines@.len() - i,
    {
        let ghost rest = all.skip(i as int);
        proof {
            assert(rest[0] == lines@[i as int]@);
            assert(rest.skip(1) =~= all.skip(i + 1));
        }
        match text::split_once(lines[i].as_str(), ":") {
            Some((key, value)) => {
                if text::eq_ignore_ascii_case(text::trim(key.as_str()).as_str(), "DISPLAY_NAME") {
                    return Some(text::trim(value.as_str()));
                }
            },
            None => {},
        }
        i += 1;
    }
    None
}

// ---- laws --------------------------------------------------------------------------------------

/// **Law: a named scope is authoritative.** Where the operating system has both scopes, privilege
/// decides only a choice that names none.
pub proof fn law_a_named_scope_is_never_overridden(is_root: bool)
    ensures
        scope_for(ScopeChoice::System, true, is_root) == ServiceScope::System,
        scope_for(ScopeChoice::User, true, is_root) == ServiceScope::User,
        scope_for(ScopeChoice::Auto, true, is_root) == (if is_root {
            ServiceScope::System
        } else {
            ServiceScope::User
        }),
{
}

/// **Law: one scope where there is only one.** Without per-user services every choice means the
/// machine-wide scope, and nothing else is ever removed.
pub proof fn law_a_single_scope_host_has_one_answer(choice: ScopeChoice, is_root: bool)
    ensures
        scope_for(choice, false, is_root) == ServiceScope::System,
        scopes_to_remove(choice, false, is_root) == seq![ServiceScope::System],
{
}

/// **Law: the other scope's other scope is the scope.**
pub proof fn law_the_other_scope_is_an_involution(scope: ServiceScope)
    ensures
        scope.opposite().opposite() == scope,
        scope.opposite() != scope,
{
}

/// **Law: an uninstall reaches everything it may reach.** Under `Auto` both scopes are gone through;
/// the resolved one comes first under every choice; a named scope is the only one; and no scope is
/// gone through twice.
pub proof fn law_uninstall_reaches_every_scope(
    choice: ScopeChoice,
    os_supports_user: bool,
    is_root: bool,
)
    ensures
        ({
            let scopes = scopes_to_remove(choice, os_supports_user, is_root);
            &&& scopes.len() >= 1
            &&& scopes[0] == scope_for(choice, os_supports_user, is_root)
            &&& scopes.no_duplicates()
            &&& os_supports_user && choice == ScopeChoice::Auto ==> forall|s: ServiceScope|
                #[trigger] scopes.contains(s)
            &&& choice != ScopeChoice::Auto ==> scopes.len() == 1
        }),
{
    let scopes = scopes_to_remove(choice, os_supports_user, is_root);
    if os_supports_user && choice == ScopeChoice::Auto {
        assert forall|s: ServiceScope| #[trigger] scopes.contains(s) by {
            if s == scopes[0] {
            } else {
                assert(scopes[1] == s);
            }
        }
    }
}

/// **Law: the installed name is the probed name.** A label written out is the text it was parsed
/// from, so what was registered under that text is found under the qualified name.
pub proof fn law_the_qualified_name_is_the_label(s: Seq<char>, l: Label)
    requires
        text::opt_view(l.qualifier) == qualifier_in(text::pieces(s, "."@)),
        text::opt_view(l.organization) == organization_in(text::pieces(s, "."@)),
        l.application@ == application_in(text::pieces(s, "."@)),
    ensures
        l.qualified() == s,
        native_name(l, Os::Windows) == s,
        native_name(l, Os::MacOs) == s,
{
    reveal_strlit(".");
    assert("."@ =~= seq!['.']);
    let p = text::pieces(s, "."@);
    text::lemma_pieces_joined(s, '.');
    if p.len() >= 3 {
        text::lemma_joined_head(p, "."@);
        text::lemma_joined_head(p.skip(1), "."@);
        assert(p.skip(1).skip(1) =~= p.skip(2));
        assert(l.qualified() =~= s);
    } else if p.len() == 2 {
        text::lemma_joined_head(p, "."@);
        assert(p.skip(1) =~= seq![p[1]]);
        assert(l.qualified() =~= s);
    } else {
        assert(l.qualified() =~= s);
    }
}

/// **Law: scopes have names of their own, and privilege is needed for one.** Machine-wide is `system`, per
/// user is `user`; only a machine-wide registration beside per-user ones takes root.
pub proof fn law_what_the_scopes_are(scope: ServiceScope, both: bool)
    ensures
        ServiceScope::System.name() == "system"@,
        ServiceScope::User.name() == "user"@,
        ServiceScope::System.opposite() == ServiceScope::User,
        ServiceScope::User.opposite() == ServiceScope::System,
        needs_root(scope, both) <==> both && scope == ServiceScope::System,
{
}

/// **Law: tools are run from the system's own directories.** On Unix from the four that the distribution
/// owns and from no other; on Windows from the system directory and what it holds. Each place a tool is
/// looked for is the tool inside one of them, in their order.
pub proof fn law_tools_are_run_from_system_directories(
    os: Os,
    root: Option<Seq<char>>,
    program: Seq<char>,
    i: int,
)
    requires
        0 <= i < tool_places(os, tool_dirs(os, root), program).len(),
    ensures
        tool_places(os, tool_dirs(os, root), program).len() == tool_dirs(os, root).len(),
        tool_places(os, tool_dirs(os, root), program)[i] == inside_for(os, tool_dirs(os, root)[i], program),
        os != Os::Windows ==> tool_dirs(os, root) == seq!["/usr/sbin"@, "/usr/bin"@, "/sbin"@, "/bin"@],
        root matches Some(r) ==> tool_dirs(Os::Windows, root) == seq![inside_windows(r, "System32"@), r],
        tool_dirs(Os::Windows, None) == tool_dirs(Os::Windows, Some("C:\\Windows"@)),
        manager_tool(Os::Windows) == "sc.exe"@,
        manager_tool(Os::MacOs) == "launchctl"@,
        manager_tool(Os::Linux) == "systemctl"@,
{
}

/// **Law: what a service is registered as.** On Linux by organization and application with a hyphen between
/// them, elsewhere by the whole label with dots; the unit file is named by the former.
pub proof fn law_what_a_service_is_registered_as(l: Label, q: String, o: String)
    requires
        l.qualifier == Some(q),
        l.organization == Some(o),
    ensures
        native_name(l, Os::Linux) == o@ + seq!['-'] + l.application@,
        native_name(l, Os::Windows) == q@ + seq!['.'] + o@ + seq!['.'] + l.application@,
        native_name(l, Os::MacOs) == native_name(l, Os::Windows),
        unit_file(l) == o@ + seq!['-'] + l.application@ + ".service"@,
{
    reveal_strlit("-");
    reveal_strlit(".");
    assert("-"@ =~= seq!['-']);
    assert("."@ =~= seq!['.']);
    assert(native_name(l, Os::Linux) =~= o@ + seq!['-'] + l.application@);
    assert(native_name(l, Os::Windows) =~= q@ + seq!['.'] + o@ + seq!['.'] + l.application@);
    assert(unit_file(l) =~= o@ + seq!['-'] + l.application@ + ".service"@);
}

/// **Law: a user's service is asked about in that user's domain.** The domain names the user by number, so
/// that two users are never mixed up, and the machine's domain names none.
pub proof fn law_each_user_has_a_domain(name: Seq<char>, a: nat, b: nat)
    ensures
        domain_target(name, ServiceScope::User, a) == "gui/"@ + text::decimal(a) + "/"@ + name,
        domain_target(name, ServiceScope::System, a) == "system/"@ + name,
        domain_target(name, ServiceScope::User, a) == domain_target(name, ServiceScope::User, b) ==> a == b,
        domain_target(name, ServiceScope::User, a) != domain_target(name, ServiceScope::System, b),
{
    reveal_strlit("gui/");
    reveal_strlit("system/");
    reveal_strlit("/");
    let x = domain_target(name, ServiceScope::User, a);
    let y = domain_target(name, ServiceScope::User, b);
    let (da, db) = (text::decimal(a), text::decimal(b));
    if x == y {
        assert(x.len() == 4 + da.len() + 1 + name.len());
        assert(y.len() == 4 + db.len() + 1 + name.len());
        assert(da =~= x.subrange(4, (4 + da.len()) as int));
        assert(db =~= y.subrange(4, (4 + db.len()) as int));
        crate::tokens::law_decimals_tell_numbers_apart(a, b);
    }
    assert(x[0] == 'g');
    assert(domain_target(name, ServiceScope::System, b)[0] == 's');
}

/// **Law: the manager is asked about the service in the scope.** The question names the service, and on the
/// systems that tell the scopes apart it differs between them.
pub proof fn law_the_manager_is_asked_about_the_service(name: Seq<char>, uid: nat)
    ensures
        query_arguments(Os::Windows, name, ServiceScope::System, uid) == seq!["query"@, name],
        query_arguments(Os::Windows, name, ServiceScope::User, uid) == seq!["query"@, name],
        query_arguments(Os::Linux, name, ServiceScope::User, uid) == seq![
            "--user"@,
            "cat"@,
            name + ".service"@,
        ],
        query_arguments(Os::Linux, name, ServiceScope::System, uid) == seq!["cat"@, name + ".service"@],
        query_arguments(Os::MacOs, name, ServiceScope::User, uid) == seq![
            "print"@,
            "gui/"@ + text::decimal(uid) + "/"@ + name,
        ],
        query_arguments(Os::MacOs, name, ServiceScope::System, uid) == seq!["print"@, "system/"@ + name],
{
}

/// **Law: the service controller is told of the service by name.** A crashed service restarts after five,
/// ten and thirty seconds, and the count starts anew after a day; the display name is the one given.
pub proof fn law_the_controller_is_told_by_name(name: Seq<char>, display: Seq<char>)
    ensures
        recovery_arguments(name) == seq![
            "failure"@,
            name,
            "reset="@,
            "86400"@,
            "actions="@,
            "restart/5000/restart/10000/restart/30000"@,
        ],
        display_name_arguments(name, display) == seq!["config"@, name, "displayname="@, display],
{
}

/// **Law: what a failed set-up of restarts says.** What the tool printed, or how it ended where it printed
/// nothing.
pub proof fn law_what_a_failed_recovery_says(stderr: Seq<char>, status: Seq<char>)
    ensures
        !text::is_blank(stderr) ==> recovery_failure_text(stderr, status) == text::trimmed(stderr),
        text::is_blank(stderr) ==> text::has(recovery_failure_text(stderr, status), status),
{
    let p = "sc.exe failure exited with "@;
    text::law_parts_are_found(p, status, Seq::empty());
    assert(p + status + Seq::<char>::empty() =~= p + status);
}

/// **Law: how the display name is read.** A line that has the name for it, in any case, in front of its
/// first colon gives what stands behind that colon; the first such line counts, and without one there is
/// no name.
pub proof fn law_how_the_display_name_is_read(
    key: Seq<char>,
    value: Seq<char>,
    lines: Seq<Seq<char>>,
    other: Seq<char>,
)
    requires
        !key.contains(':'),
    ensures
        names_display(key + seq![':'] + value) <==> crate::tokens::lowered(text::trimmed(key)) == "display_name"@,
        names_display(key + seq![':'] + value) ==> field_value(key + seq![':'] + value) == text::trimmed(value),
        !names_display(key),
        display_name_in(Seq::empty()) is None,
        names_display(other) ==> display_name_in(seq![other] + lines) == Some(field_value(other)),
        !names_display(other) ==> display_name_in(seq![other] + lines) == display_name_in(lines),
{
    reveal_strlit(":");
    let sep = ":"@;
    assert(sep =~= seq![':']);
    assert(sep.contains(':')) by {
        assert(sep[0] == ':');
    }
    let s = key + seq![':'] + value;
    text::lemma_first_of(s, sep);
    text::lemma_first_of(key, sep);
    let k = text::first_of(s, sep);
    assert(s[key.len() as int] == ':');
    if k < key.len() {
        assert(s[k] == key[k]);
        assert(key.contains(key[k]));
    }
    assert(s.take(k) =~= key);
    assert(s.skip(k + 1) =~= value);
    if text::first_of(key, sep) < key.len() {
        assert(key.contains(key[text::first_of(key, sep)]));
    }
    lemma_display_word(text::trimmed(key));
    assert((seq![other] + lines).skip(1) =~= lines);
}

proof fn lemma_display_word(t: Seq<char>)
    ensures
        text::same_but_ascii_case(t, "DISPLAY_NAME"@) <==> crate::tokens::lowered(t) == "display_name"@,
{
    reveal_strlit("DISPLAY_NAME");
    reveal_strlit("display_name");
    crate::tokens::law_lowering_changes_capitals_alone(t, "DISPLAY_NAME"@);
    crate::tokens::law_lowering_changes_capitals_alone("DISPLAY_NAME"@, "DISPLAY_NAME"@);
    assert(crate::tokens::lowered("DISPLAY_NAME"@) =~= "display_name"@);
}

/// **Law: the parts of a label.** One piece is the application; of two the first is the organization; of
/// three or more the first is the qualifier, the second the organization, and the rest the application.
pub proof fn law_the_parts_of_a_label(p: Seq<Seq<char>>)
    ensures
        p.len() == 1 ==> qualifier_in(p) is None && organization_in(p) is None && application_in(p) == p[0],
        p.len() == 2 ==> qualifier_in(p) is None && organization_in(p) == Some(p[0]) && application_in(p) == p[1],
        p.len() == 3 ==> qualifier_in(p) == Some(p[0]) && organization_in(p) == Some(p[1]) && application_in(p)
            == p[2],
        p.len() > 3 ==> qualifier_in(p) == Some(p[0]) && organization_in(p) == Some(p[1]) && application_in(p)
            == text::joined(p.skip(2), "."@),
{
    if p.len() == 3 {
        assert(p.skip(2) =~= seq![p[2]]);
    }
}

/// **Law: which scope is meant where none is named.** On a host that has both, the machine's for root and the
/// caller's own for anyone else, and both are cleared of the service on removal, that one first. A named
/// scope is the only one, and so is the machine's on a host without the other.
pub proof fn law_which_scope_is_meant(choice: ScopeChoice, is_root: bool)
    ensures
        scope_for(ScopeChoice::Auto, true, true) == ServiceScope::System,
        scope_for(ScopeChoice::Auto, true, false) == ServiceScope::User,
        scope_for(choice, false, is_root) == ServiceScope::System,
        scope_for(ScopeChoice::System, true, is_root) == ServiceScope::System,
        scope_for(ScopeChoice::User, true, is_root) == ServiceScope::User,
        scopes_to_remove(ScopeChoice::Auto, true, true) == seq![ServiceScope::System, ServiceScope::User],
        scopes_to_remove(ScopeChoice::Auto, true, false) == seq![ServiceScope::User, ServiceScope::System],
        scopes_to_remove(ScopeChoice::System, true, is_root) == seq![ServiceScope::System],
        scopes_to_remove(ScopeChoice::User, true, is_root) == seq![ServiceScope::User],
        scopes_to_remove(choice, false, is_root) == seq![ServiceScope::System],
{
}

} // verus!
