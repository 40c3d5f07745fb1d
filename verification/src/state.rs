//! The machine-wide state directory: where the control token lives, and when it may be trusted.
//!
//! The daemon and the operator's commands have to agree on one directory whatever account they run
//! under, so the choice is made from facts that do not vary by account. A directory shared by the
//! whole machine must not be readable by every local account, so a service run secures it and reads
//! the result back before a token is written there.
use crate::oracle::{all_no, askable, first_yes, may_say};
use crate::paths;
use crate::text;
use vstd::prelude::*;

pub mod acl;
pub mod harden;
pub mod token;

pub use self::acl::{
    acl_verify_ps_command, is_dangerous_group_sid, is_forbidden_grant_sid, parse_acl_verify,
    parse_first_user_read_sid, parse_whoami_csv_sid, reset_dacl_args, setowner_system_args,
    windows_lockdown_grant_args, SID_ADMINISTRATORS, SID_ANONYMOUS, SID_AUTHENTICATED_USERS,
    SID_EVERYONE, SID_SYSTEM, SID_USERS,
};
pub use self::token::{
    token_file_is_trusted, unix_token_owner_is_trusted, windows_token_owner_is_trusted, TokenFile,
};

verus! {

/// The variable that names the state directory outright.
pub const STATE_DIR_ENV: &'static str = "DIG_NODE_STATE_DIR";

/// The variable by which an installed service knows that it is one.
pub const RUN_CONTEXT_ENV: &'static str = "DIG_NODE_RUN_CONTEXT";

/// The value of [`RUN_CONTEXT_ENV`] that marks a service run.
pub const RUN_CONTEXT_SERVICE: &'static str = "service";

/// The operating system the node runs on.
#[derive(Debug, Clone, Copy, PartialEq, Eq, Structural)]
pub enum Os {
    Windows,
    MacOs,
    Linux,
}

// ---- candidates --------------------------------------------------------------------------------

/// The program-data directory: the variable's value unless it is unset or blank.
pub open spec fn program_data_dir(variable: Option<Seq<char>>) -> Seq<char> {
    match variable {
        Some(v) => if text::is_blank(v) {
            "C:\\ProgramData"@
        } else {
            v
        },
        None => "C:\\ProgramData"@,
    }
}

/// The machine-wide directories of the operating system, in order of preference. None depends on
/// the account.
pub open spec fn machine_candidates(os: Os, program_data: Option<Seq<char>>) -> Seq<Seq<char>> {
    match os {
        Os::Windows => seq![paths::inside_windows(program_data_dir(program_data), "DigNode"@)],
        Os::MacOs => seq!["/Library/Application Support/DigNode"@],
        Os::Linux => seq!["/var/lib/dig-node"@, "/etc/dig-node"@],
    }
}

/// The machine-wide directories of the operating system, in order of preference. `program_data` is
/// the value of `%PROGRAMDATA%`.
pub fn machine_state_dirs(os: Os, program_data: Option<&str>) -> (r: Vec<String>)
    ensures
        text::views(r@) == machine_candidates(os, text::opt_str_view(program_data)),
{
    let mut out: Vec<String> = Vec::new();
    match os {
        Os::Windows => {
            let mut base = "C:\\ProgramData".to_owned();
            if let Some(v) = program_data {
                if !text::blank(v) {
                    base = v.to_owned();
                }
            }
            out.push(paths::join_windows(base.as_str(), "DigNode"));
        },
        Os::MacOs => {
            out.push("/Library/Application Support/DigNode".to_owned());
        },
        Os::Linux => {
            out.push("/var/lib/dig-node".to_owned());
            out.push("/etc/dig-node".to_owned());
        },
    }
    proof {
        assert(text::views(out@) =~= machine_candidates(os, text::opt_str_view(program_data)));
    }
    out
}

/// Whether `dir` is a machine-wide directory of the operating system, however it is written.
pub open spec fn is_machine_dir(os: Os, program_data: Option<Seq<char>>, dir: Seq<char>) -> bool {
    exists|k: int|
        0 <= k < machine_candidates(os, program_data).len() && paths::components(
            os,
            #[trigger] machine_candidates(os, program_data)[k],
        ) == paths::components(os, dir)
}

/// Whether `dir` is a machine-wide directory of the operating system. Only such a directory is
/// secured; a directory named outright is left as it is.
pub fn is_machine_state_dir(dir: &str, os: Os, program_data: Option<&str>) -> (r: bool)
    ensures
        r == is_machine_dir(os, text::opt_str_view(program_data), dir@),
{
    let candidates = machine_state_dirs(os, program_data);
    let ghost all = machine_candidates(os, text::opt_str_view(program_data));
    let mut i: usize = 0;
    while i < candidates.len()
        invariant
            i <= candidates@.len(),
            all == text::views(candidates@),
            all == machine_candidates(os, text::opt_str_view(program_data)),
            forall|j: int|
                0 <= j < i ==> paths::components(os, #[trigger] all[j]) != paths::components(os, dir@),
        decreases candidates@.len() - i,
    {
        proof {
            assert(all[i as int] == candidates@[i as int]@);
        }
        if paths::same_path(os, candidates[i].as_str(), dir) {
            return true;
        }
        i += 1;
    }
    false
}

/// The directory of one account, used where no machine-wide directory serves: the one that holds the
/// node's configuration file.
pub open spec fn legacy_dir(os: Os, config_path: Seq<char>) -> Seq<char> {
    match paths::parent_of(os, config_path) {
        Some(d) => d,
        None => "."@,
    }
}

/// The directory that holds the node's configuration file.
pub fn legacy_state_dir(os: Os, config_path: &str) -> (r: String)
    ensures
        r@ == legacy_dir(os, config_path@),
{
    match paths::parent(os, config_path) {
        Some(d) => d,
        None => ".".to_owned(),
    }
}

// ---- the choice --------------------------------------------------------------------------------

/// Whether the run-context variable marks a service run.
pub open spec fn marks_service(context: Option<Seq<char>>) -> bool {
    match context {
        Some(v) => text::same_but_ascii_case(text::trimmed(v), RUN_CONTEXT_SERVICE@),
        None => false,
    }
}

/// Whether the value of [`RUN_CONTEXT_ENV`] marks a service run.
pub fn running_as_service(context: Option<&str>) -> (r: bool)
    ensures
        r == marks_service(text::opt_str_view(context)),
{
    match context {
        Some(v) => text::eq_ignore_ascii_case(text::trim(v).as_str(), RUN_CONTEXT_SERVICE),
        None => false,
    }
}

/// The directory named outright: the variable's value without surrounding white space, unless
/// nothing is left of it.
pub open spec fn named_dir(variable: Option<Seq<char>>) -> Option<Seq<char>> {
    match variable {
        Some(v) => if text::is_blank(v) {
            None
        } else {
            Some(text::trimmed(v))
        },
        None => None,
    }
}

/// The directory that the value of [`STATE_DIR_ENV`] names outright.
pub fn override_dir(variable: Option<&str>) -> (r: Option<String>)
    ensures
        text::opt_view(r) == named_dir(text::opt_str_view(variable)),
{
    match variable {
        Some(v) => {
            let t = text::trim(v);
            if t.as_str().is_empty() {
                None
            } else {
                Some(t)
            }
        },
        None => None,
    }
}

/// Whether `dir` is the state directory: the one named outright; else the first machine-wide one that
/// exists; else, for a service, the first that can be created; else the account's own.
pub open spec fn is_choice<E: Fn(&str) -> bool, C: Fn(&str) -> bool>(
    dir: Seq<char>,
    named: Option<Seq<char>>,
    candidates: Seq<Seq<char>>,
    exists_at: E,
    can_create: C,
    is_service: bool,
    legacy: Seq<char>,
) -> bool {
    match named {
        Some(d) => dir == d,
        None => {
            ||| exists|k: int| #[trigger] first_yes(exists_at, candidates, k) && dir
                == candidates[k]
            ||| all_no(exists_at, candidates) && is_service && exists|k: int| #[trigger]
                first_yes(can_create, candidates, k) && dir == candidates[k]
            ||| all_no(exists_at, candidates) && (is_service ==> all_no(can_create, candidates))
                && dir == legacy
        },
    }
}

/// The state directory: the one named outright; else the first machine-wide one that exists, for
/// everyone; else, for a service run alone, the first that can be created; else the account's own.
/// `can_create` makes the directory it is asked about, so it is asked for a service alone, and only
/// where no directory was named and none exists.
pub fn choose_state_dir<E: Fn(&str) -> bool, C: Fn(&str) -> bool>(
    override_dir: Option<String>,
    machine_candidates: &Vec<String>,
    exists_at: E,
    can_create: C,
    is_service: bool,
    legacy: String,
) -> (r: String)
    requires
        override_dir is None ==> askable(exists_at, text::views(machine_candidates@)),
        override_dir is None && is_service && all_no(exists_at, text::views(machine_candidates@))
            ==> askable(can_create, text::views(machine_candidates@)),
    ensures
        is_choice(
            r@,
            text::opt_view(override_dir),
            text::views(machine_candidates@),
            exists_at,
            can_create,
            is_service,
            legacy@,
        ),
{
    if let Some(dir) = override_dir {
        return dir;
    }
    let ghost all = text::views(machine_candidates@);
    let mut i: usize = 0;
    while i < machine_candidates.len()
        invariant
            i <= machine_candidates@.len(),
            all == text::views(machine_candidates@),
            override_dir is None,
            askable(exists_at, all),
            forall|j: int| 0 <= j < i ==> #[trigger] may_say(exists_at, all[j], false),
        decreases machine_candidates@.len() - i,
    {
        let c = machine_candidates[i].as_str();
        proof {
            assert(all[i as int] == c@);
            assert(all_no(exists_at, all.take(i as int)));
        }
        let found = exists_at(c);
        proof {
            assert(call_ensures(exists_at, (c,), found));
            assert(may_say(exists_at, all[i as int], found));
        }
        if found {
            proof {
                assert(first_yes(exists_at, all, i as int));
            }
            return machine_candidates[i].clone();
        }
        i += 1;
    }
    if is_service {
        let mut k: usize = 0;
        while k < machine_candidates.len()
            invariant
                k <= machine_candidates@.len(),
                all == text::views(machine_candidates@),
                is_service,
                override_dir is None,
                all_no(exists_at, all),
                askable(can_create, all),
                forall|j: int| 0 <= j < k ==> #[trigger] may_say(can_create, all[j], false),
            decreases machine_candidates@.len() - k,
        {
            let c = machine_candidates[k].as_str();
            proof {
                assert(all[k as int] == c@);
                assert(all_no(can_create, all.take(k as int)));
            }
            let made = can_create(c);
            proof {
                assert(call_ensures(can_create, (c,), made));
                assert(may_say(can_create, all[k as int], made));
            }
            if made {
                proof {
                    assert(first_yes(can_create, all, k as int));
                }
                return machine_candidates[k].clone();
            }
            k += 1;
        }
    }
    legacy
}

/// What a process knows when it looks for its state directory: the values of the variables, the
/// operating system, and the account's own directory.
#[derive(Debug)]
pub struct StateFacts {
    pub state_dir_env: Option<String>,
    pub run_context_env: Option<String>,
    pub os: Os,
    pub program_data: Option<String>,
    pub legacy: String,
}

/// The string slice of an optional string.
fn as_deref(s: &Option<String>) -> (r: Option<&str>)
    ensures
        text::opt_str_view(r) == text::opt_view(*s),
{
    match s {
        Some(t) => Some(t.as_str()),
        None => None,
    }
}

/// Whether it may be asked where a machine-wide directory exists: where none was named outright, about
/// each in turn.
pub open spec fn may_look<E: Fn(&str) -> bool>(facts: StateFacts, exists_at: E) -> bool {
    named_dir(text::opt_view(facts.state_dir_env)) is None ==> askable(
        exists_at,
        machine_candidates(facts.os, text::opt_view(facts.program_data)),
    )
}

/// Whether a machine-wide directory may be made: by a service, where none was named outright and none
/// exists, each in turn.
pub open spec fn may_make<E: Fn(&str) -> bool, C: Fn(&str) -> bool>(
    facts: StateFacts,
    exists_at: E,
    can_create: C,
) -> bool {
    let candidates = machine_candidates(facts.os, text::opt_view(facts.program_data));
    named_dir(text::opt_view(facts.state_dir_env)) is None && marks_service(
        text::opt_view(facts.run_context_env),
    ) && all_no(exists_at, candidates) ==> askable(can_create, candidates)
}

/// The state directory of a process that knows `facts`.
pub fn state_dir<E: Fn(&str) -> bool, C: Fn(&str) -> bool>(
    facts: &StateFacts,
    exists_at: E,
    can_create: C,
) -> (r: String)
    requires
        may_look(*facts, exists_at),
        may_make(*facts, exists_at, can_create),
    ensures
        is_choice(
            r@,
            named_dir(text::opt_view(facts.state_dir_env)),
            machine_candidates(facts.os, text::opt_view(facts.program_data)),
            exists_at,
            can_create,
            marks_service(text::opt_view(facts.run_context_env)),
            facts.legacy@,
        ),
{
    let named = override_dir(as_deref(&facts.state_dir_env));
    let candidates = machine_state_dirs(facts.os, as_deref(&facts.program_data));
    let is_service = running_as_service(as_deref(&facts.run_context_env));
    choose_state_dir(
        named,
        &candidates,
        exists_at,
        can_create,
        is_service,
        facts.legacy.clone(),
    )
}

/// What a service run does with its state directory before a token is written there.
#[derive(Debug, PartialEq, Eq)]
pub enum StateDirPlan {
    /// Secure the directory and read the result back; refuse to serve from it otherwise.
    Harden { dir: String, read_grant: Option<String> },
    /// Only see to it that the directory exists: it belongs to one account already.
    Create { dir: String },
}

/// What a service run does with the state directory `dir`: a machine-wide directory is secured, with
/// the read grant given; any other is only created.
pub fn ensure_service_state_dir(
    dir: String,
    os: Os,
    program_data: Option<&str>,
    read_grant: Option<String>,
) -> (r: StateDirPlan)
    ensures
        r == if is_machine_dir(os, text::opt_str_view(program_data), dir@) {
            StateDirPlan::Harden { dir, read_grant }
        } else {
            StateDirPlan::Create { dir }
        },
{
    if is_machine_state_dir(dir.as_str(), os, program_data) {
        StateDirPlan::Harden { dir, read_grant }
    } else {
        StateDirPlan::Create { dir }
    }
}

/// The interactive account's SID, for a grant of read access: the account of the process, on Windows
/// alone. `whoami` is what the command printed, when it succeeded.
pub fn interactive_read_grant(os: Os, whoami: Option<&str>) -> (r: Option<String>)
    ensures
        text::opt_view(r) == if os == Os::Windows {
            acl::grantable_sid(text::opt_str_view(whoami))
        } else {
            None
        },
{
    match os {
        Os::Windows => acl::current_user_sid(whoami),
        _ => None,
    }
}

/// The SID that keeps read access when a service run secures the directory: the process's own account
/// when it is a real one, else the grant already found there.
pub fn service_read_grant(os: Os, whoami: Option<&str>, found: Option<String>) -> (r: Option<
    String,
>)
    ensures
        text::opt_view(r) == if os != Os::Windows {
            None
        } else if acl::grantable_sid(text::opt_str_view(whoami)) is Some {
            acl::grantable_sid(text::opt_str_view(whoami))
        } else {
            text::opt_view(found)
        },
{
    match os {
        Os::Windows => match acl::current_user_sid(whoami) {
            Some(sid) => Some(sid),
            None => found,
        },
        _ => None,
    }
}

// ---- laws --------------------------------------------------------------------------------------

/// A directory named outright wins over everything.
pub proof fn law_named_directory_wins<E: Fn(&str) -> bool, C: Fn(&str) -> bool>(
    dir: Seq<char>,
    named: Seq<char>,
    candidates: Seq<Seq<char>>,
    exists_at: E,
    can_create: C,
    is_service: bool,
    legacy: Seq<char>,
)
    requires
        is_choice(dir, Some(named), candidates, exists_at, can_create, is_service, legacy),
    ensures
        dir == named,
{
}

/// The daemon and the operator's command agree: where a machine-wide directory exists, what is chosen
/// does not depend on being a service, on what could be created, or on the account's own directory.
pub proof fn law_service_and_command_agree<E: Fn(&str) -> bool, C: Fn(&str) -> bool>(
    a: Seq<char>,
    b: Seq<char>,
    candidates: Seq<Seq<char>>,
    exists_at: E,
    can_create: C,
    legacy_a: Seq<char>,
    legacy_b: Seq<char>,
)
    requires
        is_choice(a, None, candidates, exists_at, can_create, true, legacy_a),
        is_choice(b, None, candidates, exists_at, can_create, false, legacy_b),
        forall|p: Seq<char>|
            !(#[trigger] may_say(exists_at, p, true) && may_say(exists_at, p, false)),
        exists|k: int| 0 <= k < candidates.len() && #[trigger] may_say(
            exists_at,
            candidates[k],
            true,
        ),
    ensures
        a == b,
{
    let k = choose|k: int|
        0 <= k < candidates.len() && #[trigger] may_say(exists_at, candidates[k], true);
    assert(!may_say(exists_at, candidates[k], false));
    assert(!all_no(exists_at, candidates));
    let x = choose|x: int| #[trigger] first_yes(exists_at, candidates, x) && a == candidates[x];
    let y = choose|y: int| #[trigger] first_yes(exists_at, candidates, y) && b == candidates[y];
    if x < y {
        assert(may_say(exists_at, candidates[x], false));
    }
    if y < x {
        assert(may_say(exists_at, candidates[y], false));
    }
}

/// A run that is no service uses a machine-wide directory that exists, or the account's own.
pub proof fn law_only_a_service_bootstraps<E: Fn(&str) -> bool, C: Fn(&str) -> bool>(
    dir: Seq<char>,
    candidates: Seq<Seq<char>>,
    exists_at: E,
    can_create: C,
    legacy: Seq<char>,
)
    requires
        is_choice(dir, None, candidates, exists_at, can_create, false, legacy),
    ensures
        dir == legacy || exists|k: int| #[trigger] first_yes(exists_at, candidates, k) && dir
            == candidates[k],
{
}

/// **Law: where the machine keeps its state.** On Windows in `DigNode` inside the program-data directory,
/// which is the variable's value unless that is blank or missing; on macOS in the library; on Linux in
/// `/var/lib/dig-node`, else in `/etc/dig-node`. None depends on the account.
pub proof fn law_where_the_machine_keeps_its_state(v: Seq<char>)
    ensures
        machine_candidates(Os::Linux, None) == seq!["/var/lib/dig-node"@, "/etc/dig-node"@],
        machine_candidates(Os::Linux, Some(v)) == machine_candidates(Os::Linux, None),
        machine_candidates(Os::MacOs, Some(v)) == seq!["/Library/Application Support/DigNode"@],
        machine_candidates(Os::MacOs, None) == machine_candidates(Os::MacOs, Some(v)),
        machine_candidates(Os::Windows, None) == seq![paths::inside_windows("C:\\ProgramData"@, "DigNode"@)],
        text::is_blank(v) ==> machine_candidates(Os::Windows, Some(v)) == machine_candidates(Os::Windows, None),
        !text::is_blank(v) ==> machine_candidates(Os::Windows, Some(v)) == seq![
            paths::inside_windows(v, "DigNode"@),
        ],
{
}

/// **Law: which directory counts as the machine's.** Exactly one that is the same path as one of the
/// machine-wide directories, however it is written.
pub proof fn law_which_directory_is_the_machines(os: Os, v: Option<Seq<char>>, dir: Seq<char>)
    ensures
        machine_candidates(os, v).contains(dir) ==> is_machine_dir(os, v, dir),
        is_machine_dir(os, v, dir) ==> exists|k: int|
            0 <= k < machine_candidates(os, v).len() && paths::components(
                os,
                #[trigger] machine_candidates(os, v)[k],
            ) == paths::components(os, dir),
        is_machine_dir(Os::Linux, v, dir) <==> paths::components(Os::Linux, dir) == paths::components(
            Os::Linux,
            "/var/lib/dig-node"@,
        ) || paths::components(Os::Linux, dir) == paths::components(Os::Linux, "/etc/dig-node"@),
{
    if machine_candidates(os, v).contains(dir) {
        let k = choose|k: int| 0 <= k < machine_candidates(os, v).len() && machine_candidates(os, v)[k] == dir;
        assert(paths::components(os, machine_candidates(os, v)[k]) == paths::components(os, dir));
    }
    let l = machine_candidates(Os::Linux, v);
    assert(l[0] == "/var/lib/dig-node"@ && l[1] == "/etc/dig-node"@);
}

/// **Law: the account's own directory holds its configuration file.**
pub proof fn law_the_accounts_directory_holds_its_configuration(os: Os, path: Seq<char>)
    ensures
        paths::parent_of(os, path) matches Some(d) ==> legacy_dir(os, path) == d,
        paths::parent_of(os, path) is None ==> legacy_dir(os, path) == "."@,
{
}

/// **Law: what marks a service run, and what names a directory.** The word for a service in any case, with
/// or without white space around it, and nothing else; a directory is named by any text that is not blank,
/// without the white space around it.
pub proof fn law_what_the_variables_say(v: Seq<char>)
    ensures
        marks_service(Some(v)) <==> crate::tokens::lowered(text::trimmed(v)) == "service"@,
        !marks_service(None),
        named_dir(None) is None,
        text::is_blank(v) ==> named_dir(Some(v)) is None,
        !text::is_blank(v) ==> named_dir(Some(v)) == Some(text::trimmed(v)),
{
    reveal_strlit("service");
    crate::tokens::law_lowering_changes_capitals_alone(text::trimmed(v), "service"@);
    assert(crate::tokens::lowered("service"@) =~= "service"@);
}

/// **Law: where state is kept when no directory is named.** Where some candidate surely exists, the first
/// that may is used. Where none does, a service uses the first it can make, and anyone else, or a service
/// that can make none, the account's own.
pub proof fn law_where_state_is_kept<E: Fn(&str) -> bool, C: Fn(&str) -> bool>(
    dir: Seq<char>,
    candidates: Seq<Seq<char>>,
    exists_at: E,
    can_create: C,
    is_service: bool,
    legacy: Seq<char>,
)
    requires
        is_choice(dir, None, candidates, exists_at, can_create, is_service, legacy),
    ensures
        (exists|k: int|
            0 <= k < candidates.len() && !(#[trigger] may_say(exists_at, candidates[k], false)))
            ==> exists|k: int| #[trigger] first_yes(exists_at, candidates, k) && dir == candidates[k],
        (forall|k: int|
            0 <= k < candidates.len() ==> !(#[trigger] may_say(exists_at, candidates[k], true))) && !is_service
            ==> dir == legacy,
        (forall|k: int|
            0 <= k < candidates.len() ==> !(#[trigger] may_say(exists_at, candidates[k], true))) && is_service && (
        exists|k: int| 0 <= k < candidates.len() && !(#[trigger] may_say(can_create, candidates[k], false)))
            ==> exists|k: int| #[trigger] first_yes(can_create, candidates, k) && dir == candidates[k],
        (forall|k: int|
            0 <= k < candidates.len() ==> !(#[trigger] may_say(exists_at, candidates[k], true))) && (forall|k: int|
            0 <= k < candidates.len() ==> !(#[trigger] may_say(can_create, candidates[k], true))) ==> dir == legacy,
{
}

} // verus!
