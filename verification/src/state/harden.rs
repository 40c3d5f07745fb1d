//! Securing the state directory, step by step.
//!
//! The steps alternate with work on the machine, so they are a function from where the procedure
//! stands and what the machine reported to where it stands next. Every failure ends in a refusal, and
//! once the directory was created it is removed before the refusal is handed on.
use crate::error::{Error, ErrorKind};
use crate::state::acl;
use crate::text;
use vstd::prelude::*;

verus! {

/// Where the procedure stands.
#[derive(Debug, PartialEq, Eq)]
pub enum HardenStage {
    /// Find out whether the directory is there, and who owns it.
    Inspect,
    /// Take over a directory whose owner is not trusted, so that it can be removed.
    TakeOwnership,
    /// Remove it.
    Purge,
    /// Create the directory.
    Create,
    /// Make LocalSystem its owner.
    SetOwner,
    /// Drop every foreign entry.
    Reset,
    /// Apply the list.
    Lockdown,
    /// Read the list back.
    Readback,
    /// Remove the directory, for the reason given.
    RollBack(String),
    /// The directory is secured.
    Done,
    /// The directory could not be secured.
    Refused(Error),
}

/// What the machine is asked to do.
#[derive(Debug, PartialEq, Eq)]
pub enum HardenAction {
    /// Report the owner of the directory, or that it is not there.
    ReadOwner,
    /// Run `icacls` with these arguments.
    Icacls(Vec<String>),
    /// Remove the directory with everything in it.
    RemoveDir,
    /// Create the directory.
    CreateDir,
    /// Run this command and report what it printed.
    ReadAcl(String),
    /// Nothing more.
    Stop,
}

/// What the machine reported.
#[derive(Debug, PartialEq, Eq)]
pub enum HardenEvent {
    /// The directory is not there.
    Absent,
    /// The directory is there; its owner, where it could be read.
    Owned(Option<String>),
    /// What was asked for was done.
    Succeeded,
    /// What the readback printed.
    Printed(String),
    /// What was asked for failed.
    Failed(Error),
}

/// Why a directory that could not be purged is refused.
pub open spec fn not_purged(dir: Seq<char>, why: Seq<char>) -> Seq<char> {
    "state dir "@ + dir + " pre-existed with an untrusted/unknown owner and could not be purged ("@
        + why + "); refusing (fail closed)"@
}

/// Why a directory is refused whose list could not be applied.
pub open spec fn not_locked(why: Seq<char>) -> Seq<char> {
    "ACL lockdown FAILED ("@ + why + "); removed the state dir (fail closed)"@
}

/// Why a directory is refused whose list did not read back as applied.
pub open spec fn not_verified(why: Seq<char>) -> Seq<char> {
    "ACL readback verification FAILED ("@ + why + "); removed the state dir (fail closed)"@
}

impl HardenStage {
    /// Whether the machine may report `event` at this stage.
    pub open spec fn admits(self, event: HardenEvent) -> bool {
        match self {
            HardenStage::Inspect => event is Absent || event is Owned,
            HardenStage::Readback => event is Printed || event is Failed,
            HardenStage::Done => false,
            HardenStage::Refused(_) => false,
            _ => event is Succeeded || event is Failed,
        }
    }

    /// How many stages may still follow.
    pub open spec fn remaining(self) -> nat {
        match self {
            HardenStage::Inspect => 9,
            HardenStage::TakeOwnership => 8,
            HardenStage::Purge => 7,
            HardenStage::Create => 6,
            HardenStage::SetOwner => 5,
            HardenStage::Reset => 4,
            HardenStage::Lockdown => 3,
            HardenStage::Readback => 2,
            HardenStage::RollBack(_) => 1,
            HardenStage::Done => 0,
            HardenStage::Refused(_) => 0,
        }
    }

    /// Whether the procedure stands at `next` once `event` was reported at this stage.
    pub open spec fn leads_to(
        self,
        event: HardenEvent,
        dir: Seq<char>,
        read_grant: Option<Seq<char>>,
        next: HardenStage,
    ) -> bool {
        match self {
            HardenStage::Inspect => match event {
                HardenEvent::Owned(owner) => if acl::owner_trusted(text::opt_view(owner)) {
                    next is Create
                } else {
                    next is TakeOwnership
                },
                _ => next is Create,
            },
            HardenStage::TakeOwnership => next is Purge,
            HardenStage::Purge => match event {
                HardenEvent::Failed(e) => next matches HardenStage::Refused(r) && r.kind
                    == ErrorKind::PermissionDenied && r.message@ == not_purged(dir, e.message@),
                _ => next is Create,
            },
            HardenStage::Create => match event {
                HardenEvent::Failed(e) => next == HardenStage::Refused(e),
                _ => next is SetOwner,
            },
            HardenStage::SetOwner => match event {
                HardenEvent::Failed(e) => next matches HardenStage::RollBack(m) && m@
                    == not_locked(e.message@),
                _ => next is Reset,
            },
            HardenStage::Reset => match event {
                HardenEvent::Failed(e) => next matches HardenStage::RollBack(m) && m@
                    == not_locked(e.message@),
                _ => next is Lockdown,
            },
            HardenStage::Lockdown => match event {
                HardenEvent::Failed(e) => next matches HardenStage::RollBack(m) && m@
                    == not_locked(e.message@),
                _ => next is Readback,
            },
            HardenStage::Readback => match event {
                HardenEvent::Printed(output) => match acl::refusal(output@, read_grant) {
                    Some(why) => next matches HardenStage::RollBack(m) && m@ == not_verified(why),
                    None => next is Done,
                },
                HardenEvent::Failed(e) => next matches HardenStage::RollBack(m) && m@
                    == not_verified(e.message@),
                _ => false,
            },
            HardenStage::RollBack(m) => next matches HardenStage::Refused(r) && r.kind
                == ErrorKind::Other && r.message@ == m@,
            _ => next == self,
        }
    }

    /// What the machine is asked to do at this stage.
    pub fn action(&self, dir: &str, read_grant: Option<&str>) -> (r: HardenAction)
        ensures
            match *self {
                HardenStage::Inspect => r is ReadOwner,
                HardenStage::TakeOwnership => r matches HardenAction::Icacls(args) && text::views(
                    args@,
                ) == seq![dir@, "/setowner"@, "*"@ + acl::SID_SYSTEM@, "/T"@, "/C"@, "/Q"@],
                HardenStage::Purge => r is RemoveDir,
                HardenStage::Create => r is CreateDir,
                HardenStage::SetOwner => r matches HardenAction::Icacls(args) && text::views(args@)
                    == seq![dir@, "/setowner"@, "*"@ + acl::SID_SYSTEM@, "/T"@, "/C"@, "/Q"@],
                HardenStage::Reset => r matches HardenAction::Icacls(args) && text::views(args@)
                    == seq![dir@, "/reset"@, "/T"@, "/C"@, "/Q"@],
                HardenStage::Lockdown => r matches HardenAction::Icacls(args) && text::views(args@)
                    == acl::replacing_args(dir@, text::opt_str_view(read_grant), "R"@),
                HardenStage::Readback => r matches HardenAction::ReadAcl(c) && c@
                    == acl::verify_command(dir@),
                HardenStage::RollBack(_) => r is RemoveDir,
                HardenStage::Done => r is Stop,
                HardenStage::Refused(_) => r is Stop,
            },
    {
        match self {
            HardenStage::Inspect => HardenAction::ReadOwner,
            HardenStage::TakeOwnership => HardenAction::Icacls(acl::setowner_system_args(dir)),
            HardenStage::Purge => HardenAction::RemoveDir,
            HardenStage::Create => HardenAction::CreateDir,
            HardenStage::SetOwner => HardenAction::Icacls(acl::setowner_system_args(dir)),
            HardenStage::Reset => HardenAction::Icacls(acl::reset_dacl_args(dir)),
            HardenStage::Lockdown => HardenAction::Icacls(
                acl::windows_lockdown_grant_args(dir, read_grant),
            ),
            HardenStage::Readback => HardenAction::ReadAcl(acl::acl_verify_ps_command(dir)),
            HardenStage::RollBack(_) => HardenAction::RemoveDir,
            HardenStage::Done => HardenAction::Stop,
            HardenStage::Refused(_) => HardenAction::Stop,
        }
    }

    /// Where the procedure stands once `event` was reported at this stage.
    pub fn next(self, event: HardenEvent, dir: &str, read_grant: Option<&str>) -> (r: HardenStage)
        requires
            self.admits(event),
        ensures
            self.leads_to(event, dir@, text::opt_str_view(read_grant), r),
    {
        match self {
            HardenStage::Inspect => match event {
                HardenEvent::Owned(owner) => {
                    let o = match &owner {
                        Some(s) => Some(s.as_str()),
                        None => None,
                    };
                    if acl::is_trusted_owner(o) {
                        HardenStage::Create
                    } else {
                        HardenStage::TakeOwnership
                    }
                },
                _ => HardenStage::Create,
            },
            HardenStage::TakeOwnership => HardenStage::Purge,
            HardenStage::Purge => match event {
                HardenEvent::Failed(e) => {
                    let mut m = "state dir ".to_owned();
                    m.append(dir);
                    m.append(
                        " pre-existed with an untrusted/unknown owner and could not be purged (",
                    );
                    m.append(e.message.as_str());
                    m.append("); refusing (fail closed)");
                    HardenStage::Refused(Error::new(ErrorKind::PermissionDenied, m))
                },
                _ => HardenStage::Create,
            },
            HardenStage::Create => match event {
                HardenEvent::Failed(e) => HardenStage::Refused(e),
                _ => HardenStage::SetOwner,
            },
            HardenStage::SetOwner => match event {
                HardenEvent::Failed(e) => HardenStage::RollBack(lockdown_failed(e)),
                _ => HardenStage::Reset,
            },
            HardenStage::Reset => match event {
                HardenEvent::Failed(e) => HardenStage::RollBack(lockdown_failed(e)),
                _ => HardenStage::Lockdown,
            },
            HardenStage::Lockdown => match event {
                HardenEvent::Failed(e) => HardenStage::RollBack(lockdown_failed(e)),
                _ => HardenStage::Readback,
            },
            HardenStage::Readback => match event {
                HardenEvent::Printed(output) => match acl::parse_acl_verify(
                    output.as_str(),
                    read_grant,
                ) {
                    Ok(_) => HardenStage::Done,
                    Err(why) => HardenStage::RollBack(readback_failed(why.as_str())),
                },
                HardenEvent::Failed(e) => HardenStage::RollBack(
                    readback_failed(e.message.as_str()),
                ),
                _ => HardenStage::RollBack(readback_failed("")),
            },
            HardenStage::RollBack(m) => HardenStage::Refused(Error::other(m)),
            HardenStage::Done => HardenStage::Done,
            HardenStage::Refused(e) => HardenStage::Refused(e),
        }
    }
}

/// Why a directory is refused whose list could not be applied.
fn lockdown_failed(e: Error) -> (m: String)
    ensures
        m@ == not_locked(e.message@),
{
    let mut m = "ACL lockdown FAILED (".to_owned();
    m.append(e.message.as_str());
    m.append("); removed the state dir (fail closed)");
    m
}

/// Why a directory is refused whose list did not read back as applied.
fn readback_failed(why: &str) -> (m: String)
    ensures
        m@ == not_verified(why@),
{
    let mut m = "ACL readback verification FAILED (".to_owned();
    m.append(why);
    m.append("); removed the state dir (fail closed)");
    m
}

/// What a failed run of `icacls` is reported as.
pub fn icacls_failure(code: Option<i32>, stderr: &str) -> (r: Error)
    ensures
        r.kind == ErrorKind::Other,
        r.message@ == "icacls exited with "@ + (match code {
            Some(c) => text::signed_decimal(c as int),
            None => "?"@,
        }) + ": "@ + text::trimmed(stderr@),
{
    let mut m = "icacls exited with ".to_owned();
    match code {
        Some(c) => {
            m.append(text::signed_number(c as i64).as_str());
        },
        None => {
            m.append("?");
        },
    }
    m.append(": ");
    m.append(text::trim(stderr).as_str());
    Error::other(m)
}

/// What a failed readback is reported as.
pub fn readback_failure(stderr: &str) -> (r: Error)
    ensures
        r.kind == ErrorKind::Other,
        r.message@ == "Get-Acl readback exited non-zero: "@ + text::trimmed(stderr@),
{
    let mut m = "Get-Acl readback exited non-zero: ".to_owned();
    m.append(text::trim(stderr).as_str());
    Error::other(m)
}

/// Whether a directory on Unix came out with the mode it must have. One that did not is removed and
/// refused.
pub fn unix_harden_verdict(dir: &str, mode: u32) -> (r: Result<(), Error>)
    ensures
        r is Ok <==> (mode & 0o777) == 0o700,
        r matches Err(e) ==> e.kind == ErrorKind::PermissionDenied && e.message@ == "state dir "@
            + dir@ + " is not 0700 after hardening (got "@ + text::octal((mode & 0o777) as nat)
            + ")"@,
{
    let bits: u32 = mode & 0o777;
    if bits == 0o700 {
        return Ok(());
    }
    let mut m = "state dir ".to_owned();
    m.append(dir);
    m.append(" is not 0700 after hardening (got ");
    m.append(text::octal_number(bits).as_str());
    m.append(")");
    Err(Error::new(ErrorKind::PermissionDenied, m))
}

// ---- laws --------------------------------------------------------------------------------------

/// The directory counts as secured only after a readback that showed the list as it must be.
pub proof fn law_secured_only_after_an_accepted_readback(
    stage: HardenStage,
    event: HardenEvent,
    dir: Seq<char>,
    read_grant: Option<Seq<char>>,
    next: HardenStage,
)
    requires
        stage.admits(event),
        stage.leads_to(event, dir, read_grant, next),
        next is Done,
    ensures
        stage is Readback,
        event matches HardenEvent::Printed(output) && acl::refusal(output@, read_grant) is None,
{
}

/// The procedure fails closed: a directory whose list was touched is never refused without first
/// being removed, and one whose owner is not trusted is never adopted.
pub proof fn law_hardening_fails_closed(
    stage: HardenStage,
    event: HardenEvent,
    dir: Seq<char>,
    read_grant: Option<Seq<char>>,
    next: HardenStage,
)
    requires
        stage.admits(event),
        stage.leads_to(event, dir, read_grant, next),
    ensures
        next is Refused ==> stage is Purge || stage is Create || stage is RollBack,
        stage is Inspect && (event matches HardenEvent::Owned(o) && !acl::owner_trusted(
            text::opt_view(o),
        )) ==> next is TakeOwnership,
{
}

/// The procedure ends: each step leaves fewer stages than before.
pub proof fn law_hardening_ends(
    stage: HardenStage,
    event: HardenEvent,
    dir: Seq<char>,
    read_grant: Option<Seq<char>>,
    next: HardenStage,
)
    requires
        stage.admits(event),
        stage.leads_to(event, dir, read_grant, next),
    ensures
        next.remaining() < stage.remaining(),
{
}

/// **Law: the steps of securing a directory.** One that is not there, or whose owner is trusted, is created
/// and then owned, emptied of entries, locked down and read back, in this order, as long as each step
/// succeeds; one whose owner is not trusted, or not known, is taken over and removed first, whether taking
/// it over succeeded or not.
pub proof fn law_the_steps_of_securing_a_directory(
    stage: HardenStage,
    event: HardenEvent,
    dir: Seq<char>,
    grant: Option<Seq<char>>,
    next: HardenStage,
)
    requires
        stage.admits(event),
        stage.leads_to(event, dir, grant, next),
    ensures
        stage is Inspect && event is Absent ==> next is Create,
        stage is Inspect && (event matches HardenEvent::Owned(Some(o)) && (o@ == "S-1-5-18"@ || o@
            == "S-1-5-32-544"@)) ==> next is Create,
        stage is Inspect && (event matches HardenEvent::Owned(Some(o)) && o@ != "S-1-5-18"@ && o@
            != "S-1-5-32-544"@) ==> next is TakeOwnership,
        stage is Inspect && event == HardenEvent::Owned(None) ==> next is TakeOwnership,
        stage is TakeOwnership ==> next is Purge,
        stage is Purge && event is Succeeded ==> next is Create,
        stage is Create && event is Succeeded ==> next is SetOwner,
        stage is SetOwner && event is Succeeded ==> next is Reset,
        stage is Reset && event is Succeeded ==> next is Lockdown,
        stage is Lockdown && event is Succeeded ==> next is Readback,
        stage is Readback && (event matches HardenEvent::Printed(o) && acl::refusal(o@, grant) is None)
            ==> next is Done,
        stage is Readback && (event matches HardenEvent::Printed(o) && acl::refusal(o@, grant) is Some)
            ==> next is RollBack,
        stage is RollBack ==> next is Refused,
{
}

/// **Law: a step that fails is told.** A failure ends in a refusal, or in the removal that comes before one,
/// and what is told holds what the machine said; a directory that could not be created is refused with the
/// machine's own error, and one that could not be removed for want of permission.
pub proof fn law_a_failed_step_is_told(
    stage: HardenStage,
    e: Error,
    dir: Seq<char>,
    grant: Option<Seq<char>>,
    next: HardenStage,
)
    requires
        stage.admits(HardenEvent::Failed(e)),
        stage.leads_to(HardenEvent::Failed(e), dir, grant, next),
    ensures
        stage is Create ==> next == HardenStage::Refused(e),
        stage is Purge ==> (next matches HardenStage::Refused(r) && r.kind == ErrorKind::PermissionDenied
            && text::has(r.message@, e.message@) && text::has(r.message@, dir)),
        stage is SetOwner || stage is Reset || stage is Lockdown || stage is Readback ==> (
        next matches HardenStage::RollBack(m) && text::has(m@, e.message@)),
        stage matches HardenStage::RollBack(m) ==> (next matches HardenStage::Refused(r) && r.message@ == m@),
{
    let why = e.message@;
    let a = "state dir "@;
    let b = " pre-existed with an untrusted/unknown owner and could not be purged ("@;
    let c = "); refusing (fail closed)"@;
    text::law_parts_are_found(a, dir, b + why + c);
    assert(a + dir + (b + why + c) =~= not_purged(dir, why));
    text::law_parts_are_found(a + dir + b, why, c);
    assert(a + dir + b + why + c =~= not_purged(dir, why));
    text::law_parts_are_found("ACL lockdown FAILED ("@, why, "); removed the state dir (fail closed)"@);
    text::law_parts_are_found(
        "ACL readback verification FAILED ("@,
        why,
        "); removed the state dir (fail closed)"@,
    );
}

/// **Law: a directory is judged by its own readback.** Behind the readback only what was printed, or that it
/// failed, leads on; and what is done or refused stays so.
pub proof fn law_a_directory_is_judged_by_its_readback(
    event: HardenEvent,
    dir: Seq<char>,
    grant: Option<Seq<char>>,
    e: Error,
    next: HardenStage,
)
    ensures
        !(event is Printed) && !(event is Failed) ==> !HardenStage::Readback.leads_to(event, dir, grant, next),
        HardenStage::Readback.leads_to(event, dir, grant, next) ==> next is Done || next is RollBack,
        HardenStage::Done.leads_to(event, dir, grant, next) <==> next == HardenStage::Done,
        HardenStage::Refused(e).leads_to(event, dir, grant, next) <==> next == HardenStage::Refused(e),
{
}

} // verus!
