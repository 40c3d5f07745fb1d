//! Access-control lists of the state directory: what is applied, and what a readback must show.
use crate::text;
use vstd::prelude::*;

verus! {

/// LocalSystem: the daemon's account, and the owner that is enforced.
pub const SID_SYSTEM: &'static str = "S-1-5-18";

/// The administrators group.
pub const SID_ADMINISTRATORS: &'static str = "S-1-5-32-544";

/// Everyone.
pub const SID_EVERYONE: &'static str = "S-1-1-0";

/// Every authenticated account.
pub const SID_AUTHENTICATED_USERS: &'static str = "S-1-5-11";

/// Anonymous logons.
pub const SID_ANONYMOUS: &'static str = "S-1-5-7";

/// The users group.
pub const SID_USERS: &'static str = "S-1-5-32-545";

// ---- principals --------------------------------------------------------------------------------

/// Whether `sid` is a broad group that must never be granted anything on the directory.
pub open spec fn is_broad(sid: Seq<char>) -> bool {
    sid == SID_EVERYONE@ || sid == SID_AUTHENTICATED_USERS@ || sid == SID_ANONYMOUS@ || sid
        == SID_USERS@
}

/// Whether `sid` is a broad group that must never be granted anything on the directory.
pub fn is_dangerous_group_sid(sid: &str) -> (r: bool)
    ensures
        r == is_broad(sid@),
{
    text::same(sid, SID_EVERYONE) || text::same(sid, SID_AUTHENTICATED_USERS) || text::same(
        sid,
        SID_ANONYMOUS,
    ) || text::same(sid, SID_USERS)
}

/// Whether `sid` may not be the account that is granted read access: a broad group, or LocalSystem.
pub fn is_forbidden_grant_sid(sid: &str) -> (r: bool)
    ensures
        r == (is_broad(sid@) || sid@ == SID_SYSTEM@),
{
    is_dangerous_group_sid(sid) || text::same(sid, SID_SYSTEM)
}

/// Whether a field of the listing is a SID.
pub open spec fn looks_like_sid(field: Seq<char>) -> bool {
    text::starts(field, "S-1-"@) && text::byte_len(field) > 6
}

/// The first field, without surrounding white space, that is a SID.
pub open spec fn first_sid(fields: Seq<Seq<char>>) -> Option<Seq<char>>
    decreases fields.len(),
{
    if fields.len() == 0 {
        None
    } else if looks_like_sid(text::trimmed(fields[0])) {
        Some(text::trimmed(fields[0]))
    } else {
        first_sid(fields.skip(1))
    }
}

/// The characters that part the fields of the listing.
pub const LISTING_SEPARATORS: &'static str = ",\"\r\n \t";

/// The SID in the output of `whoami /user /fo csv /nh`.
pub open spec fn whoami_sid(output: Seq<char>) -> Option<Seq<char>> {
    first_sid(text::pieces(output, LISTING_SEPARATORS@))
}

/// The SID in the output of `whoami /user /fo csv /nh`: its first field that is one.
pub fn parse_whoami_csv_sid(output: &str) -> (r: Option<String>)
    ensures
        text::opt_view(r) == whoami_sid(output@),
{
    let fields = text::split_any(output, LISTING_SEPARATORS);
    let ghost all = text::views(fields@);
    let mut i: usize = 0;
    proof {
        assert(all.skip(0) =~= all);
    }
    while i < fields.len()
        invariant
            i <= fields@.len(),
            all == text::views(fields@),
            all == text::pieces(output@, LISTING_SEPARATORS@),
            first_sid(all) == first_sid(all.skip(i as int)),
        decreases fields@.len() - i,
    {
        let f = text::trim(fields[i].as_str());
        proof {
            assert(all.skip(i as int)[0] == fields@[i as int]@);
            assert(all.skip(i as int).skip(1) =~= all.skip(i + 1));
        }
        if text::starts_with(f.as_str(), "S-1-") && f.as_str().len() > 6 {
            return Some(f);
        }
        i += 1;
    }
    None
}

/// The account of the process, when it may be granted read access. `whoami` is what the command
/// printed, when it succeeded.
pub open spec fn grantable_sid(whoami: Option<Seq<char>>) -> Option<Seq<char>> {
    match whoami {
        Some(output) => match whoami_sid(output) {
            Some(sid) => if is_broad(sid) || sid == SID_SYSTEM@ {
                None
            } else {
                Some(sid)
            },
            None => None,
        },
        None => None,
    }
}

/// The account of the process, when it may be granted read access.
pub fn current_user_sid(whoami: Option<&str>) -> (r: Option<String>)
    ensures
        text::opt_view(r) == grantable_sid(text::opt_str_view(whoami)),
{
    match whoami {
        Some(output) => match parse_whoami_csv_sid(output) {
            Some(sid) => if is_forbidden_grant_sid(sid.as_str()) {
                None
            } else {
                Some(sid)
            },
            None => None,
        },
        None => None,
    }
}

// ---- commands ----------------------------------------------------------------------------------

/// The arguments by which `icacls` forces LocalSystem to own `dir` and everything in it.
pub fn setowner_system_args(dir: &str) -> (r: Vec<String>)
    ensures
        text::views(r@) == seq![
            dir@,
            "/setowner"@,
            "*"@ + SID_SYSTEM@,
            "/T"@,
            "/C"@,
            "/Q"@,
        ],
{
    let mut owner = "*".to_owned();
    owner.append(SID_SYSTEM);
    let mut out: Vec<String> = Vec::new();
    out.push(dir.to_owned());
    out.push("/setowner".to_owned());
    out.push(owner);
    out.push("/T".to_owned());
    out.push("/C".to_owned());
    out.push("/Q".to_owned());
    proof {
        assert(text::views(out@) =~= seq![
            dir@,
            "/setowner"@,
            "*"@ + SID_SYSTEM@,
            "/T"@,
            "/C"@,
            "/Q"@,
        ]);
    }
    out
}

/// The arguments by which `icacls` drops every explicit entry of `dir` and everything in it.
pub fn reset_dacl_args(dir: &str) -> (r: Vec<String>)
    ensures
        text::views(r@) == seq![dir@, "/reset"@, "/T"@, "/C"@, "/Q"@],
{
    let mut out: Vec<String> = Vec::new();
    out.push(dir.to_owned());
    out.push("/reset".to_owned());
    out.push("/T".to_owned());
    out.push("/C".to_owned());
    out.push("/Q".to_owned());
    proof {
        assert(text::views(out@) =~= seq![dir@, "/reset"@, "/T"@, "/C"@, "/Q"@]);
    }
    out
}

/// The grant of `rights` to `sid`, inherited by files and directories.
pub open spec fn grant_to(sid: Seq<char>, rights: Seq<char>) -> Seq<char> {
    "*"@ + sid + ":(OI)(CI)"@ + rights
}

/// The grant of `rights` to `sid`, inherited by files and directories.
fn grant(sid: &str, rights: &str) -> (r: String)
    ensures
        r@ == grant_to(sid@, rights@),
{
    let mut out = "*".to_owned();
    out.append(sid);
    out.append(":(OI)(CI)");
    out.append(rights);
    out
}

/// The arguments that replace the list of `dir` by full access for LocalSystem and the
/// administrators, and `rights` for one further account.
pub open spec fn replacing_args(
    dir: Seq<char>,
    account: Option<Seq<char>>,
    rights: Seq<char>,
) -> Seq<Seq<char>> {
    let base = seq![
        dir,
        "/inheritance:r"@,
        "/grant:r"@,
        grant_to(SID_SYSTEM@, "F"@),
        "/grant:r"@,
        grant_to(SID_ADMINISTRATORS@, "F"@),
    ];
    match account {
        Some(sid) => base + seq!["/grant:r"@, grant_to(sid, rights)],
        None => base,
    }
}

/// The arguments that replace the list of `dir`.
fn replace_args(dir: &str, account: Option<&str>, rights: &str) -> (r: Vec<String>)
    ensures
        text::views(r@) == replacing_args(dir@, text::opt_str_view(account), rights@),
{
    let mut out: Vec<String> = Vec::new();
    out.push(dir.to_owned());
    out.push("/inheritance:r".to_owned());
    out.push("/grant:r".to_owned());
    out.push(grant(SID_SYSTEM, "F"));
    out.push("/grant:r".to_owned());
    out.push(grant(SID_ADMINISTRATORS, "F"));
    if let Some(sid) = account {
        out.push("/grant:r".to_owned());
        out.push(grant(sid, rights));
    }
    proof {
        assert(text::views(out@) =~= replacing_args(dir@, text::opt_str_view(account), rights@));
    }
    out
}

/// The arguments by which `icacls` replaces the list of `dir`: full access for LocalSystem and the
/// administrators, and read access alone for the account given.
pub fn windows_lockdown_grant_args(dir: &str, read_grant: Option<&str>) -> (r: Vec<String>)
    ensures
        text::views(r@) == replacing_args(dir@, text::opt_str_view(read_grant), "R"@),
{
    replace_args(dir, read_grant, "R")
}

/// The arguments of the best-effort grant on a directory this process has just created: it has to
/// write the token there, so its own account gets full access until a service run secures the
/// directory.
pub fn windows_fresh_grant_args(dir: &str, account: Option<&str>) -> (r: Vec<String>)
    ensures
        text::views(r@) == replacing_args(dir@, text::opt_str_view(account), "F"@),
{
    replace_args(dir, account, "F")
}

/// The command whose output names the directory's owner and each entry, by SID.
pub open spec fn verify_command(dir: Seq<char>) -> Seq<char> {
    "$ErrorActionPreference='Stop'; $acl = Get-Acl -LiteralPath '"@ + text::doubled(dir, '\'')
        + "'; 'OWNER;' + $acl.GetOwner([System.Security.Principal.SecurityIdentifier]).Value; foreach ($a in $acl.Access) { 'ACE;' + $a.IdentityReference.Translate([System.Security.Principal.SecurityIdentifier]).Value + ';' + $a.IsInherited }"@
}

/// The command whose output names the directory's owner and each entry, by SID. A single quote in
/// the path is doubled, so that the path stays one literal.
pub fn acl_verify_ps_command(dir: &str) -> (r: String)
    ensures
        r@ == verify_command(dir@),
{
    let mut out = "$ErrorActionPreference='Stop'; $acl = Get-Acl -LiteralPath '".to_owned();
    out.append(text::double(dir, '\'').as_str());
    out.append(
        "'; 'OWNER;' + $acl.GetOwner([System.Security.Principal.SecurityIdentifier]).Value; foreach ($a in $acl.Access) { 'ACE;' + $a.IdentityReference.Translate([System.Security.Principal.SecurityIdentifier]).Value + ';' + $a.IsInherited }",
    );
    out
}

/// The command whose output is the owner of a path, by SID.
pub fn owner_ps_command(path: &str) -> (r: String)
    ensures
        r@ == "(Get-Acl -LiteralPath '"@ + text::doubled(path@, '\'')
            + "').GetOwner([System.Security.Principal.SecurityIdentifier]).Value"@,
{
    let mut out = "(Get-Acl -LiteralPath '".to_owned();
    out.append(text::double(path, '\'').as_str());
    out.append("').GetOwner([System.Security.Principal.SecurityIdentifier]).Value");
    out
}

/// The owner in the output of [`owner_ps_command`], when it is a SID.
pub fn parse_owner_sid(output: &str) -> (r: Option<String>)
    ensures
        text::opt_view(r) == if text::starts(text::trimmed(output@), "S-1-"@) {
            Some(text::trimmed(output@))
        } else {
            None
        },
{
    let s = text::trim(output);
    if text::starts_with(s.as_str(), "S-1-") {
        Some(s)
    } else {
        None
    }
}

// ---- the readback ------------------------------------------------------------------------------

/// The owner that a line of the readback names.
pub open spec fn owner_in(line: Seq<char>) -> Option<Seq<char>> {
    let t = text::trimmed(line);
    if text::starts(t, "OWNER;"@) {
        Some(text::trimmed(t.skip("OWNER;"@.len() as int)))
    } else {
        None
    }
}

/// The entry that a line of the readback names: the SID and whether the entry is inherited. A line
/// that names the owner, or no SID, names no entry.
pub open spec fn entry_in(line: Seq<char>) -> Option<(Seq<char>, bool)> {
    let t = text::trimmed(line);
    if text::starts(t, "OWNER;"@) || !text::starts(t, "ACE;"@) {
        None
    } else {
        let parts = text::pieces(t.skip("ACE;"@.len() as int), ";"@);
        let sid = if parts.len() > 0 {
            text::trimmed(parts[0])
        } else {
            Seq::empty()
        };
        let inherited = if parts.len() > 1 {
            text::trimmed(parts[1])
        } else {
            Seq::empty()
        };
        if sid.len() == 0 {
            None
        } else {
            Some((sid, text::same_but_ascii_case(inherited, "true"@)))
        }
    }
}

/// Why an entry is refused on sight.
pub open spec fn fault_in(line: Seq<char>) -> Option<Seq<char>> {
    match entry_in(line) {
        Some((sid, inherited)) => if inherited {
            Some("inheritance is NOT disabled — inherited ACE present for "@ + sid)
        } else if is_broad(sid) {
            Some(
                "DACL grants a world/group principal ("@ + sid
                    + ") — the token dir must not be group-readable"@,
            )
        } else {
            None
        },
        None => None,
    }
}

/// The first fault among the lines.
pub open spec fn first_fault(lines: Seq<Seq<char>>) -> Option<Seq<char>>
    decreases lines.len(),
{
    if lines.len() == 0 {
        None
    } else {
        match first_fault(lines.drop_last()) {
            Some(m) => Some(m),
            None => fault_in(lines.last()),
        }
    }
}

/// The owner the lines name; the last one counts.
pub open spec fn owner_named(lines: Seq<Seq<char>>) -> Option<Seq<char>>
    decreases lines.len(),
{
    if lines.len() == 0 {
        None
    } else {
        match owner_in(lines.last()) {
            Some(o) => Some(o),
            None => owner_named(lines.drop_last()),
        }
    }
}

/// The principals the lines grant something to, in order.
pub open spec fn principals(lines: Seq<Seq<char>>) -> Seq<Seq<char>>
    decreases lines.len(),
{
    if lines.len() == 0 {
        Seq::empty()
    } else {
        let prior = principals(lines.drop_last());
        match entry_in(lines.last()) {
            Some((sid, _)) => prior.push(sid),
            None => prior,
        }
    }
}

/// Whether `sid` may stand in the list.
pub open spec fn may_stand(sid: Seq<char>, read_grant: Option<Seq<char>>) -> bool {
    sid == SID_SYSTEM@ || sid == SID_ADMINISTRATORS@ || read_grant == Some(sid)
}

/// The first principal that may not stand in the list.
pub open spec fn first_stranger(
    sids: Seq<Seq<char>>,
    read_grant: Option<Seq<char>>,
) -> Option<Seq<char>>
    decreases sids.len(),
{
    if sids.len() == 0 {
        None
    } else {
        match first_stranger(sids.drop_last(), read_grant) {
            Some(s) => Some(s),
            None => if may_stand(sids.last(), read_grant) {
                None
            } else {
                Some(sids.last())
            },
        }
    }
}

/// Why the readback is refused, or nothing when the list is as it must be.
pub open spec fn refusal(output: Seq<char>, read_grant: Option<Seq<char>>) -> Option<Seq<char>> {
    let lines = text::lines_of(output);
    let sids = principals(lines);
    if first_fault(lines) is Some {
        first_fault(lines)
    } else {
        match owner_named(lines) {
            None => Some("could not read the directory owner"@),
            Some(owner) => if owner != SID_SYSTEM@ && owner != SID_ADMINISTRATORS@ {
                Some(
                    "owner is "@ + owner + ", expected SYSTEM ("@ + SID_SYSTEM@
                        + ") or Administrators ("@ + SID_ADMINISTRATORS@ + ")"@,
                )
            } else if !sids.contains(SID_SYSTEM@) {
                Some("DACL is missing the required ACE for "@ + SID_SYSTEM@)
            } else if !sids.contains(SID_ADMINISTRATORS@) {
                Some("DACL is missing the required ACE for "@ + SID_ADMINISTRATORS@)
            } else if read_grant is Some && !sids.contains(read_grant->0) {
                Some("DACL is missing the interactive read grant for "@ + read_grant->0)
            } else {
                match first_stranger(sids, read_grant) {
                    Some(sid) => Some(
                        "DACL grants an unexpected principal ("@ + sid
                            + ") — only SYSTEM, Administrators, and the interactive read grant are permitted"@,
                    ),
                    None => None,
                }
            },
        }
    }
}

/// The owner that a line of the readback names.
fn read_owner(line: &str) -> (r: Option<String>)
    ensures
        text::opt_view(r) == owner_in(line@),
{
    let t = text::trim(line);
    match text::strip_prefix(t.as_str(), "OWNER;") {
        Some(rest) => Some(text::trim(rest.as_str())),
        None => None,
    }
}

/// The entry that a line of the readback names.
fn read_entry(line: &str) -> (r: Option<(String, bool)>)
    ensures
        r is Some <==> entry_in(line@) is Some,
        r matches Some(e) ==> entry_in(line@) == Some((e.0@, e.1)),
{
    let t = text::trim(line);
    if text::starts_with(t.as_str(), "OWNER;") {
        return None;
    }
    match text::strip_prefix(t.as_str(), "ACE;") {
        Some(rest) => {
            let parts = text::split_any(rest.as_str(), ";");
            let ghost ps = text::pieces(rest@, ";"@);
            proof {
                assert(text::views(parts@) == ps);
                assert(forall|k: int| 0 <= k < parts@.len() ==> ps[k] == #[trigger] parts@[k]@);
            }
            let sid = if parts.len() > 0 {
                text::trim(parts[0].as_str())
            } else {
                String::new()
            };
            let inherited = if parts.len() > 1 {
                text::trim(parts[1].as_str())
            } else {
                String::new()
            };
            if sid.as_str().is_empty() {
                None
            } else {
                let flag = text::eq_ignore_ascii_case(inherited.as_str(), "true");
                Some((sid, flag))
            }
        },
        None => None,
    }
}

proof fn lemma_fault_stands(lines: Seq<Seq<char>>, i: int)
    requires
        0 <= i <= lines.len(),
        first_fault(lines.take(i)) is Some,
    ensures
        first_fault(lines) == first_fault(lines.take(i)),
    decreases lines.len() - i,
{
    if i < lines.len() {
        assert(lines.take(i + 1).drop_last() =~= lines.take(i));
        lemma_fault_stands(lines, i + 1);
    } else {
        assert(lines.take(i) =~= lines);
    }
}

proof fn lemma_stranger_stands(sids: Seq<Seq<char>>, g: Option<Seq<char>>, i: int)
    requires
        0 <= i <= sids.len(),
        first_stranger(sids.take(i), g) is Some,
    ensures
        first_stranger(sids, g) == first_stranger(sids.take(i), g),
    decreases sids.len() - i,
{
    if i < sids.len() {
        assert(sids.take(i + 1).drop_last() =~= sids.take(i));
        lemma_stranger_stands(sids, g, i + 1);
    } else {
        assert(sids.take(i) =~= sids);
    }
}

/// Hold a readback against what the list must be: owned by LocalSystem or the administrators, nothing
/// inherited, no broad group, both required principals and the read grant present, and no further
/// principal.
pub fn parse_acl_verify(output: &str, read_grant: Option<&str>) -> (r: Result<(), String>)
    ensures
        r is Ok <==> refusal(output@, text::opt_str_view(read_grant)) is None,
        r matches Err(e) ==> refusal(output@, text::opt_str_view(read_grant)) == Some(e@),
{
    let lines = text::lines(output);
    let ghost all = text::views(lines@);
    let ghost g = text::opt_str_view(read_grant);
    let mut owner: Option<String> = None;
    let mut sids: Vec<String> = Vec::new();
    let mut i: usize = 0;
    proof {
        assert(text::views(sids@) =~= principals(all.take(0)));
    }
    while i < lines.len()
        invariant
            i <= lines@.len(),
            all == text::views(lines@),
            all == text::lines_of(output@),
            g == text::opt_str_view(read_grant),
            text::opt_view(owner) == owner_named(all.take(i as int)),
            text::views(sids@) == principals(all.take(i as int)),
            first_fault(all.take(i as int)) is None,
        decreases lines@.len() - i,
    {
        let line = lines[i].as_str();
        let ghost part = all.take(i + 1);
        proof {
            assert(part.drop_last() =~= all.take(i as int));
            assert(part.last() == line@);
        }
        let named = read_owner(line);
        let entry = read_entry(line);
        if let Some(o) = named {
            owner = Some(o);
        }
        if let Some((sid, inherited)) = entry {
            if inherited {
                let mut m =
                    "inheritance is NOT disabled — inherited ACE present for ".to_owned();
                m.append(sid.as_str());
                proof {
                    lemma_fault_stands(all, i + 1);
                }
                return Err(m);
            }
            if is_dangerous_group_sid(sid.as_str()) {
                let mut m = "DACL grants a world/group principal (".to_owned();
                m.append(sid.as_str());
                m.append(") — the token dir must not be group-readable");
                proof {
                    lemma_fault_stands(all, i + 1);
                }
                return Err(m);
            }
            let ghost done = text::views(sids@);
            sids.push(sid);
            proof {
                assert(text::views(sids@) =~= done.push(sid@));
            }
        }
        i += 1;
    }
    proof {
        assert(all.take(all.len() as int) =~= all);
    }
    let owner = match owner {
        Some(o) => o,
        None => {
            return Err("could not read the directory owner".to_owned());
        },
    };
    if !text::same(owner.as_str(), SID_SYSTEM) && !text::same(owner.as_str(), SID_ADMINISTRATORS) {
        let mut m = "owner is ".to_owned();
        m.append(owner.as_str());
        m.append(", expected SYSTEM (");
        m.append(SID_SYSTEM);
        m.append(") or Administrators (");
        m.append(SID_ADMINISTRATORS);
        m.append(")");
        return Err(m);
    }
    if !text::list_contains(&sids, SID_SYSTEM) {
        let mut m = "DACL is missing the required ACE for ".to_owned();
        m.append(SID_SYSTEM);
        return Err(m);
    }
    if !text::list_contains(&sids, SID_ADMINISTRATORS) {
        let mut m = "DACL is missing the required ACE for ".to_owned();
        m.append(SID_ADMINISTRATORS);
        return Err(m);
    }
    if let Some(sid) = read_grant {
        if !text::list_contains(&sids, sid) {
            let mut m = "DACL is missing the interactive read grant for ".to_owned();
            m.append(sid);
            return Err(m);
        }
    }
    let ghost granted = text::views(sids@);
    let mut k: usize = 0;
    proof {
        assert(granted.take(granted.len() as int) =~= granted);
    }
    while k < sids.len()
        invariant
            k <= sids@.len(),
            granted == text::views(sids@),
            granted.take(granted.len() as int) == granted,
            g == text::opt_str_view(read_grant),
            first_stranger(granted.take(k as int), g) is None,
        ensures
            k <= sids@.len(),
            k < sids@.len() ==> first_stranger(granted, g) == Some(sids@[k as int]@),
            k == sids@.len() ==> first_stranger(granted, g) is None,
        decreases sids@.len() - k,
    {
        let sid = sids[k].as_str();
        proof {
            assert(granted.take(k + 1).drop_last() =~= granted.take(k as int));
            assert(granted.take(k + 1).last() == sid@);
        }
        let is_grant = match read_grant {
            Some(r) => text::same(r, sid),
            None => false,
        };
        if !(text::same(sid, SID_SYSTEM) || text::same(sid, SID_ADMINISTRATORS) || is_grant) {
            proof {
                lemma_stranger_stands(granted, g, k + 1);
            }
            break;
        }
        k += 1;
    }
    if k < sids.len() {
        let mut m = "DACL grants an unexpected principal (".to_owned();
        m.append(sids[k].as_str());
        m.append(
            ") — only SYSTEM, Administrators, and the interactive read grant are permitted",
        );
        return Err(m);
    }
    Ok(())
}

/// The read grant to preserve: the first entry's SID, without surrounding white space, that is an
/// account of a domain or machine and no broad group.
pub open spec fn preservable(lines: Seq<Seq<char>>) -> Option<Seq<char>>
    decreases lines.len(),
{
    if lines.len() == 0 {
        None
    } else {
        match preservable(lines.drop_last()) {
            Some(s) => Some(s),
            None => match account_in(lines.last()) {
                Some(s) => Some(s),
                None => None,
            },
        }
    }
}

/// The account that a line of the readback grants something to, when it is one of a domain or
/// machine.
pub open spec fn account_in(line: Seq<char>) -> Option<Seq<char>> {
    let t = text::trimmed(line);
    if !text::starts(t, "ACE;"@) {
        None
    } else {
        let parts = text::pieces(t.skip("ACE;"@.len() as int), ";"@);
        let sid = if parts.len() > 0 {
            text::trimmed(parts[0])
        } else {
            Seq::empty()
        };
        if text::starts(sid, "S-1-5-21-"@) && sid != SID_SYSTEM@ && sid != SID_ADMINISTRATORS@
            && !is_broad(sid) {
            Some(sid)
        } else {
            None
        }
    }
}

proof fn lemma_preservable_stands(lines: Seq<Seq<char>>, i: int)
    requires
        0 <= i <= lines.len(),
        preservable(lines.take(i)) is Some,
    ensures
        preservable(lines) == preservable(lines.take(i)),
    decreases lines.len() - i,
{
    if i < lines.len() {
        assert(lines.take(i + 1).drop_last() =~= lines.take(i));
        lemma_preservable_stands(lines, i + 1);
    } else {
        assert(lines.take(i) =~= lines);
    }
}

/// The interactive account's read grant found on a trusted directory, to be kept when a service run
/// secures it.
pub fn parse_first_user_read_sid(output: &str) -> (r: Option<String>)
    ensures
        text::opt_view(r) == preservable(text::lines_of(output@)),
{
    let lines = text::lines(output);
    let ghost all = text::views(lines@);
    let mut i: usize = 0;
    while i < lines.len()
        invariant
            i <= lines@.len(),
            all == text::views(lines@),
            all == text::lines_of(output@),
            preservable(all.take(i as int)) is None,
        decreases lines@.len() - i,
    {
        proof {
            assert(all.take(i + 1).drop_last() =~= all.take(i as int));
            assert(all.take(i + 1).last() == lines@[i as int]@);
        }
        let t = text::trim(lines[i].as_str());
        if let Some(rest) = text::strip_prefix(t.as_str(), "ACE;") {
            let parts = text::split_any(rest.as_str(), ";");
            proof {
                let ps = text::pieces(rest@, ";"@);
                assert(text::views(parts@) == ps);
                assert(forall|k: int| 0 <= k < parts@.len() ==> ps[k] == #[trigger] parts@[k]@);
            }
            let sid = if parts.len() > 0 {
                text::trim(parts[0].as_str())
            } else {
                String::new()
            };
            if text::starts_with(sid.as_str(), "S-1-5-21-") && !text::same(
                sid.as_str(),
                SID_SYSTEM,
            ) && !text::same(sid.as_str(), SID_ADMINISTRATORS) && !is_dangerous_group_sid(
                sid.as_str(),
            ) {
                proof {
                    lemma_preservable_stands(all, i + 1);
                }
                return Some(sid);
            }
        }
        i += 1;
    }
    proof {
        assert(all.take(all.len() as int) =~= all);
    }
    None
}

/// Whether the owner of a path is one whose settings are trusted: LocalSystem or the administrators.
pub open spec fn owner_trusted(owner: Option<Seq<char>>) -> bool {
    owner == Some(SID_SYSTEM@) || owner == Some(SID_ADMINISTRATORS@)
}

/// Whether the owner of a path is one whose settings are trusted.
pub fn is_trusted_owner(owner: Option<&str>) -> (r: bool)
    ensures
        r == owner_trusted(text::opt_str_view(owner)),
{
    match owner {
        Some(o) => text::same(o, SID_SYSTEM) || text::same(o, SID_ADMINISTRATORS),
        None => false,
    }
}

/// The read grant to keep from a directory that is there already: only from one with a trusted owner,
/// and only when the list could be read.
pub fn discover_existing_read_grant(
    is_dir: bool,
    owner: Option<&str>,
    readback: Option<&str>,
) -> (r: Option<String>)
    ensures
        text::opt_view(r) == if is_dir && owner_trusted(text::opt_str_view(owner)) {
            match text::opt_str_view(readback) {
                Some(output) => preservable(text::lines_of(output)),
                None => None,
            }
        } else {
            None
        },
{
    if !is_dir || !is_trusted_owner(owner) {
        return None;
    }
    match readback {
        Some(output) => parse_first_user_read_sid(output),
        None => None,
    }
}

// ---- laws --------------------------------------------------------------------------------------

proof fn lemma_no_fault_no_broad(lines: Seq<Seq<char>>)
    requires
        first_fault(lines) is None,
    ensures
        forall|i: int| 0 <= i < principals(lines).len() ==> !is_broad(#[trigger] principals(lines)[i]),
        forall|i: int|
            0 <= i < lines.len() ==> (entry_in(#[trigger] lines[i]) matches Some((_, inherited))
                ==> !inherited),
    decreases lines.len(),
{
    if lines.len() > 0 {
        let prior = lines.drop_last();
        lemma_no_fault_no_broad(prior);
        assert forall|i: int| 0 <= i < lines.len() implies (entry_in(
            #[trigger] lines[i],
        ) matches Some((_, inherited)) ==> !inherited) by {
            if i < prior.len() {
                assert(lines[i] == prior[i]);
            }
        }
        let before = principals(prior);
        let now = principals(lines);
        assert forall|i: int| 0 <= i < now.len() implies !is_broad(#[trigger] now[i]) by {
            if i < before.len() {
                assert(now[i] == before[i]);
            }
        }
    }
}

proof fn lemma_no_stranger(sids: Seq<Seq<char>>, g: Option<Seq<char>>)
    requires
        first_stranger(sids, g) is None,
    ensures
        forall|i: int| 0 <= i < sids.len() ==> may_stand(#[trigger] sids[i], g),
    decreases sids.len(),
{
    if sids.len() > 0 {
        let prior = sids.drop_last();
        lemma_no_stranger(prior, g);
        assert forall|i: int| 0 <= i < sids.len() implies may_stand(#[trigger] sids[i], g) by {
            if i < prior.len() {
                assert(sids[i] == prior[i]);
            }
        }
    }
}

/// An accepted readback shows a tight list: a trusted owner, nothing inherited, no broad group, both
/// required principals, the read grant when one was asked for, and nobody else.
pub proof fn law_accepted_list_is_tight(output: Seq<char>, read_grant: Option<Seq<char>>)
    requires
        refusal(output, read_grant) is None,
    ensures
        ({
            let lines = text::lines_of(output);
            let sids = principals(lines);
            &&& owner_trusted(owner_named(lines))
            &&& sids.contains(SID_SYSTEM@)
            &&& sids.contains(SID_ADMINISTRATORS@)
            &&& read_grant matches Some(g) ==> sids.contains(g)
            &&& forall|i: int|
                0 <= i < sids.len() ==> may_stand(#[trigger] sids[i], read_grant) && !is_broad(
                    sids[i],
                )
            &&& forall|i: int|
                0 <= i < lines.len() ==> (entry_in(#[trigger] lines[i]) matches Some((_, inherited))
                    ==> !inherited)
        }),
{
    let lines = text::lines_of(output);
    lemma_no_fault_no_broad(lines);
    lemma_no_stranger(principals(lines), read_grant);
}

/// An account that may be granted read access is never a broad group nor LocalSystem, whatever the
/// listing says.
pub proof fn law_grantable_account_is_no_group(whoami: Option<Seq<char>>)
    ensures
        grantable_sid(whoami) matches Some(sid) ==> !is_broad(sid) && sid != SID_SYSTEM@,
{
}

/// **Law: which groups are broad.** Everyone, every authenticated account, anonymous logons and the users
/// group; no account of a machine or a domain is, nor is LocalSystem or the administrators group.
pub proof fn law_which_groups_are_broad(sid: Seq<char>)
    ensures
        is_broad(sid) <==> sid == "S-1-1-0"@ || sid == "S-1-5-11"@ || sid == "S-1-5-7"@ || sid
            == "S-1-5-32-545"@,
        text::starts(sid, "S-1-5-21-"@) ==> !is_broad(sid),
        !is_broad("S-1-5-18"@),
        !is_broad("S-1-5-32-544"@),
        owner_trusted(Some(sid)) <==> sid == "S-1-5-18"@ || sid == "S-1-5-32-544"@,
        !owner_trusted(None),
{
    reveal_strlit("S-1-1-0");
    reveal_strlit("S-1-5-11");
    reveal_strlit("S-1-5-7");
    reveal_strlit("S-1-5-32-545");
    reveal_strlit("S-1-5-21-");
    reveal_strlit("S-1-5-18");
    reveal_strlit("S-1-5-32-544");
    text::law_parts_are_found(sid, "S-1-5-21-"@, Seq::empty());
    if text::starts(sid, "S-1-5-21-"@) {
        assert(sid[6] == "S-1-5-21-"@[6] && sid.len() >= 9);
        assert("S-1-5-21-"@[6] == '2' && "S-1-5-32-545"@[6] == '3');
    }
    assert("S-1-5-18"@[7] == '8' && "S-1-5-11"@[7] == '1');
    assert("S-1-5-18"@.len() == 8 && "S-1-1-0"@.len() == 7 && "S-1-5-11"@.len() == 8 && "S-1-5-7"@.len() == 7);
    assert("S-1-5-32-545"@.len() == 12 && "S-1-5-32-544"@.len() == 12);
    assert("S-1-5-32-544"@[11] == '4' && "S-1-5-32-545"@[11] == '5');
}

/// **Law: the first identifier of a listing is the account.** It is the first field that, without the white
/// space around it, begins as an identifier and is long enough to be one; a listing without one names no
/// account.
pub proof fn law_the_first_identifier_is_the_account(fields: Seq<Seq<char>>)
    ensures
        first_sid(fields) matches Some(s) ==> text::starts(s, "S-1-"@) && text::byte_len(s) > 6 && exists|k: int|
            0 <= k < fields.len() && s == text::trimmed(#[trigger] fields[k]) && forall|j: int|
                0 <= j < k ==> !looks_like_sid(text::trimmed(#[trigger] fields[j])),
        first_sid(fields) is None ==> forall|k: int|
            0 <= k < fields.len() ==> !(text::starts(text::trimmed(#[trigger] fields[k]), "S-1-"@)
                && text::byte_len(text::trimmed(fields[k])) > 6),
    decreases fields.len(),
{
    if fields.len() > 0 {
        let rest = fields.skip(1);
        law_the_first_identifier_is_the_account(rest);
        if looks_like_sid(text::trimmed(fields[0])) {
            assert(first_sid(fields) == Some(text::trimmed(fields[0])));
        } else {
            if first_sid(rest) is Some {
                let s = first_sid(rest)->0;
                let k = choose|k: int|
                    0 <= k < rest.len() && s == text::trimmed(#[trigger] rest[k]) && forall|j: int|
                        0 <= j < k ==> !looks_like_sid(text::trimmed(#[trigger] rest[j]));
                assert(fields[k + 1] == rest[k]);
                assert forall|j: int| 0 <= j < k + 1 implies !looks_like_sid(
                    text::trimmed(#[trigger] fields[j]),
                ) by {
                    if j > 0 {
                        assert(rest[j - 1] == fields[j]);
                    }
                }
            } else {
                assert forall|k: int| 0 <= k < fields.len() implies !(text::starts(
                    text::trimmed(#[trigger] fields[k]),
                    "S-1-"@,
                ) && text::byte_len(text::trimmed(fields[k])) > 6) by {
                    if k > 0 {
                        assert(rest[k - 1] == fields[k]);
                    } else {
                        assert(!looks_like_sid(text::trimmed(fields[0])));
                    }
                }
            }
        }
    }
}

/// **Law: who may be granted read access.** The account that the listing names, unless it is a broad group
/// or LocalSystem; without a listing, nobody.
pub proof fn law_who_may_be_granted(output: Seq<char>, sid: Seq<char>)
    ensures
        grantable_sid(None) is None,
        grantable_sid(Some(output)) == Some(sid) <==> whoami_sid(output) == Some(sid) && sid != "S-1-5-18"@ && sid
            != "S-1-1-0"@ && sid != "S-1-5-11"@ && sid != "S-1-5-7"@ && sid != "S-1-5-32-545"@,
        whoami_sid(output) == first_sid(text::pieces(output, ",\"\r\n \t"@)),
{
}

/// **Law: what the directory is locked down to.** The list is of that directory, inherits nothing, and gives
/// everything to LocalSystem and to the administrators, and to the named account, where there is one, the
/// named rights alone; and to nobody else.
pub proof fn law_what_the_directory_is_locked_down_to(
    dir: Seq<char>,
    account: Option<Seq<char>>,
    rights: Seq<char>,
)
    ensures
        ({
            let args = replacing_args(dir, account, rights);
            &&& args.len() == (if account is Some {
                8int
            } else {
                6
            })
            &&& args[0] == dir
            &&& args[1] == "/inheritance:r"@
            &&& args[2] == "/grant:r"@ && args[3] == "*"@ + "S-1-5-18"@ + ":(OI)(CI)"@ + "F"@
            &&& args[4] == "/grant:r"@ && args[5] == "*"@ + "S-1-5-32-544"@ + ":(OI)(CI)"@ + "F"@
            &&& account matches Some(sid) ==> args[6] == "/grant:r"@ && args[7] == "*"@ + sid + ":(OI)(CI)"@
                + rights
        }),
{
}

/// **Law: a quote in a path is doubled.** The command that reads the list back holds the path with each
/// single quote written twice, and so the path as it is where it holds none.
pub proof fn law_a_quoted_path_stays_one_literal(dir: Seq<char>)
    ensures
        text::has(verify_command(dir), seq!['\''] + text::doubled(dir, '\'') + seq!['\'']),
        !dir.contains('\'') ==> text::has(verify_command(dir), dir),
{
    let a = "$ErrorActionPreference='Stop'; $acl = Get-Acl -LiteralPath '"@;
    let b = "'; 'OWNER;' + $acl.GetOwner([System.Security.Principal.SecurityIdentifier]).Value; foreach ($a in $acl.Access) { 'ACE;' + $a.IdentityReference.Translate([System.Security.Principal.SecurityIdentifier]).Value + ';' + $a.IsInherited }"@;
    reveal_strlit("$ErrorActionPreference='Stop'; $acl = Get-Acl -LiteralPath '");
    reveal_strlit(
        "'; 'OWNER;' + $acl.GetOwner([System.Security.Principal.SecurityIdentifier]).Value; foreach ($a in $acl.Access) { 'ACE;' + $a.IdentityReference.Translate([System.Security.Principal.SecurityIdentifier]).Value + ';' + $a.IsInherited }",
    );
    let d = text::doubled(dir, '\'');
    let q = seq!['\''];
    assert(a.last() == '\'' && b[0] == '\'');
    text::law_parts_are_found(a.drop_last(), q + d + q, b.skip(1));
    assert(a.drop_last() + (q + d + q) + b.skip(1) =~= verify_command(dir));
    text::law_parts_are_found(a, d, b);
    text::law_doubling_keeps_every_character(dir, '\'', 'a');
}

proof fn lemma_line_is_trimmed(line: Seq<char>)
    requires
        line.len() > 0,
        forall|i: int| 0 <= i < line.len() ==> 0x21 <= (#[trigger] line[i] as int) <= 0x7E,
    ensures
        text::trimmed(line) == line,
{
    text::law_trimming_keeps_what_is_trimmed(line);
}

/// **Law: how a line of the readback is read.** A line that begins with `OWNER;` names the owner that
/// stands behind it, and no entry. A line that begins with `ACE;` names the identifier up to the next
/// semicolon, and whether what is behind that is `True`; it names no owner.
#[verifier::rlimit(50)]
pub proof fn law_how_a_readback_is_read(sid: Seq<char>)
    requires
        sid.len() > 0,
        forall|i: int| 0 <= i < sid.len() ==> 0x21 <= (#[trigger] sid[i] as int) <= 0x7E && sid[i] != ';',
    ensures
        owner_in("OWNER;"@ + sid) == Some(sid),
        entry_in("OWNER;"@ + sid) is None,
        owner_in("ACE;"@ + sid + ";True"@) is None,
        entry_in("ACE;"@ + sid + ";True"@) == Some((sid, true)),
        entry_in("ACE;"@ + sid + ";False"@) == Some((sid, false)),
{
    reveal_strlit("OWNER;");
    reveal_strlit(";True");
    reveal_strlit(";False");
    reveal_strlit("true");
    reveal_strlit(";");
    reveal_strlit("True");
    reveal_strlit("False");
    let o = "OWNER;"@ + sid;
    lemma_line_is_trimmed(o);
    lemma_line_is_trimmed(sid);
    assert(o.skip(6) =~= sid);
    text::law_parts_are_found("OWNER;"@, sid, Seq::empty());
    lemma_entry_line(sid, "True"@);
    lemma_entry_line(sid, "False"@);
    assert(";True"@ =~= ";"@ + "True"@);
    assert(";False"@ =~= ";"@ + "False"@);
    assert("ACE;"@ + sid + ";True"@ =~= "ACE;"@ + sid + (";"@ + "True"@));
    assert("ACE;"@ + sid + ";False"@ =~= "ACE;"@ + sid + (";"@ + "False"@));
    assert(text::same_but_ascii_case("True"@, "true"@));
    assert("True"@.len() == 4 && "False"@.len() == 5 && "true"@.len() == 4);
    assert(!text::same_but_ascii_case("False"@, "true"@)) by {
        assert("False"@.len() != "true"@.len());
    }
}

proof fn lemma_two_pieces(a: Seq<char>, w: Seq<char>)
    requires
        !a.contains(';'),
        !w.contains(';'),
    ensures
        text::pieces(a + (";"@ + w), ";"@) == seq![a, w],
{
    reveal_strlit(";");
    let sep = ";"@;
    let rest = a + (sep + w);
    assert(sep =~= seq![';']);
    assert(sep.contains(';')) by {
        assert(sep[0] == ';');
    }
    assert forall|c: char| sep.contains(c) implies c == ';' by {}
    text::lemma_first_of(rest, sep);
    let k = text::first_of(rest, sep);
    assert(rest[a.len() as int] == ';');
    if k < a.len() {
        assert(rest[k] == a[k]);
        assert(a.contains(a[k]));
    }
    assert(rest.take(k) =~= a);
    assert(rest.skip(k + 1) =~= w);
    text::lemma_first_of(w, sep);
    let j = text::first_of(w, sep);
    if j < w.len() {
        assert(w.contains(w[j]));
    }
    assert(text::pieces(w, sep) =~= seq![w]);
    assert(text::pieces(rest, sep) =~= seq![a] + text::pieces(w, sep));
}

proof fn lemma_entry_text(sid: Seq<char>, word: Seq<char>)
    requires
        sid.len() > 0,
        forall|i: int| 0 <= i < sid.len() ==> 0x21 <= (#[trigger] sid[i] as int) <= 0x7E,
        word.len() > 0,
        forall|i: int| 0 <= i < word.len() ==> 0x21 <= (#[trigger] word[i] as int) <= 0x7E,
    ensures
        text::trimmed("ACE;"@ + sid + (";"@ + word)) == "ACE;"@ + sid + (";"@ + word),
        text::starts("ACE;"@ + sid + (";"@ + word), "ACE;"@),
        !text::starts("ACE;"@ + sid + (";"@ + word), "OWNER;"@),
        ("ACE;"@ + sid + (";"@ + word)).skip("ACE;"@.len() as int) == sid + (";"@ + word),
{
    reveal_strlit("OWNER;");
    reveal_strlit("ACE;");
    let line = "ACE;"@ + sid + (";"@ + word);
    assert(line[0] == 'A');
    assert(line.last() == word.last());
    text::law_trimming_keeps_what_is_trimmed(line);
    text::law_parts_are_found("ACE;"@, sid + (";"@ + word), Seq::empty());
    assert("ACE;"@ + (sid + (";"@ + word)) =~= line);
    text::law_parts_are_found(line, "OWNER;"@, Seq::empty());
    assert("OWNER;"@[0] == 'O');
    assert(line.skip(4) =~= sid + (";"@ + word));
}

proof fn lemma_entry_line(sid: Seq<char>, word: Seq<char>)
    requires
        sid.len() > 0,
        forall|i: int| 0 <= i < sid.len() ==> 0x21 <= (#[trigger] sid[i] as int) <= 0x7E && sid[i] != ';',
        word.len() > 0,
        forall|i: int| 0 <= i < word.len() ==> 0x21 <= (#[trigger] word[i] as int) <= 0x7E && word[i] != ';',
    ensures
        entry_in("ACE;"@ + sid + (";"@ + word)) == Some((sid, text::same_but_ascii_case(word, "true"@))),
        owner_in("ACE;"@ + sid + (";"@ + word)) is None,
        text::pieces(("ACE;"@ + sid + (";"@ + word)).skip("ACE;"@.len() as int), ";"@) == seq![sid, word],
        text::trimmed(sid) == sid,
{
    lemma_entry_text(sid, word);
    lemma_two_pieces(sid, word);
    lemma_line_is_trimmed(sid);
    lemma_line_is_trimmed(word);
}

/// **Law: who stands in the list.** The principals are those that a line names, each of them, and no other;
/// the owner is the one that the last line to name one names.
pub proof fn law_who_stands_in_the_list(lines: Seq<Seq<char>>, sid: Seq<char>)
    ensures
        principals(lines).contains(sid) <==> exists|i: int|
            0 <= i < lines.len() && (entry_in(#[trigger] lines[i]) matches Some((s, _)) && s == sid),
        owner_named(lines) == Some(sid) ==> exists|i: int|
            0 <= i < lines.len() && owner_in(#[trigger] lines[i]) == Some(sid) && forall|j: int|
                i < j < lines.len() ==> owner_in(#[trigger] lines[j]) is None,
        owner_named(lines) is None <==> forall|i: int| 0 <= i < lines.len() ==> owner_in(#[trigger] lines[i]) is None,
    decreases lines.len(),
{
    if lines.len() > 0 {
        let prior = lines.drop_last();
        law_who_stands_in_the_list(prior, sid);
        let p = principals(prior);
        if let Some((s, _)) = entry_in(lines.last()) {
            text::lemma_push_contains(p, s);
        }
        assert(lines.last() == lines[lines.len() - 1]);
        if exists|i: int| 0 <= i < prior.len() && (entry_in(#[trigger] prior[i]) matches Some((s, _)) && s == sid) {
            let i = choose|i: int|
                0 <= i < prior.len() && (entry_in(#[trigger] prior[i]) matches Some((s, _)) && s == sid);
            assert(lines[i] == prior[i]);
        }
        if exists|i: int| 0 <= i < lines.len() && (entry_in(#[trigger] lines[i]) matches Some((s, _)) && s == sid) {
            let i = choose|i: int|
                0 <= i < lines.len() && (entry_in(#[trigger] lines[i]) matches Some((s, _)) && s == sid);
            if i < prior.len() {
                assert(prior[i] == lines[i]);
            }
        }
        if owner_in(lines.last()) is None {
            if owner_named(prior) == Some(sid) {
                let i = choose|i: int|
                    0 <= i < prior.len() && owner_in(#[trigger] prior[i]) == Some(sid) && forall|j: int|
                        i < j < prior.len() ==> owner_in(#[trigger] prior[j]) is None;
                assert(lines[i] == prior[i]);
                assert forall|j: int| i < j < lines.len() implies owner_in(#[trigger] lines[j]) is None by {
                    if j < prior.len() {
                        assert(prior[j] == lines[j]);
                    }
                }
            }
            if owner_named(prior) is None {
                assert forall|i: int| 0 <= i < lines.len() implies owner_in(#[trigger] lines[i]) is None by {
                    if i < prior.len() {
                        assert(prior[i] == lines[i]);
                    }
                }
            } else {
                let i = choose|i: int| 0 <= i < prior.len() && owner_in(#[trigger] prior[i]) is Some;
                assert(lines[i] == prior[i]);
            }
        } else {
            assert(owner_in(lines[lines.len() - 1]) is Some);
        }
    }
}

/// **Law: a tight list is accepted.** Where the owner is trusted, nothing is inherited, both required
/// principals and the read grant stand in the list and nobody else does, the readback is accepted.
pub proof fn law_a_tight_list_is_accepted(output: Seq<char>, read_grant: Option<Seq<char>>)
    requires
        ({
            let lines = text::lines_of(output);
            let sids = principals(lines);
            &&& owner_named(lines) == Some("S-1-5-18"@) || owner_named(lines) == Some("S-1-5-32-544"@)
            &&& sids.contains("S-1-5-18"@)
            &&& sids.contains("S-1-5-32-544"@)
            &&& read_grant matches Some(g) ==> sids.contains(g) && !is_broad(g)
            &&& forall|i: int|
                0 <= i < lines.len() ==> (entry_in(#[trigger] lines[i]) matches Some((s, inherited))
                    ==> !inherited && (s == "S-1-5-18"@ || s == "S-1-5-32-544"@ || read_grant == Some(s)))
        }),
    ensures
        refusal(output, read_grant) is None,
{
    let lines = text::lines_of(output);
    law_which_groups_are_broad("S-1-5-18"@);
    lemma_no_fault(lines, read_grant);
    lemma_nobody_else(lines, read_grant);
}

proof fn lemma_no_fault(lines: Seq<Seq<char>>, g: Option<Seq<char>>)
    requires
        g matches Some(s) ==> !is_broad(s),
        forall|i: int|
            0 <= i < lines.len() ==> (entry_in(#[trigger] lines[i]) matches Some((s, inherited)) ==> !inherited && (
            s == "S-1-5-18"@ || s == "S-1-5-32-544"@ || g == Some(s))),
    ensures
        first_fault(lines) is None,
    decreases lines.len(),
{
    if lines.len() > 0 {
        law_which_groups_are_broad("S-1-5-18"@);
        let prior = lines.drop_last();
        assert forall|i: int| 0 <= i < prior.len() implies (entry_in(#[trigger] prior[i]) matches Some((s, inherited))
            ==> !inherited && (s == "S-1-5-18"@ || s == "S-1-5-32-544"@ || g == Some(s))) by {
            assert(prior[i] == lines[i]);
        }
        lemma_no_fault(prior, g);
        assert(lines.last() == lines[lines.len() - 1]);
    }
}

proof fn lemma_nobody_else(lines: Seq<Seq<char>>, g: Option<Seq<char>>)
    requires
        forall|i: int|
            0 <= i < lines.len() ==> (entry_in(#[trigger] lines[i]) matches Some((s, inherited)) ==> !inherited && (
            s == "S-1-5-18"@ || s == "S-1-5-32-544"@ || g == Some(s))),
    ensures
        first_stranger(principals(lines), g) is None,
    decreases lines.len(),
{
    if lines.len() > 0 {
        let prior = lines.drop_last();
        assert forall|i: int| 0 <= i < prior.len() implies (entry_in(#[trigger] prior[i]) matches Some((s, inherited))
            ==> !inherited && (s == "S-1-5-18"@ || s == "S-1-5-32-544"@ || g == Some(s))) by {
            assert(prior[i] == lines[i]);
        }
        lemma_nobody_else(prior, g);
        assert(lines.last() == lines[lines.len() - 1]);
        if let Some((s, _)) = entry_in(lines.last()) {
            assert(principals(lines).drop_last() =~= principals(prior));
        }
    }
}

/// **Law: which read grant is kept.** The first account of a machine or a domain that a line names; no
/// group, and not LocalSystem or the administrators. Where no line names one, none is kept.
pub proof fn law_which_read_grant_is_kept(lines: Seq<Seq<char>>)
    ensures
        preservable(lines) matches Some(s) ==> text::starts(s, "S-1-5-21-"@) && exists|i: int|
            0 <= i < lines.len() && account_in(#[trigger] lines[i]) == Some(s) && forall|j: int|
                0 <= j < i ==> account_in(#[trigger] lines[j]) is None,
        preservable(lines) is None <==> forall|i: int|
            0 <= i < lines.len() ==> account_in(#[trigger] lines[i]) is None,
    decreases lines.len(),
{
    if lines.len() > 0 {
        let prior = lines.drop_last();
        law_which_read_grant_is_kept(prior);
        assert(lines.last() == lines[lines.len() - 1]);
        if preservable(prior) is Some {
            let s = preservable(prior)->0;
            let i = choose|i: int|
                0 <= i < prior.len() && account_in(#[trigger] prior[i]) == Some(s) && forall|j: int|
                    0 <= j < i ==> account_in(#[trigger] prior[j]) is None;
            assert(lines[i] == prior[i]);
            assert forall|j: int| 0 <= j < i implies account_in(#[trigger] lines[j]) is None by {
                assert(prior[j] == lines[j]);
            }
        } else {
            assert forall|j: int| 0 <= j < prior.len() implies account_in(#[trigger] lines[j]) is None by {
                assert(prior[j] == lines[j]);
            }
        }
    }
}

/// **Law: which account a line of the readback grants to.** A line that is an entry of an account of a
/// machine or a domain names that account.
pub proof fn law_which_account_a_line_grants_to(sid: Seq<char>)
    requires
        sid.len() > 0,
        forall|i: int| 0 <= i < sid.len() ==> 0x21 <= (#[trigger] sid[i] as int) <= 0x7E && sid[i] != ';',
    ensures
        text::starts(sid, "S-1-5-21-"@) ==> account_in("ACE;"@ + sid + (";"@ + "False"@)) == Some(sid),
        !text::starts(sid, "S-1-5-21-"@) ==> account_in("ACE;"@ + sid + (";"@ + "False"@)) is None,
{
    assert(forall|i: int| 0 <= i < "False"@.len() ==> 0x21 <= (#[trigger] "False"@[i] as int) <= 0x7E && "False"@[i] != ';') by {
        reveal_strlit("False");
    }
    assert("False"@.len() > 0) by {
        reveal_strlit("False");
    }
    lemma_entry_text(sid, "False"@);
    lemma_entry_line(sid, "False"@);
    lemma_accounts_are_apart(sid);
}

proof fn lemma_accounts_are_apart(sid: Seq<char>)
    ensures
        text::starts(sid, "S-1-5-21-"@) ==> sid != SID_SYSTEM@ && sid != SID_ADMINISTRATORS@ && !is_broad(sid),
{
    reveal_strlit("S-1-5-18");
    reveal_strlit("S-1-5-32-544");
    reveal_strlit("S-1-5-21-");
    law_which_groups_are_broad(sid);
    text::law_parts_are_found(sid, "S-1-5-21-"@, Seq::empty());
    if text::starts(sid, "S-1-5-21-"@) {
        assert(sid[6] == "S-1-5-21-"@[6] && sid.len() >= 9);
        assert("S-1-5-21-"@[6] == '2' && "S-1-5-32-544"@[6] == '3' && "S-1-5-18"@.len() == 8);
    }
}

/// **Law: what is wrong with an entry.** One that was inherited is a fault, whoever it is for, and so is one for
/// a broad group; either names the account. Any other entry, and a line that is none, is in order.
pub proof fn law_what_is_wrong_with_an_entry(line: Seq<char>)
    ensures
        entry_in(line) is None ==> fault_in(line) is None,
        entry_in(line) matches Some((sid, inherited)) ==> (fault_in(line) is Some <==> inherited || is_broad(sid)),
        entry_in(line) matches Some((sid, inherited)) ==> inherited ==> fault_in(line) == Some(
            "inheritance is NOT disabled — inherited ACE present for "@ + sid,
        ),
        entry_in(line) matches Some((sid, inherited)) ==> !inherited && is_broad(sid) ==> (fault_in(line) matches Some(
            t,
        ) && text::starts(t, "DACL grants a world/group principal ("@ + sid)),
{
    if let Some((sid, inherited)) = entry_in(line) {
        if !inherited && is_broad(sid) {
            let a = "DACL grants a world/group principal ("@ + sid;
            text::law_a_longer_text_holds_its_parts(
                a,
                ") — the token dir must not be group-readable"@,
                a,
            );
        }
    }
}

} // verus!
