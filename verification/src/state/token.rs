//! Whether a control token that is there already may be trusted.
use crate::state::acl::{SID_ADMINISTRATORS, SID_SYSTEM};
use crate::text;
use vstd::prelude::*;

verus! {

/// Whether a token file owned by `owner` may be loaded on Windows: LocalSystem and the administrators
/// always; on a run that is no service also the current account, or any owner while the current
/// account is not known.
pub open spec fn windows_trusts(
    owner: Seq<char>,
    is_service: bool,
    current: Option<Seq<char>>,
) -> bool {
    ||| owner == SID_SYSTEM@
    ||| owner == SID_ADMINISTRATORS@
    ||| !is_service && match current {
        Some(cur) => cur.len() > 0 && owner == cur,
        None => true,
    }
}

/// Whether a token file owned by `owner_sid` may be loaded as it is.
pub fn windows_token_owner_is_trusted(
    owner_sid: &str,
    is_service: bool,
    current_user_sid: Option<&str>,
) -> (r: bool)
    ensures
        r == windows_trusts(owner_sid@, is_service, text::opt_str_view(current_user_sid)),
{
    if text::same(owner_sid, SID_SYSTEM) || text::same(owner_sid, SID_ADMINISTRATORS) {
        return true;
    }
    if is_service {
        return false;
    }
    match current_user_sid {
        Some(cur) => !cur.is_empty() && text::same(owner_sid, cur),
        None => true,
    }
}

/// Whether a token file may be loaded on Unix: one owned by root, or one owned by this process's
/// account that nobody else can read or write.
pub open spec fn unix_trusts(owner_uid: u32, mode: u32, euid: u32) -> bool {
    owner_uid == 0 || (owner_uid == euid && (mode & 0o777) == 0o600)
}

/// Whether a token file owned by `owner_uid` with `mode` may be loaded as it is.
pub fn unix_token_owner_is_trusted(owner_uid: u32, mode: u32, current_euid: u32) -> (r: bool)
    ensures
        r == unix_trusts(owner_uid, mode, current_euid),
{
    if owner_uid == 0 {
        return true;
    }
    owner_uid == current_euid && (mode & 0o777) == 0o600
}

/// What could be read of a token file and of this process.
#[derive(Debug)]
pub enum TokenFile {
    /// The file's owner and the process's account, where they could be read.
    Windows { owner: Option<String>, current_user: Option<String> },
    /// The file's owner and mode, and the process's account, where they could be read.
    Unix { file: Option<(u32, u32)>, euid: Option<u32> },
}

/// Whether the token file may be loaded. What could not be read counts against a service, and on Unix
/// against everyone but root.
pub open spec fn trusts(file: TokenFile, is_service: bool) -> bool {
    match file {
        TokenFile::Windows { owner, current_user } => match owner {
            Some(o) => windows_trusts(o@, is_service, text::opt_view(current_user)),
            None => !is_service,
        },
        TokenFile::Unix { file, euid } => match file {
            Some((uid, mode)) => match euid {
                Some(me) => unix_trusts(uid, mode, me),
                None => uid == 0,
            },
            None => false,
        },
    }
}

/// Whether the token file may be loaded as it is. A file that may not is deleted and made anew.
pub fn token_file_is_trusted(file: &TokenFile, is_service: bool) -> (r: bool)
    ensures
        r == trusts(*file, is_service),
{
    match file {
        TokenFile::Windows { owner, current_user } => match owner {
            Some(o) => {
                let current = match current_user {
                    Some(c) => Some(c.as_str()),
                    None => None,
                };
                windows_token_owner_is_trusted(o.as_str(), is_service, current)
            },
            None => !is_service,
        },
        TokenFile::Unix { file, euid } => match file {
            Some(f) => match euid {
                Some(me) => unix_token_owner_is_trusted(f.0, f.1, *me),
                None => f.0 == 0,
            },
            None => false,
        },
    }
}

/// A service on Windows never trusts a token that an ordinary account owns, nor one whose owner it
/// cannot read.
pub proof fn law_service_trusts_only_privileged_owners(
    owner: Option<String>,
    current_user: Option<String>,
)
    ensures
        trusts(TokenFile::Windows { owner, current_user }, true) <==> (owner matches Some(o) && (o@
            == SID_SYSTEM@ || o@ == SID_ADMINISTRATORS@)),
{
}

/// **Law: whose token is loaded on Unix.** Root's always; the process's own where nobody else can read or
/// write it; nobody else's. A file whose owner cannot be read is nobody's, and a process that does not
/// know its own account trusts root alone.
pub proof fn law_whose_token_is_loaded_on_unix(uid: u32, mode: u32, me: u32, is_service: bool)
    ensures
        trusts(TokenFile::Unix { file: None, euid: Some(me) }, is_service) == false,
        trusts(TokenFile::Unix { file: Some((0u32, mode)), euid: Some(me) }, is_service),
        uid != 0 && uid != me ==> !trusts(TokenFile::Unix { file: Some((uid, mode)), euid: Some(me) }, is_service),
        uid != 0 && uid == me ==> (trusts(TokenFile::Unix { file: Some((uid, mode)), euid: Some(me) }, is_service)
            <==> mode & 0o777 == 0o600),
        uid != 0 && mode & 0o077 != 0 ==> !trusts(
            TokenFile::Unix { file: Some((uid, mode)), euid: Some(me) },
            is_service,
        ),
        trusts(TokenFile::Unix { file: Some((uid, mode)), euid: None }, is_service) <==> uid == 0,
{
    assert(mode & 0o777 == 0o600 ==> mode & 0o077 == 0) by (bit_vector);
}

/// **Law: whose token is loaded on Windows.** That of LocalSystem and of the administrators always. A run
/// that is no service also loads its own account's, and anyone's while it does not know its own or the
/// file's; it loads no other account's.
pub proof fn law_whose_token_is_loaded_on_windows(owner: String, me: Option<String>, is_service: bool)
    ensures
        owner@ == "S-1-5-18"@ || owner@ == "S-1-5-32-544"@ ==> trusts(
            TokenFile::Windows { owner: Some(owner), current_user: me },
            is_service,
        ),
        owner@ != "S-1-5-18"@ && owner@ != "S-1-5-32-544"@ ==> (trusts(
            TokenFile::Windows { owner: Some(owner), current_user: me },
            is_service,
        ) <==> !is_service && (me matches Some(m) ==> m@.len() > 0 && m@ == owner@)),
        trusts(TokenFile::Windows { owner: None, current_user: me }, is_service) <==> !is_service,
{
}

} // verus!
