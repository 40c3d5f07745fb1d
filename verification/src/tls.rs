//! Serving `https://dig.local`: when the leaf certificate may be loaded, and what is said of it.
//!
//! The node never makes the certificate authority. It reads the leaf where the installer placed it,
//! and serves plaintext where it cannot.
use vstd::prelude::*;

use crate::log::{line_views, plain, Level, LineModel, LogLine};
use crate::paths::{inside, inside_windows};
use crate::text;

verus! {

/// How often the leaf is looked after, in seconds: once a day.
pub const RENEWAL_INTERVAL_SECS: u64 = 86_400;

/// Whether `p` is `leaf` inside `root`, as a machine joins paths. Where `root` is a verbatim path of
/// Windows, joining tidies the whole of it, and all that is said is that `leaf` comes last.
pub open spec fn is_inside(p: Seq<char>, root: Seq<char>, leaf: Seq<char>) -> bool {
    &&& p.len() >= leaf.len()
    &&& p.skip(p.len() - leaf.len()) == leaf
    &&& !text::starts(root, "\\\\?\\"@) ==> p == inside(root, leaf) || p == inside_windows(
        root,
        leaf,
    )
}

/// `dig_cert::TlsPaths::leaf_cert`: `leaf.crt` inside the root, joined as the machine joins paths.
#[verifier::external_body]
fn leaf_cert_path(root: &str) -> (r: String)
    ensures
        is_inside(r@, root@, "leaf.crt"@),
{
    dig_cert::TlsPaths::under(root).leaf_cert().to_string_lossy().into_owned()
}

/// `dig_cert::TlsPaths::leaf_key`: `leaf.key` inside the root, joined as the machine joins paths.
#[verifier::external_body]
fn leaf_key_path(root: &str) -> (r: String)
    ensures
        is_inside(r@, root@, "leaf.key"@),
{
    dig_cert::TlsPaths::under(root).leaf_key().to_string_lossy().into_owned()
}

/// The files of the leaf: certificate and key.
pub struct LeafFiles {
    pub cert: String,
    pub key: String,
}

/// The files of the leaf below a root.
pub fn leaf_files(root: &str) -> (r: LeafFiles)
    ensures
        is_inside(r.cert@, root@, "leaf.crt"@),
        is_inside(r.key@, root@, "leaf.key"@),
{
    LeafFiles { cert: leaf_cert_path(root), key: leaf_key_path(root) }
}

/// What is said of a root that an ordinary account could write to.
pub const ROOT_REFUSED: &'static str = "refusing HTTPS: TLS root is not privileged-owned (SYSTEM/Administrators or root) or is \
user-writable; serving plaintext only. The installer (#623) provisions this root under \
a privileged owner";

/// What is said where there is no leaf yet.
pub const NO_LEAF: &'static str = "https://dig.local unavailable: no TLS leaf yet. The installer provisions the \
per-machine CA + leaf (#623); serving plaintext only";

/// What is said of a leaf that cannot be loaded.
pub const LEAF_BROKEN: &'static str = "could not load the TLS leaf; serving plaintext only. HTTPS starts once a valid \
CA + leaf are present (#623)";

/// Why the leaf may not be loaded, if it may not.
pub open spec fn load_refusal(
    root: Seq<char>,
    root_privileged: bool,
    cert_exists: bool,
    key_exists: bool,
) -> Option<LineModel> {
    if !root_privileged {
        Some(plain(Level::Warn, ROOT_REFUSED@).with("tls_root"@, root))
    } else if !cert_exists || !key_exists {
        Some(plain(Level::Info, NO_LEAF@).with("tls_root"@, root))
    } else {
        None
    }
}

/// Whether the leaf may be loaded. The root must be privileged before anything in it is read; then
/// both files must be there. Where it may not, the node serves plaintext and says why.
pub fn load_https_material(
    root: &str,
    root_privileged: bool,
    cert_exists: bool,
    key_exists: bool,
) -> (r: Result<(), LogLine>)
    ensures
        match load_refusal(root@, root_privileged, cert_exists, key_exists) {
            None => r is Ok,
            Some(l) => r matches Err(line) && line@ == l,
        },
{
    if !root_privileged {
        return Err(LogLine::new(Level::Warn, ROOT_REFUSED).with("tls_root", root));
    }
    if !cert_exists || !key_exists {
        return Err(LogLine::new(Level::Info, NO_LEAF).with("tls_root", root));
    }
    Ok(())
}

/// What is said of a leaf that is there and cannot be loaded.
pub fn leaf_not_loaded(root: &str, error: &str) -> (r: LogLine)
    ensures
        r@ == plain(Level::Warn, LEAF_BROKEN@).with("tls_root"@, root@).with("error"@, error@),
{
    LogLine::new(Level::Warn, LEAF_BROKEN).with("tls_root", root).with("error", error)
}

/// What came of looking after the leaf.
pub enum RenewalPass {
    /// It was looked after: whether it was issued anew, in how many attempts, and whether the
    /// authority itself is due.
    Done { leaf_renewed: bool, attempts: u32, ca_renewal_due: bool },
    /// It could not be, for that reason.
    Failed(String),
    /// The work did not complete, for that reason.
    Aborted(String),
}

/// What is said of a leaf that was issued anew.
pub const LEAF_RENEWED: &'static str = "TLS leaf for https://dig.local renewed and hot-reloaded";

/// What is said of an authority that is due.
pub const CA_DUE: &'static str = "the local CA is within its renewal window. CA rotation is \
installer-coordinated (dig-cert rotate_ca) and re-installs trust — the node \
does NOT auto-rotate the anchor";

/// What is said of a leaf that could not be looked after.
pub const RENEWAL_FAILED: &'static str = "TLS leaf renewal pass failed; HTTPS keeps serving the current leaf and the next pass \
retries";

/// What is said of work that did not complete.
pub const RENEWAL_ABORTED: &'static str = "TLS leaf renewal task did not complete";

/// What is said of a pass.
pub open spec fn pass_lines(pass: RenewalPass) -> Seq<LineModel> {
    match pass {
        RenewalPass::Done { leaf_renewed, attempts, ca_renewal_due } => (if leaf_renewed {
            seq![
                plain(Level::Info, LEAF_RENEWED@).with("attempts"@, text::decimal(attempts as nat)),
            ]
        } else {
            Seq::empty()
        }) + (if ca_renewal_due {
            seq![plain(Level::Warn, CA_DUE@)]
        } else {
            Seq::empty()
        }),
        RenewalPass::Failed(e) => seq![plain(Level::Warn, RENEWAL_FAILED@).with("error"@, e@)],
        RenewalPass::Aborted(e) => seq![plain(Level::Warn, RENEWAL_ABORTED@).with("error"@, e@)],
    }
}

/// What is said of a pass: a leaf that was issued anew, an authority that is due and is left alone,
/// or that the pass failed. A pass that changed nothing is not spoken of.
pub fn rotation_lines(pass: &RenewalPass) -> (r: Vec<LogLine>)
    ensures
        line_views(r@) == pass_lines(*pass),
{
    let mut out: Vec<LogLine> = Vec::new();
    match pass {
        RenewalPass::Done { leaf_renewed, attempts, ca_renewal_due } => {
            if *leaf_renewed {
                out.push(
                    LogLine::new(Level::Info, LEAF_RENEWED).with_number(
                        "attempts",
                        *attempts as u64,
                    ),
                );
            }
            if *ca_renewal_due {
                out.push(LogLine::new(Level::Warn, CA_DUE));
            }
        },
        RenewalPass::Failed(e) => {
            out.push(LogLine::new(Level::Warn, RENEWAL_FAILED).with("error", e.as_str()));
        },
        RenewalPass::Aborted(e) => {
            out.push(LogLine::new(Level::Warn, RENEWAL_ABORTED).with("error", e.as_str()));
        },
    }
    proof {
        assert(line_views(out@) =~= pass_lines(*pass));
    }
    out
}

/// **Law: an unprivileged root is never read from.** Where the root is not privileged the leaf may
/// not be loaded, whatever else is there.
pub proof fn law_an_unprivileged_root_is_refused(
    root: Seq<char>,
    cert_exists: bool,
    key_exists: bool,
)
    ensures
        load_refusal(root, false, cert_exists, key_exists) == Some(
            plain(Level::Warn, ROOT_REFUSED@).with("tls_root"@, root),
        ),
{
}

/// **Law: when the leaf is loaded.** Where the root is privileged and both files are there, and only there;
/// an unsafe root is warned of, a missing file is only noted, and either names the root.
pub proof fn law_when_the_leaf_is_loaded(root: Seq<char>, privileged: bool, cert: bool, key: bool)
    ensures
        load_refusal(root, privileged, cert, key) is None <==> privileged && cert && key,
        load_refusal(root, privileged, cert, key) matches Some(l) ==> l.tells("tls_root"@, root) && (l.level
            == Level::Warn <==> !privileged) && (l.level == Level::Info <==> privileged),
{
    assert(seq![("tls_root"@, root)][0] == ("tls_root"@, root));
    if let Some(l) = load_refusal(root, privileged, cert, key) {
        assert(l.fields =~= seq![("tls_root"@, root)]);
    }
}

/// **Law: what is said of a pass.** A leaf that was issued anew is noted with the number of attempts, an
/// authority that is due is warned of, a pass that changed nothing is not spoken of, and one that failed
/// is warned of with its reason.
pub proof fn law_what_is_said_of_a_pass(attempts: u32, renewed: bool, due: bool, why: String)
    ensures
        ({
            let said = pass_lines(
                RenewalPass::Done { leaf_renewed: renewed, attempts, ca_renewal_due: due },
            );
            &&& said.len() == 0 <==> !renewed && !due
            &&& renewed ==> said[0].level == Level::Info && said[0].tells(
                "attempts"@,
                text::decimal(attempts as nat),
            )
            &&& due ==> said.len() > 0 && said.last().level == Level::Warn
            &&& renewed && due ==> said.len() == 2
            &&& renewed != due ==> said.len() == 1
        }),
        ({
            let said = pass_lines(RenewalPass::Failed(why));
            said.len() == 1 && said[0].level == Level::Warn && said[0].tells("error"@, why@)
        }),
        ({
            let said = pass_lines(RenewalPass::Aborted(why));
            said.len() == 1 && said[0].level == Level::Warn && said[0].tells("error"@, why@)
        }),
{
    let a = ("attempts"@, text::decimal(attempts as nat));
    let e = ("error"@, why@);
    assert(Seq::<(Seq<char>, Seq<char>)>::empty().push(a)[0] == a);
    assert(Seq::<(Seq<char>, Seq<char>)>::empty().push(e)[0] == e);
}

/// **Law: the files of the leaf lie in the root.** Whatever lies inside it ends with the name that was
/// looked for, and on Unix the name stands behind a slash.
pub proof fn law_the_leafs_files_lie_in_the_root(p: Seq<char>, root: Seq<char>, leaf: Seq<char>)
    requires
        is_inside(p, root, leaf),
    ensures
        text::has(p, leaf),
        !text::starts(root, "\\\\?\\"@) ==> p == inside(root, leaf) || p == inside_windows(root, leaf),
{
    let at = p.len() - leaf.len();
    assert(p.subrange(at, at + leaf.len()) =~= p.skip(at));
    assert(text::occurs_at(p, leaf, at));
}

} // verus!
