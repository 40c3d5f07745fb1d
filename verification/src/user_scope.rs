//! Other accounts' registrations of the service: found, and removed without following a link.
//!
//! Root cannot ask another account's manager whether it holds a registration, so the registrations
//! are looked for as files. Every such file stands in a directory its account controls, so nothing is
//! removed while a directory on the way to it is a symlink.
use crate::error::{Error, ErrorKind};
use crate::oracle::{all_no, askable, first_yes, may_say};
use crate::paths;
use crate::state::Os;
use crate::text;
use vstd::prelude::*;

verus! {

/// The directories in which accounts have their homes.
pub const ACCOUNT_ROOTS: [&'static str; 3] = ["/home", "/root", "/Users"];

/// One registration that belongs to some account.
#[derive(Debug, PartialEq, Eq)]
pub struct UserScopeRegistration {
    /// The account's home directory.
    pub home: String,
    /// The account that owns the registration file.
    pub uid: Option<u32>,
    /// The unit file or agent file itself.
    pub registration: String,
    /// The links that make it start on login. They go too, else the unit stays enabled.
    pub enablement: Vec<String>,
}

/// A [`UserScopeRegistration`] as a mathematical value.
pub struct RegistrationModel {
    pub home: Seq<char>,
    pub uid: Option<u32>,
    pub registration: Seq<char>,
    pub enablement: Seq<Seq<char>>,
}

impl View for UserScopeRegistration {
    type V = RegistrationModel;

    open spec fn view(&self) -> RegistrationModel {
        RegistrationModel {
            home: self.home@,
            uid: self.uid,
            registration: self.registration@,
            enablement: text::views(self.enablement@),
        }
    }
}

/// The models of a list of registrations.
pub open spec fn registration_models(list: Seq<UserScopeRegistration>) -> Seq<RegistrationModel> {
    Seq::new(list.len(), |i: int| list[i]@)
}

// ---- where registrations stand -----------------------------------------------------------------

/// The directory of an account's units.
pub open spec fn user_unit_dir(home: Seq<char>) -> Seq<char> {
    paths::inside(paths::inside(paths::inside(home, ".config"@), "systemd"@), "user"@)
}

/// The unit file of an account.
pub open spec fn unit_path(home: Seq<char>, unit: Seq<char>) -> Seq<char> {
    paths::inside(user_unit_dir(home), unit)
}

/// The link that enables the unit of an account.
pub open spec fn wants_path(home: Seq<char>, unit: Seq<char>) -> Seq<char> {
    paths::inside(paths::inside(user_unit_dir(home), "default.target.wants"@), unit)
}

/// The agent file of an account.
pub open spec fn agent_path(home: Seq<char>, label: Seq<char>) -> Seq<char> {
    paths::inside(
        paths::inside(paths::inside(home, "Library"@), "LaunchAgents"@),
        label + ".plist"@,
    )
}

/// The unit file of the account at `home`, and the links that enable it.
pub fn systemd_user_paths(home: &str, unit_file_name: &str) -> (r: (String, Vec<String>))
    ensures
        r.0@ == unit_path(home@, unit_file_name@),
        text::views(r.1@) == seq![wants_path(home@, unit_file_name@)],
{
    let user_dir = paths::join(
        paths::join(paths::join(home, ".config").as_str(), "systemd").as_str(),
        "user",
    );
    let unit = paths::join(user_dir.as_str(), unit_file_name);
    let wants = paths::join(
        paths::join(user_dir.as_str(), "default.target.wants").as_str(),
        unit_file_name,
    );
    let mut enablement: Vec<String> = Vec::new();
    enablement.push(wants);
    proof {
        assert(text::views(enablement@) =~= seq![wants_path(home@, unit_file_name@)]);
    }
    (unit, enablement)
}

/// The agent file of the account at `home`.
pub fn launchd_agent_path(home: &str, label: &str) -> (r: String)
    ensures
        r@ == agent_path(home@, label@),
{
    let mut file = label.to_owned();
    file.append(".plist");
    paths::join(
        paths::join(paths::join(home, "Library").as_str(), "LaunchAgents").as_str(),
        file.as_str(),
    )
}

// ---- links on the way --------------------------------------------------------------------------

/// Whether `p` stands strictly below the directory `base`, however the two are written. Accounts have
/// registrations of their own on Unix alone, where all systems write paths alike.
pub open spec fn is_below(base: Seq<char>, p: Seq<char>) -> bool {
    paths::is_below(Os::Linux, base, p)
}

/// The directories between `base` and `path`, from the one that holds `path` upwards; neither `base`
/// nor `path` itself.
pub open spec fn on_the_way(base: Seq<char>, path: Seq<char>) -> Seq<Seq<char>>
    decreases path.len(),
{
    match paths::parent_of(Os::Linux, path) {
        Some(dir) => {
            proof {
                paths::lemma_parent_is_shorter(Os::Linux, path);
            }
            if is_below(base, dir) {
                seq![dir] + on_the_way(base, dir)
            } else {
                Seq::empty()
            }
        },
        None => Seq::empty(),
    }
}

/// The first directory between `base` and `path`, from the one that holds `path` upwards, that is a
/// symlink.
fn first_link<F: Fn(&str) -> bool>(base: &str, path: &str, is_symlink: &F) -> (r: Option<String>)
    requires
        askable(*is_symlink, on_the_way(base@, path@)),
    ensures
        r is None ==> all_no(*is_symlink, on_the_way(base@, path@)),
        r matches Some(c) ==> exists|k: int| #[trigger]
            first_yes(*is_symlink, on_the_way(base@, path@), k) && c@ == on_the_way(
                base@,
                path@,
            )[k],
{
    let ghost all = on_the_way(base@, path@);
    let ghost mut seen: int = 0;
    let mut here = path.to_owned();
    proof {
        assert(all.skip(0) =~= all);
    }
    loop
        invariant
            askable(*is_symlink, all),
            all == on_the_way(base@, path@),
            0 <= seen <= all.len(),
            all.skip(seen) == on_the_way(base@, here@),
            forall|j: int| 0 <= j < seen ==> #[trigger] may_say(*is_symlink, all[j], false),
        decreases here@.len(),
    {
        proof {
            paths::lemma_parent_is_shorter(Os::Linux, here@);
        }
        match paths::parent(Os::Linux, here.as_str()) {
            None => {
                proof {
                    assert(all.skip(seen).len() == 0);
                }
                return None;
            },
            Some(dir) => {
                if !paths::below(Os::Linux, base, dir.as_str()) {
                    proof {
                        assert(all.skip(seen).len() == 0);
                    }
                    return None;
                }
                let d = dir.as_str();
                proof {
                    assert(on_the_way(base@, here@) == seq![dir@] + on_the_way(base@, dir@));
                    assert(all.skip(seen).len() > 0);
                    assert(all.skip(seen)[0] == dir@);
                    assert(all[seen] == dir@);
                    assert(all_no(*is_symlink, all.take(seen)));
                }
                let yes = is_symlink(d);
                proof {
                    assert(call_ensures(*is_symlink, (d,), yes));
                    assert(may_say(*is_symlink, all[seen], yes));
                }
                if yes {
                    proof {
                        assert(first_yes(*is_symlink, all, seen));
                    }
                    return Some(dir);
                }
                proof {
                    assert((seq![dir@] + on_the_way(base@, dir@)).skip(1) =~= on_the_way(
                        base@,
                        dir@,
                    ));
                    assert(all.skip(seen).skip(1) =~= all.skip(seen + 1));
                    seen = seen + 1;
                }
                here = dir;
            },
        }
    }
}

/// The first directory between `base` and `path`, from the one that holds `path` upwards, that is a
/// symlink. `base` is not judged: it belongs to the system. `path` itself is not judged: it is only
/// ever unlinked, which removes a link and never follows it.
pub fn first_symlink_component<F: Fn(&str) -> bool>(base: &str, path: &str, is_symlink: F) -> (r:
    Option<String>)
    requires
        askable(is_symlink, on_the_way(base@, path@)),
    ensures
        r is None ==> all_no(is_symlink, on_the_way(base@, path@)),
        r matches Some(c) ==> exists|k: int| #[trigger]
            first_yes(is_symlink, on_the_way(base@, path@), k) && c@ == on_the_way(
                base@,
                path@,
            )[k],
{
    first_link(base, path, &is_symlink)
}

// ---- finding -----------------------------------------------------------------------------------

/// What is there in a directory of homes: for `/root`, whether it is a directory; for any other, the
/// entries that could be listed, each with whether it is a directory.
#[derive(Debug)]
pub struct AccountRoot {
    pub path: String,
    pub is_dir: bool,
    pub entries: Vec<(String, bool)>,
}

/// The homes of a directory of homes.
pub open spec fn homes_in(root: AccountRoot) -> Seq<Seq<char>> {
    if root.path@ == "/root"@ {
        if root.is_dir {
            seq![root.path@]
        } else {
            Seq::empty()
        }
    } else {
        dirs_among(root.entries@)
    }
}

/// The entries that are directories, in order.
pub open spec fn dirs_among(entries: Seq<(String, bool)>) -> Seq<Seq<char>>
    decreases entries.len(),
{
    if entries.len() == 0 {
        Seq::empty()
    } else {
        let prior = dirs_among(entries.drop_last());
        if entries.last().1 {
            prior.push(entries.last().0@)
        } else {
            prior
        }
    }
}

/// The homes of all directories of homes, in order.
pub open spec fn homes_of(roots: Seq<AccountRoot>) -> Seq<Seq<char>>
    decreases roots.len(),
{
    if roots.len() == 0 {
        Seq::empty()
    } else {
        homes_of(roots.drop_last()) + homes_in(roots.last())
    }
}

/// The home directories that are there. `/root` is a home itself; of any other directory, its entries
/// are.
pub fn account_homes(roots: &Vec<AccountRoot>) -> (r: Vec<String>)
    ensures
        text::views(r@) == homes_of(roots@),
{
    let mut homes: Vec<String> = Vec::new();
    let mut i: usize = 0;
    proof {
        assert(text::views(homes@) =~= homes_of(roots@.take(0)));
    }
    while i < roots.len()
        invariant
            i <= roots@.len(),
            text::views(homes@) == homes_of(roots@.take(i as int)),
        decreases roots@.len() - i,
    {
        let root = &roots[i];
        let ghost before = text::views(homes@);
        proof {
            assert(roots@.take(i + 1).drop_last() =~= roots@.take(i as int));
            assert(roots@.take(i + 1).last() == *root);
        }
        if text::same(root.path.as_str(), "/root") {
            if root.is_dir {
                homes.push(root.path.clone());
                proof {
                    assert(text::views(homes@) =~= before + seq![root.path@]);
                }
            } else {
                proof {
                    assert(before + Seq::<Seq<char>>::empty() =~= before);
                }
            }
        } else {
            let mut k: usize = 0;
            proof {
                assert(text::views(homes@) =~= before + dirs_among(root.entries@.take(0)));
            }
            while k < root.entries.len()
                invariant
                    k <= root.entries@.len(),
                    text::views(homes@) == before + dirs_among(root.entries@.take(k as int)),
                decreases root.entries@.len() - k,
            {
                let entry = &root.entries[k];
                let ghost so_far = text::views(homes@);
                let ghost prior = dirs_among(root.entries@.take(k as int));
                proof {
                    assert(root.entries@.take(k + 1).drop_last() =~= root.entries@.take(
                        k as int,
                    ));
                    assert(root.entries@.take(k + 1).last() == *entry);
                }
                if entry.1 {
                    homes.push(entry.0.clone());
                    proof {
                        assert(text::views(homes@) =~= so_far.push(entry.0@));
                        assert(before + prior.push(entry.0@) =~= so_far.push(entry.0@));
                    }
                }
                k += 1;
            }
            proof {
                assert(root.entries@.take(root.entries@.len() as int) =~= root.entries@);
            }
        }
        i += 1;
    }
    proof {
        assert(roots@.take(roots@.len() as int) =~= roots@);
    }
    homes
}

/// What is there of the service's files in one home: whether each file is present, be it a link, and
/// which account owns it.
#[derive(Debug)]
pub struct HomeFacts {
    pub home: String,
    pub unit_present: bool,
    pub unit_uid: Option<u32>,
    pub wants_present: bool,
    pub agent_present: bool,
    pub agent_uid: Option<u32>,
}

/// The links that enable the unit and are there.
pub open spec fn enablement_in(f: HomeFacts, unit: Seq<char>) -> Seq<Seq<char>> {
    if f.wants_present {
        seq![wants_path(f.home@, unit)]
    } else {
        Seq::empty()
    }
}

/// The registrations in one home: the unit file, then the agent file.
pub open spec fn registrations_in(
    f: HomeFacts,
    unit: Seq<char>,
    label: Seq<char>,
) -> Seq<RegistrationModel> {
    let by_unit = if f.unit_present {
        seq![RegistrationModel {
            home: f.home@,
            uid: f.unit_uid,
            registration: unit_path(f.home@, unit),
            enablement: enablement_in(f, unit),
        }]
    } else {
        Seq::empty()
    };
    let by_agent = if f.agent_present {
        seq![RegistrationModel {
            home: f.home@,
            uid: f.agent_uid,
            registration: agent_path(f.home@, label),
            enablement: enablement_in(f, unit),
        }]
    } else {
        Seq::empty()
    };
    by_unit + by_agent
}

/// The registrations in all homes, in order.
pub open spec fn registrations_of(
    facts: Seq<HomeFacts>,
    unit: Seq<char>,
    label: Seq<char>,
) -> Seq<RegistrationModel>
    decreases facts.len(),
{
    if facts.len() == 0 {
        Seq::empty()
    } else {
        registrations_of(facts.drop_last(), unit, label) + registrations_in(
            facts.last(),
            unit,
            label,
        )
    }
}

/// The links that enable the unit and are there.
fn present_enablement(f: &HomeFacts, unit: &str) -> (r: Vec<String>)
    ensures
        text::views(r@) == enablement_in(*f, unit@),
{
    let mut out: Vec<String> = Vec::new();
    if f.wants_present {
        let (_, enablement) = systemd_user_paths(f.home.as_str(), unit);
        out = enablement;
    }
    proof {
        assert(text::views(out@) =~= enablement_in(*f, unit@));
    }
    out
}

/// Every account's registration of the service. `unit_file_name` is the name of the unit file and
/// `label` that of the agent.
pub fn discover(facts: &Vec<HomeFacts>, unit_file_name: &str, label: &str) -> (r: Vec<
    UserScopeRegistration,
>)
    ensures
        registration_models(r@) == registrations_of(facts@, unit_file_name@, label@),
{
    let mut found: Vec<UserScopeRegistration> = Vec::new();
    let mut i: usize = 0;
    proof {
        assert(registration_models(found@) =~= registrations_of(
            facts@.take(0),
            unit_file_name@,
            label@,
        ));
    }
    while i < facts.len()
        invariant
            i <= facts@.len(),
            registration_models(found@) == registrations_of(
                facts@.take(i as int),
                unit_file_name@,
                label@,
            ),
        decreases facts@.len() - i,
    {
        let f = &facts[i];
        let ghost before = registration_models(found@);
        proof {
            assert(facts@.take(i + 1).drop_last() =~= facts@.take(i as int));
            assert(facts@.take(i + 1).last() == *f);
        }
        if f.unit_present {
            let (unit, _) = systemd_user_paths(f.home.as_str(), unit_file_name);
            found.push(
                UserScopeRegistration {
                    home: f.home.clone(),
                    uid: f.unit_uid,
                    registration: unit,
                    enablement: present_enablement(f, unit_file_name),
                },
            );
        }
        if f.agent_present {
            found.push(
                UserScopeRegistration {
                    home: f.home.clone(),
                    uid: f.agent_uid,
                    registration: launchd_agent_path(f.home.as_str(), label),
                    enablement: present_enablement(f, unit_file_name),
                },
            );
        }
        proof {
            assert(registration_models(found@) =~= before + registrations_in(
                *f,
                unit_file_name@,
                label@,
            ));
        }
        i += 1;
    }
    proof {
        assert(facts@.take(facts@.len() as int) =~= facts@);
    }
    found
}

// ---- removing ----------------------------------------------------------------------------------

/// One step of a removal.
#[derive(Debug, PartialEq, Eq)]
pub enum RemovalStep {
    /// Stop the running instance, as well as that can be done.
    Stop,
    /// Unlink this path, without following it.
    Unlink(String),
}

/// A [`RemovalStep`] as a mathematical value.
pub enum StepModel {
    Stop,
    Unlink(Seq<char>),
}

impl View for RemovalStep {
    type V = StepModel;

    open spec fn view(&self) -> StepModel {
        match self {
            RemovalStep::Stop => StepModel::Stop,
            RemovalStep::Unlink(p) => StepModel::Unlink(p@),
        }
    }
}

/// The models of a list of steps.
pub open spec fn step_models(steps: Seq<RemovalStep>) -> Seq<StepModel> {
    Seq::new(steps.len(), |i: int| steps[i]@)
}

/// The paths a removal touches: the registration file, then the links.
pub open spec fn touched(r: RegistrationModel) -> Seq<Seq<char>> {
    seq![r.registration] + r.enablement
}

/// The steps of a removal: stop the instance while it can still be named, drop the links that enable
/// it, then the registration file.
pub open spec fn removal_steps(r: RegistrationModel) -> Seq<StepModel> {
    seq![StepModel::Stop] + Seq::new(
        r.enablement.len(),
        |i: int| StepModel::Unlink(r.enablement[i]),
    ) + seq![StepModel::Unlink(r.registration)]
}

/// Why a removal is refused.
pub open spec fn link_refusal(path: Seq<char>, link: Seq<char>, home: Seq<char>) -> Seq<char> {
    "refusing to remove \""@ + path + "\": the path component \""@ + link
        + "\" is a symlink, so removing it as root could delete a file outside "@ + home
}

/// Whether removing `r` is refused because of the link found on the way to path number `j`, all paths
/// before being free of links.
pub open spec fn refused_at<F: Fn(&str) -> bool>(
    f: F,
    r: RegistrationModel,
    j: int,
    message: Seq<char>,
) -> bool {
    &&& 0 <= j < touched(r).len()
    &&& forall|i: int| 0 <= i < j ==> all_no(f, #[trigger] on_the_way(r.home, touched(r)[i]))
    &&& exists|k: int| #[trigger]
        first_yes(f, on_the_way(r.home, touched(r)[j]), k) && message == link_refusal(
            touched(r)[j],
            on_the_way(r.home, touched(r)[j])[k],
            r.home,
        )
}

/// The steps that remove one registration, or a refusal, with nothing to be done, when a directory on
/// the way to any of its files is a symlink.
pub fn remove<F: Fn(&str) -> bool>(registration: &UserScopeRegistration, is_symlink: F) -> (r:
    Result<Vec<RemovalStep>, Error>)
    requires
        forall|i: int|
            0 <= i < touched(registration@).len() ==> askable(
                is_symlink,
                #[trigger] on_the_way(registration.home@, touched(registration@)[i]),
            ),
    ensures
        r matches Ok(steps) ==> step_models(steps@) == removal_steps(registration@) && forall|
            i: int,
        |
            0 <= i < touched(registration@).len() ==> all_no(
                is_symlink,
                #[trigger] on_the_way(registration.home@, touched(registration@)[i]),
            ),
        r matches Err(e) ==> e.kind == ErrorKind::PermissionDenied && exists|j: int| #[trigger]
            refused_at(is_symlink, registration@, j, e.message@),
{
    let ghost reg = registration@;
    let home = registration.home.as_str();
    let first = registration.registration.as_str();
    proof {
        assert(touched(reg)[0] == first@);
    }
    if let Some(link) = first_link(home, first, &is_symlink) {
        let e = link_error(first, link.as_str(), home);
        proof {
            assert(refused_at(is_symlink, reg, 0, e.message@));
        }
        return Err(e);
    }
    let mut i: usize = 0;
    while i < registration.enablement.len()
        invariant
            i <= registration.enablement@.len(),
            reg == registration@,
            home@ == reg.home,
            forall|k: int|
                0 <= k < touched(reg).len() ==> askable(
                    is_symlink,
                    #[trigger] on_the_way(reg.home, touched(reg)[k]),
                ),
            forall|k: int|
                0 <= k <= i ==> all_no(
                    is_symlink,
                    #[trigger] on_the_way(reg.home, touched(reg)[k]),
                ),
        decreases registration.enablement@.len() - i,
    {
        let path = registration.enablement[i].as_str();
        proof {
            assert(touched(reg)[i + 1] == path@);
        }
        if let Some(link) = first_link(home, path, &is_symlink) {
            let e = link_error(path, link.as_str(), home);
            proof {
                assert(refused_at(is_symlink, reg, i + 1, e.message@));
            }
            return Err(e);
        }
        i += 1;
    }
    Ok(removal_list(registration))
}

/// The refusal to remove `path`.
fn link_error(path: &str, link: &str, home: &str) -> (e: Error)
    ensures
        e.kind == ErrorKind::PermissionDenied,
        e.message@ == link_refusal(path@, link@, home@),
{
    let mut m = "refusing to remove \"".to_owned();
    m.append(path);
    m.append("\": the path component \"");
    m.append(link);
    m.append("\" is a symlink, so removing it as root could delete a file outside ");
    m.append(home);
    Error::new(ErrorKind::PermissionDenied, m)
}

/// The steps that remove one registration.
fn removal_list(registration: &UserScopeRegistration) -> (steps: Vec<RemovalStep>)
    ensures
        step_models(steps@) == removal_steps(registration@),
{
    let ghost reg = registration@;
    let mut steps: Vec<RemovalStep> = Vec::new();
    steps.push(RemovalStep::Stop);
    let mut k: usize = 0;
    proof {
        assert(step_models(steps@) =~= seq![StepModel::Stop] + Seq::new(
            0,
            |i: int| StepModel::Unlink(reg.enablement[i]),
        ));
    }
    while k < registration.enablement.len()
        invariant
            k <= registration.enablement@.len(),
            reg == registration@,
            step_models(steps@) == seq![StepModel::Stop] + Seq::new(
                k as nat,
                |i: int| StepModel::Unlink(reg.enablement[i]),
            ),
        decreases registration.enablement@.len() - k,
    {
        let ghost before = step_models(steps@);
        steps.push(RemovalStep::Unlink(registration.enablement[k].clone()));
        k += 1;
        proof {
            assert(step_models(steps@) =~= before.push(StepModel::Unlink(reg.enablement[k - 1])));
            assert(step_models(steps@) =~= seq![StepModel::Stop] + Seq::new(
                k as nat,
                |i: int| StepModel::Unlink(reg.enablement[i]),
            ));
        }
    }
    steps.push(RemovalStep::Unlink(registration.registration.clone()));
    proof {
        assert(step_models(steps@) =~= removal_steps(reg));
    }
    steps
}

// ---- the sweep ---------------------------------------------------------------------------------

/// What a sweep does not cover.
pub const RESIDUAL_NOTE: &'static str = "a user-scope registration under a home directory outside /home, /root or /Users, or under a non-default XDG_CONFIG_HOME, is not discoverable from here and must be removed by that user (`dig-node uninstall --scope user`)";

/// What a sweep did, and what it left.
#[derive(Debug, PartialEq, Eq)]
pub struct UserScopeSweep {
    /// The homes whose registration was removed.
    pub removed: Vec<String>,
    /// The homes whose registration was found and not removed, with why.
    pub failed: Vec<(String, String)>,
}

impl Default for UserScopeSweep {
    fn default() -> (r: Self)
        ensures
            r.removed@.len() == 0,
            r.failed@.len() == 0,
    {
        UserScopeSweep { removed: Vec::new(), failed: Vec::new() }
    }
}

impl UserScopeSweep {
    /// Whether anything was found, removed or not.
    pub fn found_any(&self) -> (r: bool)
        ensures
            r == (self.removed@.len() > 0 || self.failed@.len() > 0),
    {
        self.removed.len() > 0 || self.failed.len() > 0
    }

    /// What a sweep does not cover.
    pub fn residual_note() -> (r: &'static str)
        ensures
            r@ == RESIDUAL_NOTE@,
    {
        RESIDUAL_NOTE
    }
}

/// The homes whose removal succeeded, in order.
pub open spec fn homes_removed(
    found: Seq<RegistrationModel>,
    outcomes: Seq<Result<(), Error>>,
) -> Seq<Seq<char>>
    decreases found.len(),
{
    if found.len() == 0 {
        Seq::empty()
    } else {
        let prior = homes_removed(found.drop_last(), outcomes);
        if outcomes[found.len() - 1] is Ok {
            prior.push(found.last().home)
        } else {
            prior
        }
    }
}

/// The homes whose removal failed, with why, in order.
pub open spec fn homes_failed(
    found: Seq<RegistrationModel>,
    outcomes: Seq<Result<(), Error>>,
) -> Seq<(Seq<char>, Seq<char>)>
    decreases found.len(),
{
    if found.len() == 0 {
        Seq::empty()
    } else {
        let prior = homes_failed(found.drop_last(), outcomes);
        match outcomes[found.len() - 1] {
            Err(e) => prior.push((found.last().home, e.message@)),
            Ok(_) => prior,
        }
    }
}

/// The views of a list of failures.
pub open spec fn failure_views(list: Seq<(String, String)>) -> Seq<(Seq<char>, Seq<char>)> {
    Seq::new(list.len(), |i: int| (list[i].0@, list[i].1@))
}

/// Find every other account's registration and remove each with `remove_one`. The sweep as a whole
/// never fails: what was left is reported, so that an otherwise good installation can go on.
pub fn sweep<R: Fn(&UserScopeRegistration) -> Result<(), Error>>(
    facts: &Vec<HomeFacts>,
    unit_file_name: &str,
    label: &str,
    remove_one: R,
) -> (r: UserScopeSweep)
    requires
        forall|x: &UserScopeRegistration| call_requires(remove_one, (x,)),
    ensures
        exists|found: Seq<UserScopeRegistration>, outcomes: Seq<Result<(), Error>>|
            {
                &&& registration_models(found) == registrations_of(
                    facts@,
                    unit_file_name@,
                    label@,
                )
                &&& #[trigger] swept(remove_one, found, outcomes)
                &&& text::views(r.removed@) == homes_removed(registration_models(found), outcomes)
                &&& failure_views(r.failed@) == homes_failed(registration_models(found), outcomes)
            },
{
    let found = discover(facts, unit_file_name, label);
    let ghost all = registration_models(found@);
    let ghost mut outcomes: Seq<Result<(), Error>> = Seq::empty();
    let mut out = UserScopeSweep::default();
    let mut i: usize = 0;
    proof {
        assert(text::views(out.removed@) =~= homes_removed(all.take(0), outcomes));
        assert(failure_views(out.failed@) =~= homes_failed(all.take(0), outcomes));
    }
    while i < found.len()
        invariant
            i <= found@.len(),
            all == registration_models(found@),
            all == registrations_of(facts@, unit_file_name@, label@),
            forall|x: &UserScopeRegistration| call_requires(remove_one, (x,)),
            outcomes.len() == i,
            forall|k: int|
                0 <= k < i ==> call_ensures(remove_one, (&found@[k],), #[trigger] outcomes[k]),
            text::views(out.removed@) == homes_removed(all.take(i as int), outcomes),
            failure_views(out.failed@) == homes_failed(all.take(i as int), outcomes),
        decreases found@.len() - i,
    {
        let reg = &found[i];
        let outcome = remove_one(reg);
        let ghost before = outcomes;
        let ghost removed0 = text::views(out.removed@);
        let ghost failed0 = failure_views(out.failed@);
        proof {
            outcomes = outcomes.push(outcome);
            assert(all.take(i + 1).drop_last() =~= all.take(i as int));
            assert(all.take(i + 1).last() == reg@);
            lemma_outcomes_extend(all.take(i as int), before, outcome);
        }
        match outcome {
            Ok(_) => {
                out.removed.push(reg.home.clone());
                proof {
                    assert(text::views(out.removed@) =~= removed0.push(reg.home@));
                }
            },
            Err(e) => {
                out.failed.push((reg.home.clone(), e.message));
                proof {
                    assert(failure_views(out.failed@) =~= failed0.push((reg.home@, e.message@)));
                }
            },
        }
        i += 1;
    }
    proof {
        assert(all.take(all.len() as int) =~= all);
        assert(swept(remove_one, found@, outcomes));
    }
    out
}

/// Whether `outcomes` are what `remove_one` answered for `found`, one by one.
pub open spec fn swept<R: Fn(&UserScopeRegistration) -> Result<(), Error>>(
    remove_one: R,
    found: Seq<UserScopeRegistration>,
    outcomes: Seq<Result<(), Error>>,
) -> bool {
    &&& outcomes.len() == found.len()
    &&& forall|k: int|
        0 <= k < found.len() ==> call_ensures(remove_one, (&found[k],), #[trigger] outcomes[k])
}

proof fn lemma_outcomes_extend(
    found: Seq<RegistrationModel>,
    outcomes: Seq<Result<(), Error>>,
    next: Result<(), Error>,
)
    requires
        found.len() <= outcomes.len(),
    ensures
        homes_removed(found, outcomes.push(next)) == homes_removed(found, outcomes),
        homes_failed(found, outcomes.push(next)) == homes_failed(found, outcomes),
    decreases found.len(),
{
    if found.len() > 0 {
        lemma_outcomes_extend(found.drop_last(), outcomes, next);
    }
}

// ---- laws --------------------------------------------------------------------------------------

proof fn lemma_on_the_way(base: Seq<char>, path: Seq<char>)
    ensures
        ({
            let way = on_the_way(base, path);
            let b = paths::components(Os::Linux, base);
            let c = paths::components(Os::Linux, path);
            &&& forall|i: int|
                0 <= i < way.len() ==> {
                    &&& is_below(base, #[trigger] way[i])
                    &&& i + 1 < c.len()
                    &&& paths::components(Os::Linux, way[i]) == c.take(c.len() - 1 - i)
                }
            &&& is_below(base, path) ==> way.len() == c.len() - b.len() - 1
        }),
    decreases path.len(),
{
    let way = on_the_way(base, path);
    let b = paths::components(Os::Linux, base);
    let c = paths::components(Os::Linux, path);
    paths::lemma_parent_is_shorter(Os::Linux, path);
    paths::lemma_parent_drops_the_last(Os::Linux, path);
    match paths::parent_of(Os::Linux, path) {
        Some(dir) => {
            let d = paths::components(Os::Linux, dir);
            lemma_on_the_way(base, dir);
            if is_below(base, dir) {
                assert forall|i: int| 0 <= i < way.len() implies {
                    &&& is_below(base, #[trigger] way[i])
                    &&& i + 1 < c.len()
                    &&& paths::components(Os::Linux, way[i]) == c.take(c.len() - 1 - i)
                } by {
                    if i == 0 {
                        assert(d =~= c.take(c.len() - 1));
                    } else {
                        assert(way[i] == on_the_way(base, dir)[i - 1]);
                        assert(d.take(d.len() - i) =~= c.take(c.len() - 1 - i));
                    }
                }
                assert(c.take(b.len() as int) =~= d.take(b.len() as int));
            } else if is_below(base, path) {
                assert(d.take(b.len() as int) =~= c.take(b.len() as int));
            }
        },
        None => {
            if is_below(base, path) {
                assert(c.len() <= 1);
                assert(b.len() == 0);
            }
        },
    }
}

/// Only what stands strictly below the account's directory and strictly above the file is judged:
/// neither the directory itself nor the file.
pub proof fn law_only_directories_between_are_judged(base: Seq<char>, path: Seq<char>, i: int)
    requires
        0 <= i < on_the_way(base, path).len(),
    ensures
        is_below(base, on_the_way(base, path)[i]),
        paths::is_below(Os::Linux, on_the_way(base, path)[i], path),
{
    lemma_on_the_way(base, path);
    let c = paths::components(Os::Linux, path);
    let d = paths::components(Os::Linux, on_the_way(base, path)[i]);
    assert(c.take(d.len() as int) =~= d);
}

/// No directory between the account's and the file goes unjudged, however the two paths are written:
/// there is one for each component between, and it is the path cut off behind that component.
pub proof fn law_every_directory_between_is_judged(base: Seq<char>, path: Seq<char>, n: int)
    requires
        is_below(base, path),
        paths::components(Os::Linux, base).len() < n < paths::components(Os::Linux, path).len(),
    ensures
        ({
            let c = paths::components(Os::Linux, path);
            let way = on_the_way(base, path);
            let i = c.len() - 1 - n;
            0 <= i < way.len() && paths::components(Os::Linux, way[i]) == c.take(n)
        }),
{
    lemma_on_the_way(base, path);
}

/// The instance is stopped before anything is unlinked, and the registration file goes last.
pub proof fn law_stop_first_registration_last(r: RegistrationModel, i: int)
    requires
        0 <= i < removal_steps(r).len(),
    ensures
        removal_steps(r)[i] is Stop <==> i == 0,
        removal_steps(r).last() == StepModel::Unlink(r.registration),
        0 < i < removal_steps(r).len() - 1 ==> removal_steps(r)[i] == StepModel::Unlink(
            r.enablement[i - 1],
        ),
{
}

/// **Law: where an account's registrations stand.** The unit file is in the account's own systemd
/// directory, the link that enables it in the directory beside it, and the agent file among its agents;
/// each by its own name.
pub proof fn law_where_registrations_stand(home: Seq<char>, name: Seq<char>)
    requires
        home.len() > 0,
        home.last() != '/',
    ensures
        unit_path(home, name) == home + "/.config/systemd/user/"@ + name,
        wants_path(home, name) == home + "/.config/systemd/user/default.target.wants/"@ + name,
        agent_path(home, name) == home + "/Library/LaunchAgents/"@ + name + ".plist"@,
{
    reveal_strlit(".config");
    reveal_strlit("systemd");
    reveal_strlit("user");
    reveal_strlit("default.target.wants");
    reveal_strlit("Library");
    reveal_strlit("LaunchAgents");
    reveal_strlit(".plist");
    reveal_strlit("/");
    reveal_strlit("/.config/systemd/user/");
    reveal_strlit("/.config/systemd/user/default.target.wants/");
    reveal_strlit("/Library/LaunchAgents/");
    let u = user_unit_dir(home);
    assert(u =~= home + "/"@ + ".config"@ + "/"@ + "systemd"@ + "/"@ + "user"@);
    assert(u.last() == 'r');
    assert(unit_path(home, name) =~= home + "/.config/systemd/user/"@ + name);
    assert(wants_path(home, name) =~= home + "/.config/systemd/user/default.target.wants/"@ + name);
    assert(agent_path(home, name) =~= home + "/Library/LaunchAgents/"@ + name + ".plist"@);
}

/// **Law: whose homes are looked at.** Of a directory of homes every entry that is a directory is one, and
/// no other; root's own is a home itself, where it is a directory.
pub proof fn law_whose_homes_are_looked_at(root: AccountRoot, home: Seq<char>)
    ensures
        root.path@ == "/root"@ ==> (homes_in(root).contains(home) <==> root.is_dir && home == "/root"@),
        root.path@ != "/root"@ ==> (homes_in(root).contains(home) <==> exists|i: int|
            0 <= i < root.entries@.len() && (#[trigger] root.entries@[i]).1 && root.entries@[i].0@ == home),
{
    lemma_dirs_among(root.entries@, home);
    if root.path@ == "/root"@ && root.is_dir {
        assert(homes_in(root)[0] == "/root"@);
    }
}

proof fn lemma_dirs_among(entries: Seq<(String, bool)>, home: Seq<char>)
    ensures
        dirs_among(entries).contains(home) <==> exists|i: int|
            0 <= i < entries.len() && (#[trigger] entries[i]).1 && entries[i].0@ == home,
    decreases entries.len(),
{
    if entries.len() > 0 {
        let prior = entries.drop_last();
        lemma_dirs_among(prior, home);
        if entries.last().1 {
            text::lemma_push_contains(dirs_among(prior), entries.last().0@);
        }
        assert(entries.last() == entries[entries.len() - 1]);
        if exists|i: int| 0 <= i < prior.len() && (#[trigger] prior[i]).1 && prior[i].0@ == home {
            let i = choose|i: int| 0 <= i < prior.len() && (#[trigger] prior[i]).1 && prior[i].0@ == home;
            assert(entries[i] == prior[i]);
        }
        if exists|i: int| 0 <= i < entries.len() && (#[trigger] entries[i]).1 && entries[i].0@ == home {
            let i = choose|i: int| 0 <= i < entries.len() && (#[trigger] entries[i]).1 && entries[i].0@ == home;
            if i < prior.len() {
                assert(prior[i] == entries[i]);
            }
        }
    }
}

/// **Law: the homes of all directories are the homes of each.**
pub proof fn law_every_root_is_looked_at(roots: Seq<AccountRoot>, root: AccountRoot)
    ensures
        homes_of(Seq::empty()).len() == 0,
        homes_of(roots.push(root)) == homes_of(roots) + homes_in(root),
{
    assert(roots.push(root).drop_last() =~= roots);
}

/// **Law: what is found in a home.** A unit file that is there is a registration of that home, with its
/// owner and its path, and so is an agent file; the link that enables the unit goes with either where it
/// is there. Nothing else is found, and every home is looked through.
pub proof fn law_what_is_found_in_a_home(
    facts: Seq<HomeFacts>,
    f: HomeFacts,
    unit: Seq<char>,
    label: Seq<char>,
)
    ensures
        registrations_of(Seq::empty(), unit, label).len() == 0,
        registrations_of(facts.push(f), unit, label) == registrations_of(facts, unit, label) + registrations_in(
            f,
            unit,
            label,
        ),
        ({
            let found = registrations_in(f, unit, label);
            &&& found.len() == (if f.unit_present {
                1int
            } else {
                0
            }) + (if f.agent_present {
                1int
            } else {
                0
            })
            &&& f.unit_present ==> found[0].home == f.home@ && found[0].uid == f.unit_uid && found[0].registration
                == unit_path(f.home@, unit)
            &&& f.agent_present ==> found.last().home == f.home@ && found.last().uid == f.agent_uid
                && found.last().registration == agent_path(f.home@, label)
            &&& forall|i: int|
                0 <= i < found.len() ==> {
                    &&& f.wants_present ==> (#[trigger] found[i]).enablement == seq![wants_path(f.home@, unit)]
                    &&& !f.wants_present ==> found[i].enablement.len() == 0
                }
        }),
{
    assert(facts.push(f).drop_last() =~= facts);
}

/// **Law: what a removal looks at and what it unlinks are the same files.** The registration and every link
/// that enables it are looked at before anything is done, and all of them, and nothing else, are unlinked.
pub proof fn law_a_removal_unlinks_what_it_looked_at(r: RegistrationModel, path: Seq<char>)
    ensures
        touched(r).contains(path) <==> path == r.registration || r.enablement.contains(path),
        removal_steps(r).contains(StepModel::Unlink(path)) <==> touched(r).contains(path),
        removal_steps(r).len() == r.enablement.len() + 2,
        removal_steps(r)[0] == StepModel::Stop,
{
    let t = touched(r);
    let s = removal_steps(r);
    assert(t[0] == r.registration);
    assert(s[s.len() - 1] == StepModel::Unlink(r.registration));
    if r.enablement.contains(path) {
        let k = choose|k: int| 0 <= k < r.enablement.len() && r.enablement[k] == path;
        assert(t[k + 1] == path);
        assert(s[k + 1] == StepModel::Unlink(path));
    }
    if t.contains(path) {
        let k = choose|k: int| 0 <= k < t.len() && t[k] == path;
        if k > 0 {
            assert(r.enablement[k - 1] == path);
        }
    }
    if s.contains(StepModel::Unlink(path)) {
        let k = choose|k: int| 0 <= k < s.len() && s[k] == StepModel::Unlink(path);
        assert(k > 0);
        if k < s.len() - 1 {
            assert(s[k] == StepModel::Unlink(r.enablement[k - 1]));
            assert(r.enablement[k - 1] == path);
        }
    }
}

/// **Law: a refusal names the link.** It names the file that was to go, the link on the way to it, and the
/// home that it would lead out of.
pub proof fn law_a_refusal_names_the_link(path: Seq<char>, link: Seq<char>, home: Seq<char>)
    ensures
        text::has(link_refusal(path, link, home), path),
        text::has(link_refusal(path, link, home), link),
        text::has(link_refusal(path, link, home), home),
{
    let a = "refusing to remove \""@;
    let b = "\": the path component \""@;
    let c = "\" is a symlink, so removing it as root could delete a file outside "@;
    let m = link_refusal(path, link, home);
    text::law_parts_are_found(a, path, b + link + c + home);
    assert(a + path + (b + link + c + home) =~= m);
    text::law_parts_are_found(a + path + b, link, c + home);
    assert(a + path + b + link + (c + home) =~= m);
    text::law_parts_are_found(a + path + b + link + c, home, Seq::empty());
    assert(a + path + b + link + c + home + Seq::<char>::empty() =~= m);
}

/// **Law: a sweep reports every home it found something in.** A home is reported as cleared where its
/// removal succeeded, and as failed, with the reason, where it did not; one by one, and none is passed over.
pub proof fn law_a_sweep_reports_every_home(
    found: Seq<RegistrationModel>,
    r: RegistrationModel,
    outcomes: Seq<Result<(), Error>>,
    e: Error,
)
    requires
        outcomes.len() > found.len(),
    ensures
        homes_removed(Seq::empty(), outcomes).len() == 0,
        homes_failed(Seq::empty(), outcomes).len() == 0,
        outcomes[found.len() as int] is Ok ==> homes_removed(found.push(r), outcomes) == homes_removed(
            found,
            outcomes,
        ).push(r.home) && homes_failed(found.push(r), outcomes) == homes_failed(found, outcomes),
        outcomes[found.len() as int] == Err::<(), Error>(e) ==> homes_failed(found.push(r), outcomes)
            == homes_failed(found, outcomes).push((r.home, e.message@)) && homes_removed(found.push(r), outcomes)
            == homes_removed(found, outcomes),
        homes_removed(found, outcomes).len() + homes_failed(found, outcomes).len() == found.len(),
    decreases found.len(),
{
    assert(found.push(r).drop_last() =~= found);
    if found.len() > 0 {
        law_a_sweep_reports_every_home(found.drop_last(), r, outcomes, e);
    }
}

/// **Law: a registration is seen whole.**
pub proof fn law_a_registration_is_seen_whole(r: UserScopeRegistration, p: String)
    ensures
        r@.home == r.home@,
        r@.uid == r.uid,
        r@.registration == r.registration@,
        r@.enablement.len() == r.enablement@.len(),
        forall|i: int| 0 <= i < r.enablement@.len() ==> #[trigger] r@.enablement[i] == r.enablement@[i]@,
        RemovalStep::Stop@ == StepModel::Stop,
        RemovalStep::Unlink(p)@ == StepModel::Unlink(p@),
{
}

/// **Law: every registration that was found is removed, or tried.** Each has an outcome of its own, and that is
/// what the removal answered of it.
pub proof fn law_every_registration_is_tried<R: Fn(&UserScopeRegistration) -> Result<(), Error>>(
    remove_one: R,
    found: Seq<UserScopeRegistration>,
    outcomes: Seq<Result<(), Error>>,
    k: int,
)
    requires
        swept(remove_one, found, outcomes),
        0 <= k < found.len(),
    ensures
        outcomes.len() == found.len(),
        call_ensures(remove_one, (&found[k],), outcomes[k]),
{
}

} // verus!
