//! The auto-update beacon, as far as the node speaks for it: where its status lies, which program is
//! asked, and what an answer means.
//!
//! The beacon alone decides what is installed. The node reads its status file and runs its program;
//! what either says is handed on unchanged.
use vstd::prelude::*;

use crate::json::{entry, entry_models, model, named, object, truth, Json, JsonModel};
use crate::meta::ErrorCode;
use crate::oracle::{all_no, askable, first_yes, may_say};
use crate::paths::{inside_for, inside_windows, join_for, join_windows};
use crate::server::frames::{error_envelope, result_envelope, rpc_error, rpc_result};
use crate::state::Os;
use crate::text;

verus! {

/// The variable that names the directory of the beacon's status.
pub const STATUS_DIR_ENV: &'static str = "DIG_UPDATER_STATUS_DIR";

/// The variable that names the beacon's program.
pub const CLI_BIN_ENV: &'static str = "DIG_UPDATER_BIN";

/// The directory of the beacon's status.
pub open spec fn beacon_dir(
    os: Os,
    named: Option<Seq<char>>,
    program_data: Option<Seq<char>>,
) -> Seq<char> {
    match named {
        Some(d) => d,
        None => if os == Os::Windows {
            inside_windows(
                inside_windows(
                    match program_data {
                        Some(d) => d,
                        None => "C:\\ProgramData"@,
                    },
                    "DIG"@,
                ),
                "updater-status"@,
            )
        } else {
            "/var/lib/dig-updater-status"@
        },
    }
}

/// The directory of the beacon's status: the one that was named, else the one of the operating
/// system.
pub fn status_dir(os: Os, named: Option<&str>, program_data: Option<&str>) -> (r: String)
    ensures
        r@ == beacon_dir(os, text::opt_str_view(named), text::opt_str_view(program_data)),
{
    match named {
        Some(d) => d.to_owned(),
        None => {
            if os == Os::Windows {
                let base = match program_data {
                    Some(d) => d.to_owned(),
                    None => "C:\\ProgramData".to_owned(),
                };
                join_windows(join_windows(base.as_str(), "DIG").as_str(), "updater-status")
            } else {
                "/var/lib/dig-updater-status".to_owned()
            }
        },
    }
}

/// The path of the beacon's status.
pub fn status_path(os: Os, named: Option<&str>, program_data: Option<&str>) -> (r: String)
    ensures
        r@ == inside_for(
            os,
            beacon_dir(os, text::opt_str_view(named), text::opt_str_view(program_data)),
            "status.json"@,
        ),
{
    join_for(os, status_dir(os, named, program_data).as_str(), "status.json")
}

/// The file name of the beacon's program.
pub open spec fn program_name(os: Os) -> Seq<char> {
    if os == Os::Windows {
        "dig-updater.exe"@
    } else {
        "dig-updater"@
    }
}

/// The file name of the beacon's program.
pub fn cli_file_name(os: Os) -> (r: &'static str)
    ensures
        r@ == program_name(os),
{
    if os == Os::Windows {
        "dig-updater.exe"
    } else {
        "dig-updater"
    }
}

/// The directories the installer places programs in.
pub open spec fn program_dirs(os: Os, program_files: Option<Seq<char>>) -> Seq<Seq<char>> {
    if os == Os::Windows {
        seq![
            inside_windows(
                match program_files {
                    Some(d) => d,
                    None => "C:\\Program Files"@,
                },
                "DIG"@,
            ),
        ]
    } else {
        seq!["/usr/local/bin"@, "/opt/dig/bin"@]
    }
}

/// The directories the installer places programs in.
pub fn conventional_bin_dirs(os: Os, program_files: Option<&str>) -> (r: Vec<String>)
    ensures
        text::views(r@) == program_dirs(os, text::opt_str_view(program_files)),
{
    let mut out: Vec<String> = Vec::new();
    if os == Os::Windows {
        let base = match program_files {
            Some(d) => d.to_owned(),
            None => "C:\\Program Files".to_owned(),
        };
        out.push(join_windows(base.as_str(), "DIG"));
    } else {
        out.push("/usr/local/bin".to_owned());
        out.push("/opt/dig/bin".to_owned());
    }
    proof {
        assert(text::views(out@) =~= program_dirs(os, text::opt_str_view(program_files)));
    }
    out
}

/// Where the beacon's program is looked for, in order: the path that was named, beside the running
/// program, and where the installer places programs.
pub open spec fn program_places(
    os: Os,
    named: Option<Seq<char>>,
    exe_dir: Option<Seq<char>>,
    program_files: Option<Seq<char>>,
) -> Seq<Seq<char>> {
    let first = match named {
        Some(p) => seq![p],
        None => Seq::empty(),
    };
    let second = match exe_dir {
        Some(d) => seq![inside_for(os, d, program_name(os))],
        None => Seq::empty(),
    };
    first + second + program_dirs(os, program_files).map_values(
        |d: Seq<char>| inside_for(os, d, program_name(os)),
    )
}

/// The absolute path of the beacon's program: the first place that holds a file. A bare name is never
/// looked up. Where no place holds one the beacon is not installed.
pub fn resolve_cli_binary<F: Fn(&str) -> bool>(
    os: Os,
    named: Option<&str>,
    exe_dir: Option<&str>,
    program_files: Option<&str>,
    is_file: F,
) -> (r: Option<String>)
    requires
        askable(
            is_file,
            program_places(
                os,
                text::opt_str_view(named),
                text::opt_str_view(exe_dir),
                text::opt_str_view(program_files),
            ),
        ),
    ensures
        ({
            let places = program_places(
                os,
                text::opt_str_view(named),
                text::opt_str_view(exe_dir),
                text::opt_str_view(program_files),
            );
            match r {
                Some(path) => exists|k: int| #[trigger]
                    first_yes(is_file, places, k) && path@ == places[k],
                None => all_no(is_file, places),
            }
        }),
{
    let ghost places = program_places(
        os,
        text::opt_str_view(named),
        text::opt_str_view(exe_dir),
        text::opt_str_view(program_files),
    );
    let name = cli_file_name(os);
    let mut candidates: Vec<String> = Vec::new();
    if let Some(p) = named {
        candidates.push(p.to_owned());
    }
    if let Some(d) = exe_dir {
        candidates.push(join_for(os, d, name));
    }
    let dirs = conventional_bin_dirs(os, program_files);
    let ghost head = text::views(candidates@);
    let ghost tail = text::views(dirs@).map_values(
        |d: Seq<char>| inside_for(os, d, program_name(os)),
    );
    proof {
        assert(head + tail =~= places);
    }
    let mut k: usize = 0;
    while k < dirs.len()
        invariant
            k <= dirs@.len(),
            name@ == program_name(os),
            tail == text::views(dirs@).map_values(
                |d: Seq<char>| inside_for(os, d, program_name(os)),
            ),
            text::views(candidates@) == head + tail.take(k as int),
        decreases dirs@.len() - k,
    {
        let ghost before = candidates@;
        candidates.push(join_for(os, dirs[k].as_str(), name));
        proof {
            assert(tail[k as int] == inside_for(os, dirs@[k as int]@, program_name(os)));
            assert(text::views(candidates@) =~= text::views(before).push(tail[k as int]));
            assert(text::views(candidates@) =~= head + tail.take(k + 1));
        }
        k += 1;
    }
    proof {
        assert(tail.take(tail.len() as int) =~= tail);
        assert(text::views(candidates@) == places);
    }
    let mut i: usize = 0;
    while i < candidates.len()
        invariant
            i <= candidates@.len(),
            text::views(candidates@) == places,
            places == program_places(
                os,
                text::opt_str_view(named),
                text::opt_str_view(exe_dir),
                text::opt_str_view(program_files),
            ),
            askable(is_file, places),
            forall|j: int| 0 <= j < i ==> #[trigger] may_say(is_file, places[j], false),
        decreases candidates@.len() - i,
    {
        let c = candidates[i].as_str();
        proof {
            assert(places[i as int] == c@);
            assert(all_no(is_file, places.take(i as int)));
        }
        let found = is_file(c);
        proof {
            assert(call_ensures(is_file, (c,), found));
            assert(may_say(is_file, places[i as int], found));
        }
        if found {
            proof {
                assert(first_yes(is_file, places, i as int));
            }
            return Some(candidates[i].clone());
        }
        i += 1;
    }
    None
}

// ---- answers -----------------------------------------------------------------------------------

/// What a controller is told: the beacon's own words, or an error.
#[derive(Debug, PartialEq, Eq)]
pub enum Reply {
    /// What the beacon's program answered.
    Answer(Json),
    /// The beacon's status, where it is installed.
    Status { installed: bool, status: Option<Json> },
    /// An error.
    Refused { code: ErrorCode, message: String },
}

/// What is said of the status file: whether there is one, and what it holds where it holds something.
pub open spec fn status_entries(installed: bool, status: Option<Json>) -> Seq<
    (Seq<char>, JsonModel),
> {
    match status {
        Some(s) => seq![
            named("installed"@, JsonModel::Bool(installed)),
            named("status"@, model(s)),
        ],
        None => seq![named("installed"@, JsonModel::Bool(installed))],
    }
}

impl Reply {
    /// The envelope of a reply.
    pub open spec fn envelope(self, id: JsonModel) -> JsonModel {
        match self {
            Reply::Answer(result) => result_envelope(id, model(result)),
            Reply::Status { installed, status } => result_envelope(
                id,
                JsonModel::Object(status_entries(installed, status)),
            ),
            Reply::Refused { code, message } => error_envelope(id, code, message@),
        }
    }

    /// The envelope of a reply.
    pub fn into_json(self, id: Json) -> (r: Json)
        ensures
            model(r) == self.envelope(model(id)),
    {
        match self {
            Reply::Answer(result) => rpc_result(id, result),
            Reply::Status { installed, status } => {
                let ghost told = status_entries(installed, status);
                let mut v: Vec<(String, Json)> = Vec::new();
                v.push(entry("installed", truth(installed)));
                if let Some(s) = status {
                    v.push(entry("status", s));
                }
                proof {
                    assert(entry_models(v@) =~= told);
                }
                rpc_result(id, object(v))
            },
            Reply::Refused { code, message } => rpc_error(id, code, message.as_str()),
        }
    }

    /// Whether this is the error of that class and wording.
    pub open spec fn refuses(self, code: ErrorCode, message: Seq<char>) -> bool {
        self matches Reply::Refused { code: c, message: m } && c == code && m@ == message
    }
}

/// Why the beacon's program gave no usable answer.
#[derive(Debug, PartialEq, Eq)]
pub enum CliError {
    /// There is none.
    NotInstalled,
    /// It could not be started.
    Spawn(String),
    /// It declined, and said why.
    Declined(String),
    /// It ended in a way that says nothing.
    Malformed { exit_code: Option<i32>, stdout: String, stderr: String },
}

/// How an exit code is shown.
pub open spec fn exit_text(code: Option<i32>) -> Seq<char> {
    match code {
        Some(n) => "Some("@ + text::signed_decimal(n as int) + ")"@,
        None => "None"@,
    }
}

/// What is said of an end that says nothing.
pub open spec fn unparsable(code: Option<i32>, stdout: Seq<char>, stderr: Seq<char>) -> Seq<char> {
    "dig-updater returned unparsable output (exit "@ + exit_text(code) + "): stdout="@
        + text::debug_form(stdout) + " stderr="@ + text::debug_form(stderr)
}

impl CliError {
    /// The class of the error.
    pub open spec fn class(self) -> ErrorCode {
        match self {
            CliError::NotInstalled => ErrorCode::NotSupported,
            _ => ErrorCode::ControlError,
        }
    }

    /// What is said of it.
    pub open spec fn sentence(self) -> Seq<char> {
        match self {
            CliError::NotInstalled =>
                "the DIG auto-update beacon (dig-updater) is not installed on this machine"@,
            CliError::Spawn(e) => "failed to invoke dig-updater: "@ + e@,
            CliError::Declined(detail) => "dig-updater declined the request: "@ + detail@,
            CliError::Malformed { exit_code, stdout, stderr } => unparsable(
                exit_code,
                stdout@,
                stderr@,
            ),
        }
    }

    /// What a controller is told.
    pub fn into_response(self) -> (r: Reply)
        ensures
            r.refuses(self.class(), self.sentence()),
    {
        match self {
            CliError::NotInstalled => Reply::Refused {
                code: ErrorCode::NotSupported,
                message: "the DIG auto-update beacon (dig-updater) is not installed on this machine".to_owned(),
            },
            CliError::Spawn(e) => {
                let mut m = "failed to invoke dig-updater: ".to_owned();
                m.append(e.as_str());
                Reply::Refused { code: ErrorCode::ControlError, message: m }
            },
            CliError::Declined(detail) => {
                let mut m = "dig-updater declined the request: ".to_owned();
                m.append(detail.as_str());
                Reply::Refused { code: ErrorCode::ControlError, message: m }
            },
            CliError::Malformed { exit_code, stdout, stderr } => {
                let mut m = "dig-updater returned unparsable output (exit ".to_owned();
                let mut shown = "None".to_owned();
                if let Some(n) = exit_code {
                    shown = "Some(".to_owned();
                    shown.append(text::signed_number(n as i64).as_str());
                    shown.append(")");
                }
                m.append(shown.as_str());
                m.append("): stdout=");
                m.append(text::quoted(stdout.as_str()).as_str());
                m.append(" stderr=");
                m.append(text::quoted(stderr.as_str()).as_str());
                Reply::Refused { code: ErrorCode::ControlError, message: m }
            },
        }
    }
}

/// What came of running the beacon's program.
pub struct CliRun {
    /// Whether it exited with success.
    pub success: bool,
    /// Its exit code, where it has one.
    pub exit_code: Option<i32>,
    /// What it printed, parsed, where that is JSON.
    pub parsed: Option<Json>,
    /// What it printed.
    pub stdout: String,
    /// What it printed as errors.
    pub stderr: String,
}

/// Whether the program declined: it failed, and what it printed says so.
pub open spec fn declined(run: CliRun) -> bool {
    !run.success && (run.parsed matches Some(v) && v.text_field("status"@) == Some("error"@))
}

/// Why it declined.
pub open spec fn decline_detail(run: CliRun) -> Seq<char> {
    match run.parsed->0.text_field("detail"@) {
        Some(d) => d,
        None => "no detail given"@,
    }
}

/// Tell a run's answer, a refusal and a failure apart: an answer is a success that printed JSON, a
/// refusal a failure whose JSON says so, and anything else says nothing.
pub fn classify(run: CliRun) -> (r: Result<Json, CliError>)
    ensures
        run.success && run.parsed is Some ==> r == Ok::<Json, CliError>(run.parsed->0),
        declined(run) ==> (r matches Err(CliError::Declined(d)) && d@ == decline_detail(run)),
        !(run.success && run.parsed is Some) && !declined(run) ==> (r matches Err(
            CliError::Malformed { exit_code, stdout, stderr },
        ) && exit_code == run.exit_code && stdout@ == text::trimmed(run.stdout@) && stderr@
            == text::trimmed(run.stderr@)),
{
    let mut says_error = false;
    let mut detail: Option<String> = None;
    if let Some(v) = &run.parsed {
        if let Some(s) = v.get_str("status") {
            if text::same(s, "error") {
                says_error = true;
                detail = match v.get_str("detail") {
                    Some(d) => Some(d.to_owned()),
                    None => Some("no detail given".to_owned()),
                };
            }
        }
    }
    if run.success {
        if let Some(v) = run.parsed {
            return Ok(v);
        }
    } else if says_error {
        if let Some(d) = detail {
            return Err(CliError::Declined(d));
        }
    }
    Err(
        CliError::Malformed {
            exit_code: run.exit_code,
            stdout: text::trim(run.stdout.as_str()),
            stderr: text::trim(run.stderr.as_str()),
        },
    )
}

/// What a controller is told of a run.
pub open spec fn is_run_reply(run: Result<CliRun, CliError>, r: Reply) -> bool {
    match run {
        Err(e) => r.refuses(e.class(), e.sentence()),
        Ok(c) => if c.success && c.parsed is Some {
            r == Reply::Answer(c.parsed->0)
        } else if declined(c) {
            r.refuses(
                ErrorCode::ControlError,
                "dig-updater declined the request: "@ + decline_detail(c),
            )
        } else {
            r.refuses(
                ErrorCode::ControlError,
                unparsable(c.exit_code, text::trimmed(c.stdout@), text::trimmed(c.stderr@)),
            )
        },
    }
}

/// What a controller is told of a run.
pub fn answer_run(run: Result<CliRun, CliError>) -> (r: Reply)
    ensures
        is_run_reply(run, r),
{
    match run {
        Err(e) => e.into_response(),
        Ok(c) => match classify(c) {
            Ok(v) => Reply::Answer(v),
            Err(e) => e.into_response(),
        },
    }
}

/// What was read of the beacon's status: nothing there, text that is no JSON, or a value.
pub enum StatusFile {
    Absent,
    Broken(String),
    Value(Json),
}

/// The beacon's status. That there is none is an answer; a file that is no JSON is an error.
pub fn status(file: StatusFile) -> (r: Reply)
    ensures
        match file {
            StatusFile::Absent => r == (Reply::Status { installed: false, status: None }),
            StatusFile::Value(v) => r == (Reply::Status { installed: true, status: Some(v) }),
            StatusFile::Broken(e) => r.refuses(
                ErrorCode::ControlError,
                "beacon status.json is present but not valid JSON: "@ + e@,
            ),
        },
{
    match file {
        StatusFile::Absent => Reply::Status { installed: false, status: None },
        StatusFile::Value(v) => Reply::Status { installed: true, status: Some(v) },
        StatusFile::Broken(e) => {
            let mut m = "beacon status.json is present but not valid JSON: ".to_owned();
            m.append(e.as_str());
            Reply::Refused { code: ErrorCode::ControlError, message: m }
        },
    }
}

// ---- requests ----------------------------------------------------------------------------------

/// What a request without a channel is told.
pub const CHANNEL_MISSING: &'static str = "control.updater.setChannel requires params.channel (a string, e.g. \"alpha\")";

/// The arguments that set the beacon's channel, or what a request that names none is told. Every
/// answer is asked for as JSON.
pub fn set_channel(params: &Json) -> (r: Result<Vec<String>, Reply>)
    ensures
        match params.text_field("channel"@) {
            Some(c) => r matches Ok(args) && text::views(args@) == seq![
                "channel"@,
                "set"@,
                c,
                "--json"@,
            ],
            None => r matches Err(reply) && reply.refuses(
                ErrorCode::InvalidParams,
                CHANNEL_MISSING@,
            ),
        },
{
    match params.get_str("channel") {
        None => Err(
            Reply::Refused {
                code: ErrorCode::InvalidParams,
                message: CHANNEL_MISSING.to_owned(),
            },
        ),
        Some(c) => {
            let mut out: Vec<String> = Vec::new();
            out.push("channel".to_owned());
            out.push("set".to_owned());
            out.push(c.to_owned());
            out.push("--json".to_owned());
            proof {
                assert(text::views(out@) =~= seq!["channel"@, "set"@, c@, "--json"@]);
            }
            Ok(out)
        },
    }
}

/// The arguments that suspend updates.
pub open spec fn pause_arguments(until: Option<u64>) -> Seq<Seq<char>> {
    match until {
        Some(n) => seq!["pause"@, "--until"@, text::decimal(n as nat), "--json"@],
        None => seq!["pause"@, "--json"@],
    }
}

/// The arguments that suspend updates, until a moment where one is named.
pub fn pause(params: &Json) -> (r: Vec<String>)
    ensures
        text::views(r@) == pause_arguments(params.number_field("until"@)),
{
    let mut out: Vec<String> = Vec::new();
    out.push("pause".to_owned());
    if let Some(n) = params.get_u64("until") {
        out.push("--until".to_owned());
        out.push(text::number(n));
    }
    out.push("--json".to_owned());
    proof {
        assert(text::views(out@) =~= pause_arguments(params.number_field("until"@)));
    }
    out
}

/// The arguments that let updates go on.
pub fn resume() -> (r: Vec<String>)
    ensures
        text::views(r@) == seq!["resume"@, "--json"@],
{
    let mut out: Vec<String> = Vec::new();
    out.push("resume".to_owned());
    out.push("--json".to_owned());
    proof {
        assert(text::views(out@) =~= seq!["resume"@, "--json"@]);
    }
    out
}

/// The arguments that look for updates at once.
pub fn check_now() -> (r: Vec<String>)
    ensures
        text::views(r@) == seq!["check"@, "--now"@, "--json"@],
{
    let mut out: Vec<String> = Vec::new();
    out.push("check".to_owned());
    out.push("--now".to_owned());
    out.push("--json".to_owned());
    proof {
        assert(text::views(out@) =~= seq!["check"@, "--now"@, "--json"@]);
    }
    out
}

// ---- laws --------------------------------------------------------------------------------------

/// **Law: the program is never found by a bare name.** Every place it is looked for is the path that
/// was named or a path inside a directory.
pub proof fn law_the_program_is_looked_for_by_path(
    os: Os,
    exe_dir: Option<Seq<char>>,
    program_files: Option<Seq<char>>,
    i: int,
)
    requires
        0 <= i < program_places(os, None, exe_dir, program_files).len(),
    ensures
        exists|d: Seq<char>|
            program_places(os, None, exe_dir, program_files)[i] == #[trigger] inside_for(
                os,
                d,
                program_name(os),
            ),
{
    let places = program_places(os, None, exe_dir, program_files);
    let dirs = program_dirs(os, program_files);
    let shift = if exe_dir is Some {
        1int
    } else {
        0int
    };
    if i < shift {
        assert(places[i] == inside_for(os, exe_dir->0, program_name(os)));
    } else {
        assert(places[i] == inside_for(os, dirs[i - shift], program_name(os)));
    }
}

/// **Law: a failed run is never taken for an answer.** Only a program that exited with success has
/// its words handed on.
pub proof fn law_a_failed_run_is_never_an_answer(run: CliRun, r: Reply)
    requires
        is_run_reply(Ok(run), r),
        !run.success,
    ensures
        r is Refused,
{
}

/// **Law: where the beacon's status lies.** In the directory that was named, whatever the system; else, on
/// Windows, in its own directory inside the program-data directory, and elsewhere in the machine's.
pub proof fn law_where_the_beacons_status_lies(os: Os, d: Seq<char>, data: Option<Seq<char>>)
    ensures
        beacon_dir(os, Some(d), data) == d,
        beacon_dir(Os::Linux, None, data) == "/var/lib/dig-updater-status"@,
        beacon_dir(Os::MacOs, None, data) == "/var/lib/dig-updater-status"@,
        beacon_dir(Os::Windows, None, Some(d)) == inside_windows(inside_windows(d, "DIG"@), "updater-status"@),
        beacon_dir(Os::Windows, None, None) == beacon_dir(Os::Windows, None, Some("C:\\ProgramData"@)),
{
}

/// **Law: where the beacon's program is looked for.** First at the path that was named, then beside the
/// running program, then where the installer places programs, each in turn; nowhere else. On Windows the
/// file is an executable by its name.
pub proof fn law_where_the_program_is_looked_for(
    os: Os,
    p: Seq<char>,
    d: Seq<char>,
    files: Option<Seq<char>>,
)
    ensures
        program_places(os, Some(p), Some(d), files).len() == 2 + (if os == Os::Windows {
            1int
        } else {
            2
        }),
        program_places(os, Some(p), Some(d), files)[0] == p,
        program_places(os, Some(p), Some(d), files).skip(1) == program_places(os, None, Some(d), files),
        os == Os::Windows ==> program_places(os, None, Some(d), files)[0] == inside_for(os, d, "dig-updater.exe"@),
        os != Os::Windows ==> program_places(os, None, Some(d), files)[0] == inside_for(os, d, "dig-updater"@),
        program_places(os, None, Some(d), files).skip(1) == program_places(os, None, None, files),
        os != Os::Windows ==> program_places(os, None, None, files) == seq![
            inside_for(os, "/usr/local/bin"@, "dig-updater"@),
            inside_for(os, "/opt/dig/bin"@, "dig-updater"@),
        ],
        program_places(Os::Windows, None, None, Some(p)) == seq![
            inside_for(Os::Windows, inside_windows(p, "DIG"@), "dig-updater.exe"@),
        ],
        program_places(Os::Windows, None, None, None) == program_places(
            Os::Windows,
            None,
            None,
            Some("C:\\Program Files"@),
        ),
{
    let all = program_places(os, Some(p), Some(d), files);
    assert(all.skip(1) =~= program_places(os, None, Some(d), files));
    assert(program_places(os, None, Some(d), files).skip(1) =~= program_places(os, None, None, files));
    if os != Os::Windows {
        assert(program_places(os, None, None, files) =~= seq![
            inside_for(os, "/usr/local/bin"@, "dig-updater"@),
            inside_for(os, "/opt/dig/bin"@, "dig-updater"@),
        ]);
    }
    assert(program_places(Os::Windows, None, None, Some(p)) =~= seq![
        inside_for(Os::Windows, inside_windows(p, "DIG"@), "dig-updater.exe"@),
    ]);
}

/// **Law: what a run of the beacon's program means.** A success that printed JSON is its answer, handed on
/// as it is. A failure whose JSON says so is a refusal with the program's own reason. Anything else is an
/// error that shows what was printed.
pub proof fn law_what_a_run_means(run: CliRun, v: Json, why: Seq<char>, r: Reply)
    requires
        is_run_reply(Ok(run), r),
    ensures
        run.success && run.parsed == Some(v) ==> r == Reply::Answer(v),
        !run.success && run.parsed == Some(v) && v.text_field("status"@) == Some("error"@) && v.text_field(
            "detail"@,
        ) == Some(why) ==> (r matches Reply::Refused { code, message } && code == ErrorCode::ControlError
            && text::has(message@, why)),
        !(run.success && run.parsed is Some) ==> (r matches Reply::Refused { code, .. } && code
            == ErrorCode::ControlError),
        run.parsed is None ==> (r matches Reply::Refused { message, .. } && text::has(
            message@,
            text::debug_form(text::trimmed(run.stdout@)),
        ) && text::has(message@, text::debug_form(text::trimmed(run.stderr@)))),
{
    let p = "dig-updater declined the request: "@;
    text::law_parts_are_found(p, why, Seq::empty());
    assert(p + why + Seq::<char>::empty() =~= p + why);
    let a = "dig-updater returned unparsable output (exit "@ + exit_text(run.exit_code) + "): stdout="@;
    let o = text::debug_form(text::trimmed(run.stdout@));
    let b = " stderr="@;
    let e = text::debug_form(text::trimmed(run.stderr@));
    text::law_parts_are_found(a, o, b + e);
    assert(a + o + (b + e) =~= unparsable(run.exit_code, text::trimmed(run.stdout@), text::trimmed(run.stderr@)));
    text::law_parts_are_found(a + o + b, e, Seq::empty());
    assert(a + o + b + e + Seq::<char>::empty() =~= unparsable(
        run.exit_code,
        text::trimmed(run.stdout@),
        text::trimmed(run.stderr@),
    ));
}

/// **Law: a beacon that is not there is not supported; any other failure is one of the call.** What is
/// said of a failure holds what was learned of it.
pub proof fn law_failures_of_the_beacon_are_told(e: CliError, r: Reply)
    requires
        is_run_reply(Err(e), r),
    ensures
        r matches Reply::Refused { code, .. } && (code == ErrorCode::NotSupported <==> e is NotInstalled) && (code
            == ErrorCode::ControlError <==> !(e is NotInstalled)),
        e matches CliError::Spawn(why) ==> (r matches Reply::Refused { message, .. } && text::has(
            message@,
            why@,
        )),
        e matches CliError::Declined(why) ==> (r matches Reply::Refused { message, .. } && text::has(
            message@,
            why@,
        )),
{
    match e {
        CliError::Spawn(why) => {
            let p = "failed to invoke dig-updater: "@;
            text::law_parts_are_found(p, why@, Seq::empty());
            assert(p + why@ + Seq::<char>::empty() =~= p + why@);
        },
        CliError::Declined(why) => {
            let p = "dig-updater declined the request: "@;
            text::law_parts_are_found(p, why@, Seq::empty());
            assert(p + why@ + Seq::<char>::empty() =~= p + why@);
        },
        _ => {},
    }
}

/// **Law: what is said of the status file.** Whether the beacon is installed, and what the file holds
/// where it holds something; the answer carries the id of the question.
pub proof fn law_what_is_said_of_the_status(installed: bool, s: Json, id: JsonModel)
    ensures
        status_entries(installed, None) == seq![("installed"@, JsonModel::Bool(installed))],
        status_entries(installed, Some(s)) == seq![
            ("installed"@, JsonModel::Bool(installed)),
            ("status"@, model(s)),
        ],
        (Reply::Answer(s)).envelope(id) == result_envelope(id, model(s)),
        (Reply::Status { installed, status: Some(s) }).envelope(id) == result_envelope(
            id,
            JsonModel::Object(status_entries(installed, Some(s))),
        ),
{
    assert(status_entries(installed, None) =~= seq![("installed"@, JsonModel::Bool(installed))]);
}

/// **Law: a pause lasts until the moment that was named.** The moment is handed to the beacon as its
/// decimal digits; without one the pause has no end. Every answer is asked for as JSON.
pub proof fn law_a_pause_lasts_until_the_named_moment(n: u64)
    ensures
        pause_arguments(None) == seq!["pause"@, "--json"@],
        pause_arguments(Some(n)).len() == 4,
        pause_arguments(Some(n))[0] == "pause"@,
        pause_arguments(Some(n))[1] == "--until"@,
        crate::tokens::numeral(pause_arguments(Some(n))[2], 0xffff_ffff_ffff_ffff) == Some(n as nat),
        pause_arguments(Some(n))[3] == "--json"@,
{
    crate::tokens::law_decimal_reads_back(n as nat);
}

/// **Law: how an exit is shown.** By its number, where there is one, and a process that was ended has none.
pub proof fn law_how_an_exit_is_shown(n: i32, out: Seq<char>, err: Seq<char>)
    ensures
        exit_text(None) == "None"@,
        exit_text(Some(n)) == "Some("@ + text::signed_decimal(n as int) + ")"@,
        text::has(unparsable(Some(n), out, err), "Some("@ + text::signed_decimal(n as int) + ")"@),
        CliError::NotInstalled.class() == ErrorCode::NotSupported,
{
    let l = unparsable(Some(n), out, err);
    let a = "dig-updater returned unparsable output (exit "@;
    let e = exit_text(Some(n));
    let o = text::debug_form(out);
    let r = text::debug_form(err);
    text::lemma_begins_with_itself(l);
    text::law_a_text_holds_its_beginning(l, a + e + "): stdout="@ + o + " stderr="@, r);
    text::law_a_text_holds_its_beginning(l, a + e + "): stdout="@ + o, " stderr="@);
    text::law_a_text_holds_its_beginning(l, a + e + "): stdout="@, o);
    text::law_a_text_holds_its_beginning(l, a + e, "): stdout="@);
    text::law_a_text_holds_its_beginning(l, a, e);
}

} // verus!
