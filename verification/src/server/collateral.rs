//! The record of collateral epochs: what a question after one is answered, and what is said of keeping
//! the record up to date.
use vstd::prelude::*;

use crate::error::Error;
use crate::json::{entry_models, model, named, object, tells, value_of, Json, JsonModel};
use crate::log::{line_views, plain, Level, LineModel, LogLine};
use crate::spend_audit::mirror_round_length_ms;
use crate::text;

verus! {

/// How long is waited between two rounds, in milliseconds. The census and the collateral rounds keep
/// the same time, as a round is priced from what the census recorded.
pub fn round_interval_ms() -> (r: u64)
    ensures
        r == 600_000,
{
    mirror_round_length_ms() as u64
}

// ---- questions after an epoch ------------------------------------------------------------------

/// What the record holds of an epoch.
pub enum StoredEpoch {
    /// A record: whether this build knows its rules, which rules those are, and the record as JSON, or
    /// why it cannot be given as that.
    Found { interpretable: bool, protocol_version: u64, record: Result<Json, String> },
    /// Nothing.
    Absent,
    /// Something that cannot be read.
    Unreadable,
}

/// What a question that names no epoch is told.
pub const EPOCH_REQUIRED: &'static str = "params.epoch is required and is a one-based epoch number";

/// An answer without a record: why, and what else is told.
pub open spec fn no_record(reason: Seq<char>, more: Seq<(Seq<char>, JsonModel)>) -> JsonModel {
    JsonModel::Object(
        seq![named("record"@, JsonModel::Null), named("reason"@, JsonModel::Text(reason))] + more,
    )
}

/// What a question after an epoch is answered, by what the record holds of it.
pub open spec fn stored_answer(stored: StoredEpoch) -> JsonModel {
    match stored {
        StoredEpoch::Found { interpretable, protocol_version, record } => if !interpretable {
            no_record(
                "unimplemented_ruleset"@,
                seq![named("protocol_version"@, JsonModel::Number(protocol_version as int))],
            )
        } else {
            match record {
                Ok(v) => JsonModel::Object(seq![named("record"@, model(v))]),
                Err(e) => no_record(
                    "record_unreadable"@,
                    seq![named("detail"@, JsonModel::Text(e@))],
                ),
            }
        },
        StoredEpoch::Absent => no_record("not_recorded"@, Seq::empty()),
        StoredEpoch::Unreadable => no_record("record_unreadable"@, Seq::empty()),
    }
}

/// The epoch that is asked after, where one is. There is no epoch zero.
pub open spec fn asked_epoch(params: Option<Json>) -> Option<u64> {
    match params {
        Some(p) => match p.number_field("epoch"@) {
            Some(n) => if n >= 1 {
                Some(n)
            } else {
                None
            },
            None => None,
        },
        None => None,
    }
}

/// The epoch that is asked after, where one is.
pub fn requested_epoch(params: Option<&Json>) -> (r: Option<u64>)
    ensures
        r == asked_epoch(value_of(params)),
{
    match params {
        Some(p) => match p.get_u64("epoch") {
            Some(n) => {
                if n >= 1 {
                    Some(n)
                } else {
                    None
                }
            },
            None => None,
        },
        None => None,
    }
}

/// What else is told, where there is something.
pub open spec fn more_models(more: Option<(&str, Json)>) -> Seq<(Seq<char>, JsonModel)> {
    match more {
        Some(m) => seq![named(m.0@, model(m.1))],
        None => Seq::empty(),
    }
}

fn without_record(reason: &str, more: Option<(&str, Json)>) -> (r: Json)
    ensures
        model(r) == no_record(reason@, more_models(more)),
{
    let ghost tail = more_models(more);
    let mut v: Vec<(String, Json)> = Vec::new();
    v.push(("record".to_owned(), Json::Null));
    v.push(("reason".to_owned(), Json::Text(reason.to_owned())));
    if let Some((name, value)) = more {
        v.push((name.to_owned(), value));
    }
    proof {
        assert(entry_models(v@) =~= no_record(reason@, tail)->Object_0);
    }
    object(v)
}

/// What a question after an epoch is answered, by what the record holds of it: the record itself only
/// where this build knows its rules.
pub fn answer_stored(stored: StoredEpoch) -> (r: Json)
    ensures
        model(r) == stored_answer(stored),
{
    match stored {
        StoredEpoch::Found { interpretable, protocol_version, record } => {
            if !interpretable {
                return without_record(
                    "unimplemented_ruleset",
                    Some(("protocol_version", Json::Uint(protocol_version))),
                );
            }
            match record {
                Ok(value) => {
                    let mut v: Vec<(String, Json)> = Vec::new();
                    v.push(("record".to_owned(), value));
                    proof {
                        assert(entry_models(v@) =~= seq![named("record"@, model(value))]);
                    }
                    object(v)
                },
                Err(e) => without_record("record_unreadable", Some(("detail", Json::Text(e)))),
            }
        },
        StoredEpoch::Absent => without_record("not_recorded", None),
        StoredEpoch::Unreadable => without_record("record_unreadable", None),
    }
}

/// What a question after an epoch is answered. A question that names none is told so, and no epoch is
/// looked up in its place.
pub fn collateral_epoch_answer<F: Fn(u64) -> StoredEpoch>(params: Option<&Json>, lookup: &F) -> (r:
    Json)
    requires
        forall|n: u64| call_requires(*lookup, (n,)),
    ensures
        match asked_epoch(value_of(params)) {
            None => model(r) == no_record(
                "invalid_epoch"@,
                seq![named("detail"@, JsonModel::Text(EPOCH_REQUIRED@))],
            ),
            Some(n) => exists|stored: StoredEpoch| #[trigger]
                call_ensures(*lookup, (n,), stored) && model(r) == stored_answer(stored),
        },
{
    match requested_epoch(params) {
        None => without_record(
            "invalid_epoch",
            Some(("detail", Json::Text(EPOCH_REQUIRED.to_owned()))),
        ),
        Some(n) => {
            let stored = lookup(n);
            answer_stored(stored)
        },
    }
}

// ---- bringing the record up --------------------------------------------------------------------

/// What came of recording the first epoch.
pub enum PutOutcome {
    Written,
    AlreadyPresent,
    /// The record holds another one, by those rules.
    Conflict { held_protocol_version: u64 },
}

/// What is said of a first epoch that was recorded.
pub const GENESIS_RECORDED: &'static str = "recorded the genesis collateral epoch";

/// What is said of a first epoch that differs.
pub const GENESIS_CONFLICT: &'static str = "the stored genesis collateral epoch differs from this build's; keeping the stored one";

/// What is said of a first epoch that could not be recorded.
pub const GENESIS_FAILED: &'static str = "could not record the genesis collateral epoch";

/// What is said of recording the first epoch; nothing where it was there.
pub fn bootstrap_line(path: &str, outcome: Result<PutOutcome, Error>) -> (r: Option<LogLine>)
    ensures
        match outcome {
            Ok(PutOutcome::Written) => r matches Some(l) && l@ == plain(
                Level::Info,
                GENESIS_RECORDED@,
            ).with("path"@, path@),
            Ok(PutOutcome::AlreadyPresent) => r is None,
            Ok(PutOutcome::Conflict { held_protocol_version }) => r matches Some(l) && l@ == plain(
                Level::Warn,
                GENESIS_CONFLICT@,
            ).with("path"@, path@).with(
                "held_protocol_version"@,
                text::decimal(held_protocol_version as nat),
            ),
            Err(e) => r matches Some(l) && l@ == plain(Level::Warn, GENESIS_FAILED@).with(
                "path"@,
                path@,
            ).with("error"@, e.message@),
        },
{
    match outcome {
        Ok(PutOutcome::Written) => Some(
            LogLine::new(Level::Info, GENESIS_RECORDED).with("path", path),
        ),
        Ok(PutOutcome::AlreadyPresent) => None,
        Ok(PutOutcome::Conflict { held_protocol_version }) => Some(
            LogLine::new(Level::Warn, GENESIS_CONFLICT).with("path", path).with_number(
                "held_protocol_version",
                held_protocol_version,
            ),
        ),
        Err(e) => Some(
            LogLine::new(Level::Warn, GENESIS_FAILED).with("path", path).with(
                "error",
                e.message.as_str(),
            ),
        ),
    }
}

/// Which epoch it is.
#[derive(Debug, Clone, Copy, PartialEq, Eq, Structural)]
pub enum CurrentEpoch {
    /// That one.
    Final(u64),
    /// None is in force.
    Undecided,
}

/// What is said of records that were dropped.
pub const PRUNED: &'static str = "truncated the collateral record history at the operator's configured retention";

/// What is said where records could not be dropped.
pub const NOT_PRUNED: &'static str = "could not apply the collateral retention policy";

/// What is said of dropping what the operator does not keep; nothing where there was nothing to drop.
pub fn retention_line(policy: &str, outcome: Result<u64, Error>) -> (r: Option<LogLine>)
    ensures
        match outcome {
            Ok(n) => if n == 0 {
                r is None
            } else {
                r matches Some(l) && l@ == plain(Level::Info, PRUNED@).with(
                    "dropped"@,
                    text::decimal(n as nat),
                ).with("policy"@, policy@)
            },
            Err(e) => r matches Some(l) && l@ == plain(Level::Warn, NOT_PRUNED@).with(
                "error"@,
                e.message@,
            ),
        },
{
    match outcome {
        Ok(n) => {
            if n == 0 {
                None
            } else {
                Some(
                    LogLine::new(Level::Info, PRUNED).with_number("dropped", n).with(
                        "policy",
                        policy,
                    ),
                )
            }
        },
        Err(e) => Some(
            LogLine::new(Level::Warn, NOT_PRUNED).with("error", e.message.as_str()),
        ),
    }
}

// ---- the census --------------------------------------------------------------------------------

/// How many coins were left out of the count, by why.
#[derive(Debug, Clone, Copy, PartialEq, Eq)]
pub struct Excluded {
    pub foreign_puzzle: u64,
    pub unreadable: u64,
    pub unattributed: u64,
    pub wrong_epoch: u64,
    pub not_yet_created: u64,
    pub spent_by_census_height: u64,
    pub undated: u64,
    pub block_reward: u64,
    pub below_requirement_unauthenticated: u64,
    pub superseded: u64,
}

/// What one count came to.
#[derive(Debug, Clone, Copy, PartialEq, Eq)]
pub struct CensusObservation {
    pub epoch: u64,
    pub census_height: u64,
    pub stores: u64,
    pub examined: u64,
    pub excluded: Excluded,
}

/// What is said of a count.
pub const CENSUSED: &'static str = "censused the collateral network and recorded the epoch";

/// A number as it is said.
pub open spec fn said(n: u64) -> Seq<char> {
    text::decimal(n as nat)
}

/// What is said of a count: what was looked at, and what was left out by each rule.
pub open spec fn census_line(o: CensusObservation) -> LineModel {
    plain(Level::Info, CENSUSED@).with("epoch"@, said(o.epoch)).with(
        "census_height"@,
        said(o.census_height),
    ).with("stores"@, said(o.stores)).with("examined"@, said(o.examined)).with(
        "excluded_foreign_puzzle"@,
        said(o.excluded.foreign_puzzle),
    ).with("excluded_unreadable"@, said(o.excluded.unreadable)).with(
        "excluded_unattributed"@,
        said(o.excluded.unattributed),
    ).with("excluded_wrong_epoch"@, said(o.excluded.wrong_epoch)).with(
        "excluded_not_yet_created"@,
        said(o.excluded.not_yet_created),
    ).with("excluded_spent_by_census_height"@, said(o.excluded.spent_by_census_height)).with(
        "excluded_undated"@,
        said(o.excluded.undated),
    ).with("excluded_block_reward"@, said(o.excluded.block_reward)).with(
        "excluded_below_requirement_unauthenticated"@,
        said(o.excluded.below_requirement_unauthenticated),
    ).with("excluded_superseded"@, said(o.excluded.superseded))
}

/// What is said of a count: what was looked at, and what was left out by each rule. A count of nothing
/// says by that whether nothing was there or everything was left out.
pub fn log_census_observation(o: &CensusObservation) -> (r: LogLine)
    ensures
        r@ == census_line(*o),
{
    LogLine::new(Level::Info, CENSUSED).with_number("epoch", o.epoch).with_number(
        "census_height",
        o.census_height,
    ).with_number("stores", o.stores).with_number("examined", o.examined).with_number(
        "excluded_foreign_puzzle",
        o.excluded.foreign_puzzle,
    ).with_number("excluded_unreadable", o.excluded.unreadable).with_number(
        "excluded_unattributed",
        o.excluded.unattributed,
    ).with_number("excluded_wrong_epoch", o.excluded.wrong_epoch).with_number(
        "excluded_not_yet_created",
        o.excluded.not_yet_created,
    ).with_number("excluded_spent_by_census_height", o.excluded.spent_by_census_height).with_number(
        "excluded_undated",
        o.excluded.undated,
    ).with_number("excluded_block_reward", o.excluded.block_reward).with_number(
        "excluded_below_requirement_unauthenticated",
        o.excluded.below_requirement_unauthenticated,
    ).with_number("excluded_superseded", o.excluded.superseded)
}

/// What the census does in a round.
#[derive(Debug, Clone, Copy, PartialEq, Eq, Structural)]
pub enum CensusStep {
    /// Wait for the next round.
    Sleep,
    /// Count up to that epoch, then wait for the next round.
    CatchUp { target: u64 },
}

/// What the census does in a round. The epoch is asked for in each, so that the count goes on over the
/// end of an epoch.
pub fn spawn_collateral_census(epoch: CurrentEpoch) -> (r: CensusStep)
    ensures
        r == (match epoch {
            CurrentEpoch::Final(target) => CensusStep::CatchUp { target },
            CurrentEpoch::Undecided => CensusStep::Sleep,
        }),
{
    match epoch {
        CurrentEpoch::Final(target) => CensusStep::CatchUp { target },
        CurrentEpoch::Undecided => CensusStep::Sleep,
    }
}

/// What came of a round of the census.
pub enum CensusPass {
    /// The chain could not be read, for that reason.
    NoSource(String),
    /// The count did not complete, for that reason.
    Aborted(String),
    /// What was recorded, what replaced an earlier count, and why the count stopped short, if it did.
    Done {
        recorded: Vec<CensusObservation>,
        superseded: Option<CensusObservation>,
        stopped: Option<String>,
    },
}

/// What is said of a count that replaced an earlier one.
pub const SUPERSEDED: &'static str = "a re-census of the current epoch counted MORE stores than the record this node held; the earlier, lower answer was superseded";

/// What is said of a count that stopped short.
pub const STOPPED_SHORT: &'static str = "the collateral census stopped short of the current epoch; \
no record was written";

/// What is said of a count that did not complete.
pub const CENSUS_ABORTED: &'static str = "the collateral census task did not complete";

/// What is said where the chain could not be read.
pub const CENSUS_NO_SOURCE: &'static str = "no chain source for the collateral census; the requirement stays unknown";

/// What is said of the counts that were recorded.
pub open spec fn recorded_lines(recorded: Seq<CensusObservation>) -> Seq<LineModel> {
    recorded.map_values(|o: CensusObservation| census_line(o))
}

/// What is said of a round of the census.
pub open spec fn census_lines(target: u64, pass: CensusPass) -> Seq<LineModel> {
    match pass {
        CensusPass::NoSource(e) => seq![plain(Level::Warn, CENSUS_NO_SOURCE@).with("error"@, e@)],
        CensusPass::Aborted(e) => seq![plain(Level::Warn, CENSUS_ABORTED@).with("error"@, e@)],
        CensusPass::Done { recorded, superseded, stopped } => recorded_lines(recorded@) + (
        match superseded {
            Some(o) => seq![
                plain(Level::Warn, SUPERSEDED@).with("epoch"@, said(o.epoch)).with(
                    "census_height"@,
                    said(o.census_height),
                ).with("stores"@, said(o.stores)),
                census_line(o),
            ],
            None => Seq::empty(),
        }) + (match stopped {
            Some(why) => seq![
                plain(Level::Warn, STOPPED_SHORT@).with("target_epoch"@, said(target)).with(
                    "reason"@,
                    why@,
                ),
            ],
            None => Seq::empty(),
        }),
    }
}

/// What is said of a round of the census: each count, a count that replaced an earlier one, and why the
/// count stopped short.
pub fn census_pass_lines(target: u64, pass: &CensusPass) -> (r: Vec<LogLine>)
    ensures
        line_views(r@) == census_lines(target, *pass),
{
    let mut out: Vec<LogLine> = Vec::new();
    match pass {
        CensusPass::NoSource(e) => {
            out.push(LogLine::new(Level::Warn, CENSUS_NO_SOURCE).with("error", e.as_str()));
        },
        CensusPass::Aborted(e) => {
            out.push(LogLine::new(Level::Warn, CENSUS_ABORTED).with("error", e.as_str()));
        },
        CensusPass::Done { recorded, superseded, stopped } => {
            let mut i: usize = 0;
            while i < recorded.len()
                invariant
                    i <= recorded@.len(),
                    line_views(out@) == recorded_lines(recorded@).take(i as int),
                decreases recorded@.len() - i,
            {
                let ghost before = out@;
                out.push(log_census_observation(&recorded[i]));
                proof {
                    assert(line_views(out@) =~= line_views(before).push(
                        census_line(recorded@[i as int]),
                    ));
                    assert(line_views(out@) =~= recorded_lines(recorded@).take(i + 1));
                }
                i += 1;
            }
            proof {
                assert(line_views(out@) =~= recorded_lines(recorded@));
            }
            let ghost first = out@;
            if let Some(o) = superseded {
                out.push(
                    LogLine::new(Level::Warn, SUPERSEDED).with_number("epoch", o.epoch).with_number(
                        "census_height",
                        o.census_height,
                    ).with_number("stores", o.stores),
                );
                out.push(log_census_observation(o));
            }
            if let Some(why) = stopped {
                out.push(
                    LogLine::new(Level::Warn, STOPPED_SHORT).with_number(
                        "target_epoch",
                        target,
                    ).with("reason", why.as_str()),
                );
            }
        },
    }
    proof {
        assert(line_views(out@) =~= census_lines(target, *pass));
    }
    out
}

// ---- laws --------------------------------------------------------------------------------------

/// **Law: every answer without a record says why.** The four ways in which there is none are told apart.
pub proof fn law_refusals_are_told_apart(version: u64, record: Result<Json, String>)
    ensures
        ({
            let behind = stored_answer(
                StoredEpoch::Found { interpretable: false, protocol_version: version, record },
            );
            let absent = stored_answer(StoredEpoch::Absent);
            let broken = stored_answer(StoredEpoch::Unreadable);
            let unasked = no_record(
                "invalid_epoch"@,
                seq![named("detail"@, JsonModel::Text(EPOCH_REQUIRED@))],
            );
            &&& behind != absent
            &&& behind != broken
            &&& behind != unasked
            &&& absent != broken
            &&& absent != unasked
            &&& broken != unasked
        }),
{
    reveal_strlit("unimplemented_ruleset");
    reveal_strlit("not_recorded");
    reveal_strlit("record_unreadable");
    reveal_strlit("invalid_epoch");
    assert("unimplemented_ruleset"@.len() == 21);
    assert("not_recorded"@.len() == 12);
    assert("record_unreadable"@.len() == 17);
    assert("invalid_epoch"@.len() == 13);
    let behind = stored_answer(
        StoredEpoch::Found { interpretable: false, protocol_version: version, record },
    );
    let absent = stored_answer(StoredEpoch::Absent);
    let broken = stored_answer(StoredEpoch::Unreadable);
    let unasked = no_record(
        "invalid_epoch"@,
        seq![named("detail"@, JsonModel::Text(EPOCH_REQUIRED@))],
    );
    assert(behind->Object_0[1].1 == JsonModel::Text("unimplemented_ruleset"@));
    assert(absent->Object_0[1].1 == JsonModel::Text("not_recorded"@));
    assert(broken->Object_0[1].1 == JsonModel::Text("record_unreadable"@));
    assert(unasked->Object_0[1].1 == JsonModel::Text("invalid_epoch"@));
}

/// **Law: what this build cannot read is not passed on.** A record by rules that it does not know is
/// answered without the record, whatever that holds.
pub proof fn law_an_unknown_ruleset_is_not_passed_on(
    version: u64,
    a: Result<Json, String>,
    b: Result<Json, String>,
)
    ensures
        stored_answer(
            StoredEpoch::Found { interpretable: false, protocol_version: version, record: a },
        ) == stored_answer(
            StoredEpoch::Found { interpretable: false, protocol_version: version, record: b },
        ),
{
}

/// **Law: what a question after an epoch is answered.** The record itself, where there is one that this
/// build can read; otherwise none, with the reason, and with the rules of a record that it cannot read.
pub proof fn law_what_a_question_is_answered(version: u64, v: Json, why: String)
    ensures
        ({
            let found = stored_answer(
                StoredEpoch::Found { interpretable: true, protocol_version: version, record: Ok(v) },
            );
            tells(found, "record"@, model(v)) && found->Object_0.len() == 1
        }),
        ({
            let behind = stored_answer(
                StoredEpoch::Found { interpretable: false, protocol_version: version, record: Ok(v) },
            );
            &&& tells(behind, "record"@, JsonModel::Null)
            &&& tells(behind, "reason"@, JsonModel::Text("unimplemented_ruleset"@))
            &&& tells(behind, "protocol_version"@, JsonModel::Number(version as int))
        }),
        ({
            let broken = stored_answer(
                StoredEpoch::Found { interpretable: true, protocol_version: version, record: Err(why) },
            );
            &&& tells(broken, "record"@, JsonModel::Null)
            &&& tells(broken, "reason"@, JsonModel::Text("record_unreadable"@))
            &&& tells(broken, "detail"@, JsonModel::Text(why@))
        }),
        tells(stored_answer(StoredEpoch::Absent), "record"@, JsonModel::Null),
        tells(stored_answer(StoredEpoch::Absent), "reason"@, JsonModel::Text("not_recorded"@)),
        tells(stored_answer(StoredEpoch::Unreadable), "record"@, JsonModel::Null),
        tells(stored_answer(StoredEpoch::Unreadable), "reason"@, JsonModel::Text("record_unreadable"@)),
{
    let found = stored_answer(
        StoredEpoch::Found { interpretable: true, protocol_version: version, record: Ok(v) },
    );
    assert(found->Object_0[0] == ("record"@, model(v)));
    let behind = stored_answer(
        StoredEpoch::Found { interpretable: false, protocol_version: version, record: Ok(v) },
    );
    assert(behind->Object_0[0] == ("record"@, JsonModel::Null));
    assert(behind->Object_0[1] == ("reason"@, JsonModel::Text("unimplemented_ruleset"@)));
    assert(behind->Object_0[2] == ("protocol_version"@, JsonModel::Number(version as int)));
    let broken = stored_answer(
        StoredEpoch::Found { interpretable: true, protocol_version: version, record: Err(why) },
    );
    assert(broken->Object_0[0] == ("record"@, JsonModel::Null));
    assert(broken->Object_0[1] == ("reason"@, JsonModel::Text("record_unreadable"@)));
    assert(broken->Object_0[2] == ("detail"@, JsonModel::Text(why@)));
    let absent = stored_answer(StoredEpoch::Absent);
    assert(absent->Object_0[0] == ("record"@, JsonModel::Null));
    assert(absent->Object_0[1] == ("reason"@, JsonModel::Text("not_recorded"@)));
    let gone = stored_answer(StoredEpoch::Unreadable);
    assert(gone->Object_0[0] == ("record"@, JsonModel::Null));
    assert(gone->Object_0[1] == ("reason"@, JsonModel::Text("record_unreadable"@)));
}

/// **Law: which epoch is asked after.** The number under `epoch`, unless it is zero; without parameters, or
/// without a number there, none.
pub proof fn law_which_epoch_is_asked_after(p: Json)
    ensures
        asked_epoch(None) is None,
        p.number_field("epoch"@) is None ==> asked_epoch(Some(p)) is None,
        p.number_field("epoch"@) == Some(0u64) ==> asked_epoch(Some(p)) is None,
        p.number_field("epoch"@) matches Some(n) ==> n > 0 ==> asked_epoch(Some(p)) == Some(n),
{
}

/// **Law: a count is told in full.** Each number of it stands in the line under its own name.
pub proof fn law_a_count_is_told_in_full(o: CensusObservation)
    ensures
        census_line(o).level == Level::Info,
        census_line(o).fields == seq![
            ("epoch"@, text::decimal(o.epoch as nat)),
            ("census_height"@, text::decimal(o.census_height as nat)),
            ("stores"@, text::decimal(o.stores as nat)),
            ("examined"@, text::decimal(o.examined as nat)),
            ("excluded_foreign_puzzle"@, text::decimal(o.excluded.foreign_puzzle as nat)),
            ("excluded_unreadable"@, text::decimal(o.excluded.unreadable as nat)),
            ("excluded_unattributed"@, text::decimal(o.excluded.unattributed as nat)),
            ("excluded_wrong_epoch"@, text::decimal(o.excluded.wrong_epoch as nat)),
            ("excluded_not_yet_created"@, text::decimal(o.excluded.not_yet_created as nat)),
            ("excluded_spent_by_census_height"@, text::decimal(o.excluded.spent_by_census_height as nat)),
            ("excluded_undated"@, text::decimal(o.excluded.undated as nat)),
            ("excluded_block_reward"@, text::decimal(o.excluded.block_reward as nat)),
            (
                "excluded_below_requirement_unauthenticated"@,
                text::decimal(o.excluded.below_requirement_unauthenticated as nat),
            ),
            ("excluded_superseded"@, text::decimal(o.excluded.superseded as nat)),
        ],
{
}

/// **Law: what is said of a round of the census.** One line for each count that was recorded, in order; two
/// more for a count that replaced an earlier one; one more where the count stopped short, with the reason
/// and the epoch it was to reach; and a round that could not be made says why.
pub proof fn law_what_is_said_of_a_round(
    target: u64,
    recorded: Vec<CensusObservation>,
    superseded: Option<CensusObservation>,
    stopped: Option<String>,
    why: String,
    i: int,
)
    ensures
        ({
            let said = census_lines(target, CensusPass::Done { recorded, superseded, stopped });
            &&& said.len() == recorded@.len() + (if superseded is Some { 2int } else { 0 }) + (if stopped
                is Some { 1int } else { 0 })
            &&& 0 <= i < recorded@.len() ==> said[i] == census_line(recorded@[i])
            &&& superseded matches Some(o) ==> said[recorded@.len() as int].level == Level::Warn && said[
                recorded@.len() as int].fields == seq![
                ("epoch"@, text::decimal(o.epoch as nat)),
                ("census_height"@, text::decimal(o.census_height as nat)),
                ("stores"@, text::decimal(o.stores as nat)),
            ] && said[recorded@.len() as int + 1] == census_line(o)
            &&& stopped matches Some(w) ==> said.last().level == Level::Warn && said.last().tells(
                "reason"@,
                w@,
            ) && said.last().tells("target_epoch"@, text::decimal(target as nat))
        }),
        ({
            let said = census_lines(target, CensusPass::NoSource(why));
            said.len() == 1 && said[0].level == Level::Warn && said[0].tells("error"@, why@)
        }),
        ({
            let said = census_lines(target, CensusPass::Aborted(why));
            said.len() == 1 && said[0].level == Level::Warn && said[0].tells("error"@, why@)
        }),
{
    let said = census_lines(target, CensusPass::Done { recorded, superseded, stopped });
    if let Some(o) = superseded {
        let l = said[recorded@.len() as int];
        assert(l.fields =~= seq![
            ("epoch"@, text::decimal(o.epoch as nat)),
            ("census_height"@, text::decimal(o.census_height as nat)),
            ("stores"@, text::decimal(o.stores as nat)),
        ]);
    }
    if let Some(w) = stopped {
        let l = said.last();
        assert(l.fields[0] == ("target_epoch"@, text::decimal(target as nat)));
        assert(l.fields[1] == ("reason"@, w@));
    }
    let e = census_lines(target, CensusPass::NoSource(why));
    assert(e[0].fields[0] == ("error"@, why@));
    let f = census_lines(target, CensusPass::Aborted(why));
    assert(f[0].fields[0] == ("error"@, why@));
}

} // verus!
