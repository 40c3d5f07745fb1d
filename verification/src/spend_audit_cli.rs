//! Reading the record of automated spends, for a person and for a program.
//!
//! The record is a file of this machine, so reading it needs no running node. A coin that was only
//! expected is never shown as one that was seen, and a record that could not be read whole says so.
use vstd::prelude::*;

use crate::error::Error;
use crate::json::{
    entry, entry_models, item_models, list, model, name_list, named, names, object, truth, words, Json,
    JsonModel,
};
use crate::outcome::{ExitCode, Outcome};
use crate::spend_audit::ledger::{
    admitted, capped, carries, index_of, ledger_of, lemma_index_of, resumed, unknown_cursor,
    unreadable_in,
};
use crate::spend_audit::reconcile::{is_report, Answer};
use crate::spend_audit::wire::{record_entries, record_fields};
use crate::spend_audit::{
    models, reconcile, ChainInventory, ChainReference, ReconcileReport, RecordModel, SpendLedger,
    SpendLog, SpendQuery, SpendRecord, SpendStatus, StatusModel,
};
use crate::text;

verus! {

/// What was asked for.
#[derive(Debug)]
pub enum SpendsAction {
    /// The rows that match.
    List(SpendQuery),
    /// One row, in full.
    Show { id: String },
    /// The record held against the chain, for one owner.
    Reconcile { owner_puzzle_hash: String },
}

/// One row as a program reads it: the record, its status in a word, and the coin to look up with
/// whether it was seen.
#[derive(Debug)]
pub struct SpendRow {
    pub record: SpendRecord,
    pub status_token: String,
    pub chain_reference: Option<ChainReference>,
}

/// What a program is told.
#[derive(Debug)]
pub enum SpendsResult {
    /// The rows that match.
    List { path: String, count: usize, unreadable_lines: usize, spends: Vec<SpendRow> },
    /// One row.
    Show { spend: SpendRow },
    /// The record held against the chain.
    Reconcile { clean: bool, report: ReconcileReport },
}

/// The answer to an action.
pub type Answered = Result<Outcome<SpendsResult>, (ExitCode, String)>;

// ---- as JSON -----------------------------------------------------------------------------------

/// The coin to look up, with whether it was seen, or null.
pub open spec fn reference_json(c: Option<ChainReference>) -> JsonModel {
    match c {
        Some(c) => JsonModel::Object(
            seq![
                named("coin_id"@, JsonModel::Text(c.coin_id@)),
                named("confirmed"@, JsonModel::Bool(c.confirmed)),
            ],
        ),
        None => JsonModel::Null,
    }
}

fn reference_value(c: &Option<ChainReference>) -> (r: Json)
    ensures
        model(r) == reference_json(*c),
{
    match c {
        Some(c) => {
            let mut v: Vec<(String, Json)> = Vec::new();
            v.push(entry("coin_id", words(c.coin_id.as_str())));
            v.push(entry("confirmed", truth(c.confirmed)));
            proof {
                assert(entry_models(v@) =~= reference_json(Some(*c))->Object_0);
            }
            object(v)
        },
        None => Json::Null,
    }
}

impl SpendRow {
    /// A row: the entries of the record, then the status in a word and the coin to look up.
    pub open spec fn json(self) -> JsonModel {
        JsonModel::Object(
            record_entries(self.record@).push(
                named("status_token"@, JsonModel::Text(self.status_token@)),
            ).push(named("chain_reference"@, reference_json(self.chain_reference))),
        )
    }

    /// A row as a program reads it.
    pub fn to_json(&self) -> (r: Json)
        ensures
            model(r) == self.json(),
    {
        let mut v = record_fields(&self.record);
        let ghost before = v@;
        v.push(entry("status_token", words(self.status_token.as_str())));
        v.push(entry("chain_reference", reference_value(&self.chain_reference)));
        proof {
            assert(entry_models(v@) =~= entry_models(before).push(
                named("status_token"@, JsonModel::Text(self.status_token@)),
            ).push(named("chain_reference"@, reference_json(self.chain_reference))));
        }
        object(v)
    }
}

/// The rows of a list.
pub open spec fn rows_json(rows: Seq<SpendRow>) -> JsonModel {
    JsonModel::List(Seq::new(rows.len(), |i: int| rows[i].json()))
}

fn rows_value(rows: &Vec<SpendRow>) -> (r: Json)
    ensures
        model(r) == rows_json(rows@),
{
    let mut out: Vec<Json> = Vec::new();
    let mut i: usize = 0;
    while i < rows.len()
        invariant
            i <= rows@.len(),
            out@.len() == i,
            forall|j: int| 0 <= j < i ==> model(#[trigger] out@[j]) == rows@[j].json(),
        decreases rows@.len() - i,
    {
        out.push(rows[i].to_json());
        i += 1;
    }
    proof {
        assert(item_models(out@) =~= rows_json(rows@)->List_0);
    }
    list(out)
}

impl SpendsResult {
    /// What a program is told.
    pub open spec fn json(self) -> JsonModel {
        JsonModel::Object(
            match self {
                SpendsResult::List { path, count, unreadable_lines, spends } => seq![
                    named("path"@, JsonModel::Text(path@)),
                    named("count"@, JsonModel::Number(count as int)),
                    named("unreadable_lines"@, JsonModel::Number(unreadable_lines as int)),
                    named("spends"@, rows_json(spends@)),
                ],
                SpendsResult::Show { spend } => seq![named("spend"@, spend.json())],
                SpendsResult::Reconcile { clean, report } => seq![
                    named("clean"@, JsonModel::Bool(clean)),
                    named("agreed"@, name_list(text::views(report.agreed@))),
                    named("missing_on_chain"@, name_list(text::views(report.missing_on_chain@))),
                    named(
                        "unrecorded_on_chain"@,
                        name_list(text::views(report.unrecorded_on_chain@)),
                    ),
                    named("unresolved"@, name_list(text::views(report.unresolved@))),
                ],
            },
        )
    }

    /// What a program is told.
    pub fn to_json(&self) -> (r: Json)
        ensures
            model(r) == self.json(),
    {
        let mut v: Vec<(String, Json)> = Vec::new();
        match self {
            SpendsResult::List { path, count, unreadable_lines, spends } => {
                v.push(entry("path", words(path.as_str())));
                v.push(entry("count", Json::Uint(*count as u64)));
                v.push(entry("unreadable_lines", Json::Uint(*unreadable_lines as u64)));
                v.push(entry("spends", rows_value(spends)));
            },
            SpendsResult::Show { spend } => {
                v.push(entry("spend", spend.to_json()));
            },
            SpendsResult::Reconcile { clean, report } => {
                v.push(entry("clean", truth(*clean)));
                v.push(entry("agreed", names(&report.agreed)));
                v.push(entry("missing_on_chain", names(&report.missing_on_chain)));
                v.push(entry("unrecorded_on_chain", names(&report.unrecorded_on_chain)));
                v.push(entry("unresolved", names(&report.unresolved)));
            },
        }
        proof {
            assert(entry_models(v@) =~= self.json()->Object_0);
        }
        object(v)
    }
}

// ---- rows --------------------------------------------------------------------------------------

/// The coin of a row: `#` for one that was seen, `~` for one that was expected.
pub open spec fn coin_mark(r: RecordModel) -> Seq<char> {
    match r.reference() {
        Some((coin, seen)) => if seen {
            "  #"@ + coin
        } else {
            "  ~"@ + coin + " (expected)"@
        },
        None => Seq::empty(),
    }
}

/// The store of a row.
pub open spec fn store_mark(r: RecordModel) -> Seq<char> {
    match r.store_id {
        Some(s) => "  store="@ + s,
        None => Seq::empty(),
    }
}

/// Why a spend did not happen, or why its outcome is not known.
pub open spec fn why_mark(r: RecordModel) -> Seq<char> {
    match r.status {
        StatusModel::Failed(stage, reason) => "\n    "@ + stage.name() + " failed: "@ + reason,
        StatusModel::Unresolved(reason) => "\n    outcome unknown: "@ + reason,
        _ => Seq::empty(),
    }
}

/// The line of a row.
pub open spec fn line_of(r: RecordModel) -> Seq<char> {
    r.id + "  "@ + text::padded_right(r.status.token(), 10) + "  "@ + r.kind + "  "@ + text::decimal(
        r.amount_mojos as nat,
    ) + " "@ + r.asset.name() + "  fee "@ + text::decimal(r.fee_mojos as nat) + "  by "@
        + r.principal + store_mark(r) + coin_mark(r) + "\n    "@ + r.purpose + "  ["@ + r.grant
        + "]"@ + why_mark(r)
}

fn append_coin(out: &mut String, rec: &SpendRecord)
    ensures
        final(out)@ == old(out)@ + coin_mark(rec@),
{
    match rec.chain_reference() {
        Some(c) => {
            if c.confirmed {
                out.append("  #");
                out.append(c.coin_id.as_str());
            } else {
                out.append("  ~");
                out.append(c.coin_id.as_str());
                out.append(" (expected)");
            }
        },
        None => {},
    }
    proof {
        assert(out@ =~= old(out)@ + coin_mark(rec@));
    }
}

fn append_why(out: &mut String, rec: &SpendRecord)
    ensures
        final(out)@ == old(out)@ + why_mark(rec@),
{
    match &rec.status {
        SpendStatus::Failed { stage, reason } => {
            out.append("\n    ");
            out.append(stage.to_text());
            out.append(" failed: ");
            out.append(reason.as_str());
        },
        SpendStatus::Unresolved { reason } => {
            out.append("\n    outcome unknown: ");
            out.append(reason.as_str());
        },
        _ => {},
    }
    proof {
        assert(out@ =~= old(out)@ + why_mark(rec@));
    }
}

/// The line of a row.
pub fn human_line(rec: &SpendRecord) -> (r: String)
    ensures
        r@ == line_of(rec@),
{
    let mut out = rec.id.clone();
    out.append("  ");
    out.append(text::pad_right(rec.status.token(), 10).as_str());
    out.append("  ");
    out.append(rec.kind.as_str());
    out.append("  ");
    out.append(text::number(rec.amount_mojos).as_str());
    out.append(" ");
    out.append(rec.asset.to_text().as_str());
    out.append("  fee ");
    out.append(text::number(rec.fee_mojos).as_str());
    out.append("  by ");
    out.append(rec.authority.principal.as_str());
    let ghost head = out@;
    match &rec.store_id {
        Some(s) => {
            out.append("  store=");
            out.append(s.as_str());
        },
        None => {},
    }
    proof {
        assert(out@ =~= head + store_mark(rec@));
    }
    append_coin(&mut out, rec);
    out.append("\n    ");
    out.append(rec.purpose.as_str());
    out.append("  [");
    out.append(rec.authority.grant.as_str());
    out.append("]");
    append_why(&mut out, rec);
    out
}

/// Whether `row` is what a program is told of `r`.
pub open spec fn is_row(row: SpendRow, r: RecordModel) -> bool {
    &&& row.record@ == r
    &&& row.status_token@ == r.status.token()
    &&& row.chain_reference is Some <==> r.reference() is Some
    &&& row.chain_reference matches Some(c) ==> r.reference() == Some((c.coin_id@, c.confirmed))
}

/// What a program is told of a row.
pub fn record_row(rec: &SpendRecord) -> (row: SpendRow)
    ensures
        is_row(row, rec@),
{
    SpendRow {
        record: rec.clone(),
        status_token: rec.status.token().to_owned(),
        chain_reference: rec.chain_reference(),
    }
}

/// Whether `rows` are what a program is told of `records`.
pub open spec fn are_rows(rows: Seq<SpendRow>, records: Seq<RecordModel>) -> bool {
    rows.len() == records.len() && forall|i: int|
        0 <= i < rows.len() ==> is_row(#[trigger] rows[i], records[i])
}

// ---- the list ----------------------------------------------------------------------------------

/// The lines of the rows.
pub open spec fn lines_of_rows(rows: Seq<RecordModel>) -> Seq<char>
    decreases rows.len(),
{
    if rows.len() == 0 {
        Seq::empty()
    } else {
        lines_of_rows(rows.drop_last()) + line_of(rows.last()) + "\n"@
    }
}

/// What is said of a record that could not be read whole.
pub open spec fn incomplete_note(unreadable: nat, path: Seq<char>) -> Seq<char> {
    if unreadable > 0 {
        "\nWARNING: "@ + text::decimal(unreadable) + " line(s) of "@ + path
            + " could not be read. This record is INCOMPLETE.\n"@
    } else {
        Seq::empty()
    }
}

/// The list for a person.
pub open spec fn list_text(rows: Seq<RecordModel>, unreadable: nat, path: Seq<char>) -> Seq<char> {
    let head = if rows.len() == 0 {
        "No automated spends match. This node has moved no money unattended.\n"@
    } else {
        Seq::empty()
    };
    text::trim_end(head + lines_of_rows(rows) + incomplete_note(unreadable, path))
}

/// Whether `o` lists `rows`.
pub open spec fn lists(
    o: Outcome<SpendsResult>,
    rows: Seq<RecordModel>,
    unreadable: nat,
    path: Seq<char>,
) -> bool {
    &&& o.summary@ == list_text(rows, unreadable, path)
    &&& o.result matches SpendsResult::List { path: p, count, unreadable_lines, spends }
    &&& p@ == path
    &&& count == rows.len()
    &&& unreadable_lines == unreadable
    &&& are_rows(spends@, rows)
}

/// The list: one line for each spend, newest first; what could not be read is told.
pub fn list_outcome(path: &str, ledger: &SpendLedger) -> (o: Outcome<SpendsResult>)
    ensures
        lists(o, models(ledger.records@), ledger.unreadable_lines as nat, path@),
{
    let ghost rows = models(ledger.records@);
    let mut summary = String::new();
    if ledger.records.len() == 0 {
        summary = "No automated spends match. This node has moved no money unattended.\n".to_owned();
    }
    let ghost head = summary@;
    let mut spends: Vec<SpendRow> = Vec::new();
    let mut i: usize = 0;
    proof {
        assert(rows.take(0) =~= Seq::empty());
        assert(head + lines_of_rows(rows.take(0)) =~= head);
    }
    while i < ledger.records.len()
        invariant
            i <= ledger.records@.len(),
            rows == models(ledger.records@),
            summary@ == head + lines_of_rows(rows.take(i as int)),
            spends@.len() == i,
            forall|j: int| 0 <= j < i ==> is_row(#[trigger] spends@[j], rows[j]),
        decreases ledger.records@.len() - i,
    {
        let rec = &ledger.records[i];
        proof {
            assert(rows.take(i + 1).drop_last() =~= rows.take(i as int));
            assert(rows.take(i + 1).last() == rec@);
        }
        summary.append(human_line(rec).as_str());
        summary.append("\n");
        spends.push(record_row(rec));
        proof {
            assert(summary@ =~= head + lines_of_rows(rows.take(i + 1)));
        }
        i += 1;
    }
    proof {
        assert(rows.take(rows.len() as int) =~= rows);
    }
    let ghost body = summary@;
    if ledger.unreadable_lines > 0 {
        summary.append("\nWARNING: ");
        summary.append(text::number(ledger.unreadable_lines as u64).as_str());
        summary.append(" line(s) of ");
        summary.append(path);
        summary.append(" could not be read. This record is INCOMPLETE.\n");
    }
    proof {
        assert(summary@ =~= body + incomplete_note(ledger.unreadable_lines as nat, path@));
    }
    Outcome {
        summary: text::trim_behind(summary.as_str()),
        result: SpendsResult::List {
            path: path.to_owned(),
            count: ledger.records.len(),
            unreadable_lines: ledger.unreadable_lines,
            spends,
        },
    }
}

// ---- one row -----------------------------------------------------------------------------------

/// A list of texts with commas between them, or a dash.
pub open spec fn comma_or_dash(list: Seq<Seq<char>>) -> Seq<char> {
    if list.len() == 0 {
        "-"@
    } else {
        text::joined(list, ", "@)
    }
}

/// A list of texts with commas between them, or a dash.
pub fn join_or_dash(items: &Vec<String>) -> (r: String)
    ensures
        r@ == comma_or_dash(text::views(items@)),
{
    proof {
        assert(text::views(items@).len() == items@.len());
    }
    if items.len() == 0 {
        "-".to_owned()
    } else {
        text::join(items, ", ")
    }
}

/// The coin of a row, in words.
pub open spec fn coin_words(r: RecordModel) -> Seq<char> {
    match r.reference() {
        Some((coin, seen)) => if seen {
            coin + " (confirmed on chain)"@
        } else {
            coin + " (EXPECTED, not observed)"@
        },
        None => "-"@,
    }
}

/// A row in full.
pub open spec fn full_text(r: RecordModel) -> Seq<char> {
    r.id + "\n  status     "@ + r.status.token() + "\n  kind       "@ + r.kind
        + "\n  purpose    "@ + r.purpose + "\n  amount     "@ + text::decimal(
        r.amount_mojos as nat,
    ) + " "@ + r.asset.name() + "\n  fee        "@ + text::decimal(r.fee_mojos as nat)
        + " mojos\n  authority  "@ + r.principal + " via "@ + r.grant + "\n  store      "@ + (
    match r.store_id {
        Some(s) => s,
        None => "-"@,
    }) + "\n  initiated  "@ + text::decimal(r.initiated_ms as nat) + " ms\n  updated    "@
        + text::decimal(r.updated_ms as nat) + " ms\n  funding    "@ + comma_or_dash(r.funding)
        + "\n  chain      "@ + coin_words(r)
}

/// The funding coins of a record.
fn funding_texts(rec: &SpendRecord) -> (r: Vec<String>)
    ensures
        text::views(r@) == rec@.funding,
{
    let mut out: Vec<String> = Vec::new();
    let mut i: usize = 0;
    while i < rec.funding_coin_ids.len()
        invariant
            i <= rec.funding_coin_ids@.len(),
            text::views(out@) == rec@.funding.take(i as int),
        decreases rec.funding_coin_ids@.len() - i,
    {
        let ghost before = out@;
        out.push(rec.funding_coin_ids[i].0.clone());
        proof {
            assert(text::views(out@) =~= text::views(before).push(
                rec.funding_coin_ids@[i as int].0@,
            ));
            assert(text::views(out@) =~= rec@.funding.take(i + 1));
        }
        i += 1;
    }
    proof {
        assert(rec@.funding.take(rec@.funding.len() as int) =~= rec@.funding);
    }
    out
}

/// Whether `o` shows `r`.
pub open spec fn shows(o: Outcome<SpendsResult>, r: RecordModel) -> bool {
    &&& o.summary@ == full_text(r)
    &&& o.result matches SpendsResult::Show { spend }
    &&& is_row(spend, r)
}

/// A row in full.
pub fn show_outcome(rec: &SpendRecord) -> (o: Outcome<SpendsResult>)
    ensures
        shows(o, rec@),
{
    let mut out = rec.id.clone();
    out.append("\n  status     ");
    out.append(rec.status.token());
    out.append("\n  kind       ");
    out.append(rec.kind.as_str());
    out.append("\n  purpose    ");
    out.append(rec.purpose.as_str());
    out.append("\n  amount     ");
    out.append(text::number(rec.amount_mojos).as_str());
    out.append(" ");
    out.append(rec.asset.to_text().as_str());
    out.append("\n  fee        ");
    out.append(text::number(rec.fee_mojos).as_str());
    out.append(" mojos\n  authority  ");
    out.append(rec.authority.principal.as_str());
    out.append(" via ");
    out.append(rec.authority.grant.as_str());
    out.append("\n  store      ");
    match &rec.store_id {
        Some(s) => out.append(s.as_str()),
        None => out.append("-"),
    }
    out.append("\n  initiated  ");
    out.append(text::number(rec.initiated_ms).as_str());
    out.append(" ms\n  updated    ");
    out.append(text::number(rec.updated_ms).as_str());
    out.append(" ms\n  funding    ");
    out.append(join_or_dash(&funding_texts(rec)).as_str());
    out.append("\n  chain      ");
    let ghost head = out@;
    match rec.chain_reference() {
        Some(c) => {
            out.append(c.coin_id.as_str());
            if c.confirmed {
                out.append(" (confirmed on chain)");
            } else {
                out.append(" (EXPECTED, not observed)");
            }
        },
        None => out.append("-"),
    }
    proof {
        assert(out@ =~= head + coin_words(rec@));
        assert(out@ =~= full_text(rec@));
    }
    Outcome { summary: out, result: SpendsResult::Show { spend: record_row(rec) } }
}

// ---- the record and the chain ------------------------------------------------------------------

/// Whether nothing needs a person's attention.
pub open spec fn is_clean_report(report: ReconcileReport) -> bool {
    report.missing_on_chain@.len() == 0 && report.unrecorded_on_chain@.len() == 0
        && report.unresolved@.len() == 0
}

/// The comparison for a person.
pub open spec fn verdict_text(report: ReconcileReport) -> Seq<char> {
    if is_clean_report(report) {
        "The local record agrees with the chain ("@ + text::decimal(report.agreed@.len())
            + " confirmed coin(s) present)."@
    } else {
        "DISAGREEMENT between the local record and the chain:\n  "@ + text::decimal(
            report.unrecorded_on_chain@.len(),
        ) + " coin(s) on chain with NO audit entry: "@ + comma_or_dash(
            text::views(report.unrecorded_on_chain@),
        ) + "\n  "@ + text::decimal(report.missing_on_chain@.len())
            + " confirmed entry/entries whose coin the chain does not show: "@ + comma_or_dash(
            text::views(report.missing_on_chain@),
        ) + "\n  "@ + text::decimal(report.unresolved@.len())
            + " entry/entries the node never resolved: "@ + comma_or_dash(
            text::views(report.unresolved@),
        )
    }
}

/// Whether `o` reports the comparison of `rows` with what the chain shows.
pub open spec fn compares(
    o: Outcome<SpendsResult>,
    rows: Seq<RecordModel>,
    on_chain: Seq<Seq<char>>,
) -> bool {
    &&& o.result matches SpendsResult::Reconcile { clean, report }
    &&& is_report(report, rows, on_chain)
    &&& clean == is_clean_report(report)
    &&& o.summary@ == verdict_text(report)
}

/// The comparison, for a person and for a program.
pub fn reconcile_outcome(report: ReconcileReport) -> (o: Outcome<SpendsResult>)
    ensures
        o.result == (SpendsResult::Reconcile { clean: is_clean_report(report), report }),
        o.summary@ == verdict_text(report),
{
    let clean = report.is_clean();
    let mut summary = String::new();
    if clean {
        summary = "The local record agrees with the chain (".to_owned();
        summary.append(text::number(report.agreed.len() as u64).as_str());
        summary.append(" confirmed coin(s) present).");
    } else {
        summary = "DISAGREEMENT between the local record and the chain:\n  ".to_owned();
        summary.append(text::number(report.unrecorded_on_chain.len() as u64).as_str());
        summary.append(" coin(s) on chain with NO audit entry: ");
        summary.append(join_or_dash(&report.unrecorded_on_chain).as_str());
        summary.append("\n  ");
        summary.append(text::number(report.missing_on_chain.len() as u64).as_str());
        summary.append(" confirmed entry/entries whose coin the chain does not show: ");
        summary.append(join_or_dash(&report.missing_on_chain).as_str());
        summary.append("\n  ");
        summary.append(text::number(report.unresolved.len() as u64).as_str());
        summary.append(" entry/entries the node never resolved: ");
        summary.append(join_or_dash(&report.unresolved).as_str());
    }
    Outcome { summary, result: SpendsResult::Reconcile { clean, report } }
}

// ---- the actions -------------------------------------------------------------------------------

/// What is said where no chain source is at hand.
pub const NO_CHAIN_SOURCE: &'static str = "cannot reconcile: this node cannot read the chain's coin inventory yet, so \
there is nothing to compare the local record against. The record itself is \
unchanged and readable with `dign spends list`.";

/// Whether `r` answers a list.
pub open spec fn is_list_answer(log: SpendLog, q: SpendQuery, r: Answered) -> bool {
    let matching = admitted(ledger_of(log.history()), q);
    match resumed(matching, text::opt_view(q.after_id)) {
        Some(rest) => r matches Ok(o) && lists(
            o,
            capped(rest, q.limit),
            unreadable_in(log.history()),
            log.location(),
        ),
        None => r matches Err(e) && e.0 == ExitCode::IoError && e.1@
            == "cannot read the audit record: "@ + unknown_cursor(q.after_id->0@),
    }
}

/// Whether `r` answers the request for one row: the row, or that there is none of that id.
pub open spec fn is_show_answer(log: SpendLog, id: Seq<char>, r: Answered) -> bool {
    let rows = ledger_of(log.history());
    if carries(rows, id) {
        r matches Ok(o) && shows(o, rows[index_of(rows, id)])
    } else {
        r matches Err(e) && e.0 == ExitCode::Usage && e.1@ == "no automated spend with id "@ + id
            + " in "@ + log.location()
    }
}

/// Whether `r` answers a comparison with what the chain source answered; without a source it is a
/// refusal, never a clean result.
pub open spec fn is_comparison_answer<I: ChainInventory>(
    log: SpendLog,
    owner: Seq<char>,
    inventory: Option<&I>,
    r: Answered,
) -> bool {
    match inventory {
        None => r matches Err(e) && e.0 == ExitCode::NotServing && e.1@ == NO_CHAIN_SOURCE@,
        Some(chain) => exists|answer: Answer| #[trigger]
            chain.may_answer(owner, answer) && match answer {
                Ok(held) => r matches Ok(o) && compares(o, ledger_of(log.history()), held),
                Err(why) => r matches Err(e) && e.0 == ExitCode::IoError && e.1@
                    == "chain inventory failed: "@ + why,
            },
    }
}

/// Whether `r` answers `action`.
pub open spec fn is_answer<I: ChainInventory>(
    log: SpendLog,
    action: SpendsAction,
    inventory: Option<&I>,
    r: Answered,
) -> bool {
    match action {
        SpendsAction::List(q) => is_list_answer(log, q, r),
        SpendsAction::Show { id } => is_show_answer(log, id@, r),
        SpendsAction::Reconcile { owner_puzzle_hash } => is_comparison_answer(
            log,
            owner_puzzle_hash@,
            inventory,
            r,
        ),
    }
}

/// Where a record that cannot be read is told.
fn unreadable(e: &Error) -> (r: (ExitCode, String))
    ensures
        r.0 == ExitCode::IoError,
        r.1@ == "cannot read the audit record: "@ + e.message@,
{
    let mut m = "cannot read the audit record: ".to_owned();
    m.append(e.message.as_str());
    (ExitCode::IoError, m)
}

/// Answer an action from the record and, where there is one, a chain source.
pub fn run_against<I: ChainInventory>(
    log: &SpendLog,
    action: SpendsAction,
    inventory: Option<&I>,
) -> (r: Answered)
    ensures
        is_answer(*log, action, inventory, r),
{
    match action {
        SpendsAction::List(query) => {
            match log.query(&query) {
                Err(e) => Err(unreadable(&e)),
                Ok(ledger) => Ok(list_outcome(log.path(), &ledger)),
            }
        },
        SpendsAction::Show { id } => {
            let ledger = log.ledger();
            let ghost rows = models(ledger.records@);
            let mut i: usize = 0;
            while i < ledger.records.len()
                invariant
                    i <= ledger.records@.len(),
                    rows == models(ledger.records@),
                    rows == ledger_of(log.history()),
                    action == (SpendsAction::Show { id }),
                    forall|j: int| 0 <= j < i ==> (#[trigger] rows[j]).id != id@,
                decreases ledger.records@.len() - i,
            {
                let rec = &ledger.records[i];
                proof {
                    assert(rows[i as int] == rec@);
                }
                if text::same(rec.id.as_str(), id.as_str()) {
                    proof {
                        lemma_index_of(rows, id@, i as int);
                        assert(carries(rows, id@));
                    }
                    return Ok(show_outcome(rec));
                }
                i += 1;
            }
            proof {
                assert(!carries(rows, id@));
            }
            let mut m = "no automated spend with id ".to_owned();
            m.append(id.as_str());
            m.append(" in ");
            m.append(log.path());
            Err((ExitCode::Usage, m))
        },
        SpendsAction::Reconcile { owner_puzzle_hash } => {
            let ledger = log.ledger();
            match inventory {
                None => Err((ExitCode::NotServing, NO_CHAIN_SOURCE.to_owned())),
                Some(chain) => {
                    match reconcile(&ledger, chain, owner_puzzle_hash.as_str()) {
                        Err(e) => {
                            let mut m = "chain inventory failed: ".to_owned();
                            m.append(e.as_str());
                            Err((ExitCode::IoError, m))
                        },
                        Ok(report) => Ok(reconcile_outcome(report)),
                    }
                },
            }
        },
    }
}

/// A chain source that can say nothing.
pub struct NoChain;

impl ChainInventory for NoChain {
    fn owned_coin_ids(&self, owner_puzzle_hash: &str) -> (r: Result<Vec<String>, String>) {
        Err("no chain source".to_owned())
    }
}

/// Answer an action from the node's own record, without a chain source. `log` is the record as it
/// was read, or why it could not be.
pub fn run(log: Result<SpendLog, Error>, action: SpendsAction) -> (r: Answered)
    ensures
        match log {
            Ok(l) => is_answer::<NoChain>(l, action, None, r),
            Err(e) => r matches Err(f) && f.0 == ExitCode::IoError && f.1@
                == "cannot read the audit record: "@ + e.message@,
        },
{
    match log {
        Ok(l) => run_against::<NoChain>(&l, action, None),
        Err(e) => Err(unreadable(&e)),
    }
}

// ---- laws --------------------------------------------------------------------------------------

/// **Law: an expected coin is never shown as seen.** The line of a row holds the mark of a coin that
/// was seen only where the node saw the coin, and a program is told the same.
pub proof fn law_an_expected_coin_is_never_shown_as_seen(r: RecordModel, row: SpendRow)
    requires
        is_row(row, r),
    ensures
        (row.chain_reference matches Some(c) && c.confirmed) <==> r.status is Confirmed,
        r.status is Confirmed ==> coin_mark(r) == "  #"@ + r.status->Confirmed_1,
        !(r.status is Confirmed) && r.intended is Some ==> coin_mark(r) == "  ~"@ + r.intended->0
            + " (expected)"@,
        !(r.status is Confirmed) && r.intended is None ==> coin_mark(r).len() == 0,
{
}

/// **Law: not having looked is never a clean result.** Without a chain source a comparison is
/// refused, whatever the record holds.
pub proof fn law_no_source_is_never_clean<I: ChainInventory>(
    log: SpendLog,
    owner: Seq<char>,
    r: Answered,
)
    requires
        is_comparison_answer::<I>(log, owner, None, r),
    ensures
        r is Err,
{
}

/// **Law: a row says everything of its spend.** Its id, its status and kind, the amount with its asset, the
/// fee, on whose authority and by which grant, what for, and whatever store, coin and reason there is.
pub proof fn law_a_row_says_everything(r: RecordModel)
    ensures
        text::starts(line_of(r), r.id),
        text::has(line_of(r), text::padded_right(r.status.token(), 10)),
        text::has(line_of(r), r.kind),
        text::has(line_of(r), text::decimal(r.amount_mojos as nat) + " "@ + r.asset.name()),
        text::has(line_of(r), "  fee "@ + text::decimal(r.fee_mojos as nat)),
        text::has(line_of(r), "  by "@ + r.principal),
        text::has(line_of(r), store_mark(r)),
        text::has(line_of(r), coin_mark(r)),
        text::has(line_of(r), r.purpose),
        text::has(line_of(r), "  ["@ + r.grant),
        text::has(line_of(r), why_mark(r)),
{
    let l = line_of(r);
    let s0 = r.id + "  "@;
    let p = text::padded_right(r.status.token(), 10);
    let s1 = s0 + p + "  "@;
    let s2 = s1 + r.kind + "  "@;
    let amount = text::decimal(r.amount_mojos as nat);
    let s3 = s2 + amount + " "@ + r.asset.name();
    let s4 = s3 + "  fee "@ + text::decimal(r.fee_mojos as nat);
    let s5 = s4 + "  by "@ + r.principal;
    let s6 = s5 + store_mark(r);
    let s7 = s6 + coin_mark(r);
    let s8 = s7 + "\n    "@ + r.purpose;
    let s9 = s8 + "  ["@ + r.grant;
    let s10 = s9 + "]"@;
    assert(l == s10 + why_mark(r));
    text::lemma_begins_with_itself(l);
    text::law_a_text_holds_its_beginning(l, s10, why_mark(r));
    text::law_a_text_holds_its_beginning(l, s9, "]"@);
    text::law_neighbours_stay_together(l, s8, "  ["@, r.grant);
    text::law_a_text_holds_its_beginning(l, s7 + "\n    "@, r.purpose);
    text::law_a_text_holds_its_beginning(l, s7, "\n    "@);
    text::law_a_text_holds_its_beginning(l, s6, coin_mark(r));
    text::law_a_text_holds_its_beginning(l, s5, store_mark(r));
    text::law_neighbours_stay_together(l, s4, "  by "@, r.principal);
    text::law_neighbours_stay_together(l, s3, "  fee "@, text::decimal(r.fee_mojos as nat));
    lemma_three_together(s2, amount, " "@, r.asset.name());
    text::law_a_text_holds_its_beginning(l, s2, amount + " "@ + r.asset.name());
    text::law_a_text_holds_its_beginning(l, s1 + r.kind, "  "@);
    text::law_a_text_holds_its_beginning(l, s1, r.kind);
    text::law_a_text_holds_its_beginning(l, s0 + p, "  "@);
    text::law_a_text_holds_its_beginning(l, s0, p);
    text::law_a_text_holds_its_beginning(l, r.id, "  "@);
}

proof fn lemma_three_together(a: Seq<char>, b: Seq<char>, c: Seq<char>, d: Seq<char>)
    ensures
        a + b + c + d == a + (b + c + d),
{
    assert(a + b + c + d =~= a + (b + c + d));
}

/// **Law: what stands beside a row.** The store, where there is one; and why a spend failed, with the stage, or
/// why its outcome is not known. Nothing stands there otherwise.
pub proof fn law_what_stands_beside_a_row(r: RecordModel)
    ensures
        r.store_id matches Some(s) ==> store_mark(r) == "  store="@ + s,
        r.store_id is None ==> store_mark(r).len() == 0,
        r.status matches StatusModel::Failed(stage, reason) ==> why_mark(r) == "\n    "@ + stage.name()
            + " failed: "@ + reason,
        r.status matches StatusModel::Unresolved(reason) ==> why_mark(r) == "\n    outcome unknown: "@ + reason,
        r.status is Pending || r.status is Submitted || r.status is Confirmed ==> why_mark(r).len() == 0,
{
}

/// **Law: a spend that is shown is shown in full.** Each part under its label.
pub proof fn law_a_spend_is_shown_in_full(r: RecordModel)
    ensures
        text::starts(full_text(r), r.id),
        text::has(full_text(r), "\n  status     "@ + r.status.token()),
        text::has(full_text(r), "\n  kind       "@ + r.kind),
        text::has(full_text(r), "\n  purpose    "@ + r.purpose),
        text::has(full_text(r), "\n  amount     "@ + text::decimal(r.amount_mojos as nat)),
        text::has(full_text(r), " "@ + r.asset.name()),
        text::has(full_text(r), "\n  fee        "@ + text::decimal(r.fee_mojos as nat)),
        text::has(full_text(r), " mojos\n  authority  "@ + r.principal),
        text::has(full_text(r), " via "@ + r.grant),
        r.store_id matches Some(s) ==> text::has(full_text(r), "\n  store      "@ + s),
        r.store_id is None ==> text::has(full_text(r), "\n  store      "@ + "-"@),
        text::has(full_text(r), "\n  initiated  "@ + text::decimal(r.initiated_ms as nat)),
        text::has(full_text(r), " ms\n  updated    "@ + text::decimal(r.updated_ms as nat)),
        text::has(full_text(r), " ms\n  funding    "@ + comma_or_dash(r.funding)),
        text::has(full_text(r), "\n  chain      "@ + coin_words(r)),
{
    let l = full_text(r);
    let store = match r.store_id {
        Some(s) => s,
        None => "-"@,
    };
    let s0 = r.id;
    let s1 = s0 + "\n  status     "@ + r.status.token();
    let s2 = s1 + "\n  kind       "@ + r.kind;
    let s3 = s2 + "\n  purpose    "@ + r.purpose;
    let s4 = s3 + "\n  amount     "@ + text::decimal(r.amount_mojos as nat);
    let s5 = s4 + " "@ + r.asset.name();
    let s6 = s5 + "\n  fee        "@ + text::decimal(r.fee_mojos as nat);
    let s7 = s6 + " mojos\n  authority  "@ + r.principal;
    let s8 = s7 + " via "@ + r.grant;
    let s9 = s8 + "\n  store      "@ + store;
    let s10 = s9 + "\n  initiated  "@ + text::decimal(r.initiated_ms as nat);
    let s11 = s10 + " ms\n  updated    "@ + text::decimal(r.updated_ms as nat);
    let s12 = s11 + " ms\n  funding    "@ + comma_or_dash(r.funding);
    assert(l == s12 + "\n  chain      "@ + coin_words(r));
    text::lemma_begins_with_itself(l);
    text::law_neighbours_stay_together(l, s12, "\n  chain      "@, coin_words(r));
    text::law_neighbours_stay_together(l, s11, " ms\n  funding    "@, comma_or_dash(r.funding));
    text::law_neighbours_stay_together(l, s10, " ms\n  updated    "@, text::decimal(r.updated_ms as nat));
    text::law_neighbours_stay_together(l, s9, "\n  initiated  "@, text::decimal(r.initiated_ms as nat));
    text::law_neighbours_stay_together(l, s8, "\n  store      "@, store);
    text::law_neighbours_stay_together(l, s7, " via "@, r.grant);
    text::law_neighbours_stay_together(l, s6, " mojos\n  authority  "@, r.principal);
    text::law_neighbours_stay_together(l, s5, "\n  fee        "@, text::decimal(r.fee_mojos as nat));
    text::law_neighbours_stay_together(l, s4, " "@, r.asset.name());
    text::law_neighbours_stay_together(l, s3, "\n  amount     "@, text::decimal(r.amount_mojos as nat));
    text::law_neighbours_stay_together(l, s2, "\n  purpose    "@, r.purpose);
    text::law_neighbours_stay_together(l, s1, "\n  kind       "@, r.kind);
    text::law_neighbours_stay_together(l, s0, "\n  status     "@, r.status.token());
}

/// **Law: a coin is shown for what is known of it.** One that was seen is confirmed, one that was not is
/// expected, and none is a dash; so is an empty list.
pub proof fn law_a_coin_is_shown_for_what_is_known(r: RecordModel, list: Seq<Seq<char>>)
    ensures
        r.status matches StatusModel::Confirmed(_, coin) ==> coin_words(r) == coin + " (confirmed on chain)"@,
        !(r.status is Confirmed) ==> (r.intended matches Some(coin) ==> coin_words(r) == coin
            + " (EXPECTED, not observed)"@),
        !(r.status is Confirmed) && r.intended is None ==> coin_words(r) == "-"@,
        list.len() == 0 ==> comma_or_dash(list) == "-"@,
        list.len() > 0 ==> comma_or_dash(list) == text::joined(list, ", "@),
{
}

/// **Law: a list says how much of the record it is.** Each spend has a line of its own behind those in front of
/// it, and lines that could not be read are warned of by number and file; where all were read nothing is
/// said.
pub proof fn law_a_list_says_how_much_it_is(rows: Seq<RecordModel>, r: RecordModel, n: nat, path: Seq<char>)
    ensures
        lines_of_rows(Seq::empty()).len() == 0,
        lines_of_rows(rows.push(r)) == lines_of_rows(rows) + line_of(r) + "\n"@,
        incomplete_note(0, path).len() == 0,
        n > 0 ==> text::starts(incomplete_note(n, path), "\nWARNING: "@ + text::decimal(n)) && text::has(
            incomplete_note(n, path),
            path,
        ),
        rows.len() > 0 ==> list_text(rows, n, path) == text::trim_end(
            lines_of_rows(rows) + incomplete_note(n, path),
        ),
{
    assert(rows.push(r).drop_last() =~= rows);
    let a = "\nWARNING: "@ + text::decimal(n);
    let b = a + " line(s) of "@;
    let c = " could not be read. This record is INCOMPLETE.\n"@;
    text::law_a_longer_text_holds_its_parts(a, " line(s) of "@, a);
    text::law_a_longer_text_holds_its_parts(b, path, a);
    text::law_a_longer_text_holds_its_parts(b + path, c, a);
    text::law_a_longer_text_holds_its_parts(b, path, path);
    text::law_a_longer_text_holds_its_parts(b + path, c, path);
    if rows.len() > 0 {
        assert(Seq::<char>::empty() + lines_of_rows(rows) =~= lines_of_rows(rows));
    }
}

/// **Law: a comparison is clean where nothing is amiss.** Nothing missing, nothing unrecorded and nothing
/// unresolved; otherwise each is listed, whatever agrees.
pub proof fn law_a_comparison_is_clean_where_nothing_is_amiss(report: ReconcileReport)
    ensures
        is_clean_report(report) <==> report.missing_on_chain@.len() == 0 && report.unrecorded_on_chain@.len() == 0
            && report.unresolved@.len() == 0,
        is_clean_report(report) ==> text::has(verdict_text(report), text::decimal(report.agreed@.len())),
        !is_clean_report(report) ==> text::has(
            verdict_text(report),
            " coin(s) on chain with NO audit entry: "@ + comma_or_dash(text::views(report.unrecorded_on_chain@)),
        ) && text::has(
            verdict_text(report),
            " confirmed entry/entries whose coin the chain does not show: "@ + comma_or_dash(
                text::views(report.missing_on_chain@),
            ),
        ) && text::has(
            verdict_text(report),
            " entry/entries the node never resolved: "@ + comma_or_dash(text::views(report.unresolved@)),
        ),
{
    let l = verdict_text(report);
    text::lemma_begins_with_itself(l);
    if is_clean_report(report) {
        let a = "The local record agrees with the chain ("@;
        let n = text::decimal(report.agreed@.len());
        text::law_parts_are_found(a, n, " confirmed coin(s) present)."@);
    } else {
        let s0 = "DISAGREEMENT between the local record and the chain:\n  "@ + text::decimal(
            report.unrecorded_on_chain@.len(),
        );
        let u = comma_or_dash(text::views(report.unrecorded_on_chain@));
        let m = comma_or_dash(text::views(report.missing_on_chain@));
        let o = comma_or_dash(text::views(report.unresolved@));
        let s1 = s0 + " coin(s) on chain with NO audit entry: "@ + u;
        let s2 = s1 + "\n  "@ + text::decimal(report.missing_on_chain@.len());
        let s3 = s2 + " confirmed entry/entries whose coin the chain does not show: "@ + m;
        let s4 = s3 + "\n  "@ + text::decimal(report.unresolved@.len());
        assert(l == s4 + " entry/entries the node never resolved: "@ + o);
        text::law_neighbours_stay_together(l, s4, " entry/entries the node never resolved: "@, o);
        text::law_neighbours_stay_together(l, s3, "\n  "@, text::decimal(report.unresolved@.len()));
        text::law_neighbours_stay_together(
            l,
            s2,
            " confirmed entry/entries whose coin the chain does not show: "@,
            m,
        );
        text::law_neighbours_stay_together(l, s1, "\n  "@, text::decimal(report.missing_on_chain@.len()));
        text::law_neighbours_stay_together(l, s0, " coin(s) on chain with NO audit entry: "@, u);
    }
}

/// **Law: a program is told the same.** A row is its record with the status by name and the coin with whether
/// it was seen; a list its path, its count, what could not be read and its rows; a comparison whether it is
/// clean and each of its lists.
pub proof fn law_a_program_is_told_the_same(
    row: SpendRow,
    path: String,
    count: usize,
    bad: usize,
    spends: Vec<SpendRow>,
    clean: bool,
    report: ReconcileReport,
    i: int,
)
    requires
        0 <= i < spends@.len(),
    ensures
        row.json() matches JsonModel::Object(f) && f.len() == record_entries(row.record@).len() + 2 && f.take(
            f.len() - 2,
        ) == record_entries(row.record@) && f[f.len() - 2] == ("status_token"@, JsonModel::Text(
            row.status_token@,
        )) && f[f.len() - 1] == ("chain_reference"@, reference_json(row.chain_reference)),
        reference_json(None) == JsonModel::Null,
        row.chain_reference matches Some(c) ==> reference_json(row.chain_reference) == JsonModel::Object(
            seq![("coin_id"@, JsonModel::Text(c.coin_id@)), ("confirmed"@, JsonModel::Bool(c.confirmed))],
        ),
        (SpendsResult::List { path, count, unreadable_lines: bad, spends }).json() == JsonModel::Object(
            seq![
                ("path"@, JsonModel::Text(path@)),
                ("count"@, JsonModel::Number(count as int)),
                ("unreadable_lines"@, JsonModel::Number(bad as int)),
                ("spends"@, rows_json(spends@)),
            ],
        ),
        rows_json(spends@) matches JsonModel::List(v) && v.len() == spends@.len() && v[i] == spends@[i].json(),
        (SpendsResult::Show { spend: row }).json() == JsonModel::Object(seq![("spend"@, row.json())]),
        (SpendsResult::Reconcile { clean, report }).json() == JsonModel::Object(
            seq![
                ("clean"@, JsonModel::Bool(clean)),
                ("agreed"@, name_list(text::views(report.agreed@))),
                ("missing_on_chain"@, name_list(text::views(report.missing_on_chain@))),
                ("unrecorded_on_chain"@, name_list(text::views(report.unrecorded_on_chain@))),
                ("unresolved"@, name_list(text::views(report.unresolved@))),
            ],
        ),
{
    let f = row.json()->Object_0;
    assert(f.take(f.len() - 2) =~= record_entries(row.record@));
}

/// **Law: how a question of the record is answered.** A list with the rows of its page, or a refusal that
/// names the cursor; a spend by its id, or a refusal that names it; and a comparison only where the chain
/// was read.
pub proof fn law_how_a_question_is_answered<I: ChainInventory>(
    log: SpendLog,
    id: Seq<char>,
    q: SpendQuery,
    owner: Seq<char>,
    r: Answered,
)
    ensures
        is_show_answer(log, id, r) ==> match r {
            Ok(o) => exists|i: int|
                0 <= i < ledger_of(log.history()).len() && (#[trigger] ledger_of(log.history())[i]).id == id && shows(
                    o,
                    ledger_of(log.history())[i],
                ),
            Err(e) => e.0 == ExitCode::Usage && text::has(e.1@, id) && forall|i: int|
                0 <= i < ledger_of(log.history()).len() ==> (#[trigger] ledger_of(log.history())[i]).id != id,
        },
        is_list_answer(log, q, r) && q.after_id is None ==> r is Ok,
        is_list_answer(log, q, r) && r is Err ==> r->Err_0.0 == ExitCode::IoError,
        is_comparison_answer::<I>(log, owner, None, r) ==> (r matches Err(e) && e.0
            == ExitCode::NotServing),
{
    let rows = ledger_of(log.history());
    if is_show_answer(log, id, r) {
        if carries(rows, id) {
            lemma_index_is_found(rows, id);
            assert(rows[index_of(rows, id)].id == id);
        } else {
            assert forall|i: int| 0 <= i < rows.len() implies (#[trigger] rows[i]).id != id by {
                if rows[i].id == id {
                    assert(carries(rows, id));
                }
            }
            let a = "no automated spend with id "@;
            text::law_a_longer_text_holds_its_parts(a, id, id);
            text::law_a_longer_text_holds_its_parts(a + id, " in "@, id);
            text::law_a_longer_text_holds_its_parts(a + id + " in "@, log.location(), id);
        }
    }
}

proof fn lemma_index_is_found(rows: Seq<RecordModel>, id: Seq<char>)
    requires
        carries(rows, id),
    ensures
        0 <= index_of(rows, id) < rows.len(),
        rows[index_of(rows, id)].id == id,
    decreases rows.len(),
{
    let i = choose|i: int| 0 <= i < rows.len() && (#[trigger] rows[i]).id == id;
    if rows[0].id != id {
        let rest = rows.skip(1);
        assert(rest[i - 1] == rows[i]);
        assert(carries(rest, id));
        lemma_index_is_found(rest, id);
    }
}

/// **Law: a list holds its rows.** As many as it says, each the record it stands for with its status by name
/// and its coin; and where the record was read and how much of it could not be.
pub proof fn law_a_list_holds_its_rows(
    o: Outcome<SpendsResult>,
    rows: Seq<RecordModel>,
    unreadable: nat,
    path: Seq<char>,
    i: int,
)
    requires
        lists(o, rows, unreadable, path),
        0 <= i < rows.len(),
    ensures
        o.summary@ == list_text(rows, unreadable, path),
        o.result matches SpendsResult::List { path: p, count, unreadable_lines, spends } && p@ == path && count
            == rows.len() && unreadable_lines == unreadable && spends@.len() == rows.len() && spends@[i].record@
            == rows[i] && spends@[i].status_token@ == rows[i].status.token() && (spends@[i].chain_reference is Some
            <==> rows[i].status is Confirmed || rows[i].intended is Some),
{
    if let SpendsResult::List { spends, .. } = o.result {
        assert(is_row(spends@[i], rows[i]));
        crate::spend_audit::law_the_coin_to_look_up(rows[i]);
    }
}

/// **Law: a comparison reports what it found.** It is clean exactly where nothing is amiss in the report it
/// carries, and the report is of the record and the chain that were compared.
pub proof fn law_a_comparison_reports_what_it_found(
    o: Outcome<SpendsResult>,
    rows: Seq<RecordModel>,
    on_chain: Seq<Seq<char>>,
)
    requires
        compares(o, rows, on_chain),
    ensures
        o.result matches SpendsResult::Reconcile { report, .. } && o.summary@ == verdict_text(report),
        o.result matches SpendsResult::Reconcile { clean, report } && is_report(report, rows, on_chain) && (clean
            <==> report.missing_on_chain@.len() == 0 && report.unrecorded_on_chain@.len() == 0
            && report.unresolved@.len() == 0),
{
}

/// **Law: a spend that is shown is the one that was asked for.** In full for a person, and for a program the
/// record it stands for with its status by name.
pub proof fn law_a_shown_spend_is_the_one_asked_for(o: Outcome<SpendsResult>, r: RecordModel)
    requires
        shows(o, r),
    ensures
        o.summary@ == full_text(r),
        o.result matches SpendsResult::Show { spend } && spend.record@ == r && spend.status_token@
            == r.status.token(),
{
}

} // verus!
