//! The automated-spend audit record.
use dig_node_service::error::{Error, ErrorKind};
use dig_node_service::json::Json;
use dig_node_service::server::mirror::committed_coins;
use dig_node_service::spend_audit::funding::committed_in;
use dig_node_service::spend_audit::ids::IdSource;
use dig_node_service::spend_audit::ledger::entry_lines;
use dig_node_service::spend_audit::wire::{read_line, record_from_json, record_to_json};
use dig_node_service::spend_audit::{
    committed_funding_coin_ids, kinds, reconcile, Asset, AuditedBond, Authority, ChainInventory,
    ChainReference, Clock, CommitmentsUnreadable, FailureStage, FundingCoinId, LogLine,
    RecordedSpend, Resolution, SpendIntent, SpendJournal, SpendKind, SpendLedger, SpendLog,
    SpendQuery, SpendRecord, SpendStatus, Submission, TargetCoinId, FUNDING_RESERVATION_WINDOW_MS,
    SPEND_AUDIT_FILE,
};
use dig_node_service::state::Os;

const NOW: u64 = 1_767_225_600_000;

fn tmp_log() -> SpendLog {
    SpendLog::in_state_dir(Os::Linux, "/var/lib/dig-node")
}

fn journal() -> (SpendJournal, IdSource) {
    (
        SpendJournal::with_clock(tmp_log(), Clock::Fixed(NOW)),
        IdSource::new(7),
    )
}

fn intent() -> SpendIntent {
    SpendIntent {
        kind: SpendKind::new(kinds::MIRROR_COIN),
        purpose: "advertise that this node holds the store".to_string(),
        authority: Authority {
            principal: "node".to_string(),
            grant: "settings.autoMirror".to_string(),
        },
        asset: Asset::Xch,
        amount_mojos: 1_000,
        fee_mojos: 10,
        store_id: Some("store-a".to_string()),
        bond: None,
    }
}

fn target(id: &str) -> TargetCoinId {
    TargetCoinId(id.to_string())
}

fn funding(id: &str) -> FundingCoinId {
    FundingCoinId(id.to_string())
}

#[test]
fn the_entry_is_on_disk_before_the_producer_signs() {
    let (mut journal, mut ids) = journal();
    let mut recorded = journal.begin(&mut ids, intent());

    let seen_mid_flight = journal.log().ledger();
    assert_eq!(seen_mid_flight.records.len(), 1);
    assert_eq!(seen_mid_flight.records[0].status, SpendStatus::Pending);
    assert_eq!(seen_mid_flight.records[0].id, recorded.id());

    journal.failed(&mut recorded, FailureStage::Signing, "insufficient funds");
}

#[test]
fn a_failed_spend_is_recorded_with_its_stage_and_reason() {
    let (mut journal, mut ids) = journal();
    let mut recorded = journal.begin(&mut ids, intent());
    journal.failed(&mut recorded, FailureStage::Signing, "insufficient funds");
    journal.close(recorded);

    let ledger = journal.log().ledger();
    assert_eq!(ledger.records.len(), 1, "one spend, folded to one row");
    assert_eq!(
        ledger.records[0].status,
        SpendStatus::Failed {
            stage: FailureStage::Signing,
            reason: "insufficient funds".to_string(),
        }
    );
}

#[test]
fn a_competing_spend_of_the_funding_coin_never_confirms_this_spend() {
    let (mut journal, mut ids) = journal();
    let mut recorded = journal.begin(&mut ids, intent());
    journal.submitted(
        &mut recorded,
        Submission {
            intended_coin_id: Some(target("target-coin")),
            funding_coin_ids: vec![funding("funding-coin")],
        },
    );
    journal.unresolved(
        &mut recorded,
        "the target coin did not appear within the window",
    );
    journal.close(recorded);

    let ledger = journal.log().ledger();
    let rec = &ledger.records[0];
    assert_eq!(rec.status.token(), "unresolved");
    assert_eq!(
        rec.chain_reference(),
        Some(ChainReference {
            coin_id: "target-coin".to_string(),
            confirmed: false,
        }),
        "an intended coin is reported as a CLAIM, never as an observation"
    );
}

#[test]
fn observing_the_created_coin_confirms_the_spend() {
    let (mut journal, mut ids) = journal();
    let mut recorded = journal.begin(&mut ids, intent());
    journal.submitted(
        &mut recorded,
        Submission {
            intended_coin_id: Some(target("target-coin")),
            funding_coin_ids: vec![funding("funding-coin")],
        },
    );
    journal.confirmed(&mut recorded, target("target-coin"), 9_000_001);
    journal.close(recorded);

    let ledger = journal.log().ledger();
    assert_eq!(
        ledger.records[0].status,
        SpendStatus::Confirmed {
            height: 9_000_001,
            coin_id: target("target-coin"),
        }
    );
    assert_eq!(
        ledger.records[0].chain_reference(),
        Some(ChainReference {
            coin_id: "target-coin".to_string(),
            confirmed: true,
        })
    );
}

#[test]
fn a_dropped_spend_settles_itself_as_unresolved() {
    let (mut journal, mut ids) = journal();
    let mut recorded = journal.begin(&mut ids, intent());
    journal.submitted(
        &mut recorded,
        Submission {
            intended_coin_id: Some(target("target-coin")),
            funding_coin_ids: vec![],
        },
    );
    journal.close(recorded);
    let ledger = journal.log().ledger();
    assert_eq!(ledger.records[0].status.token(), "unresolved");
}

#[test]
fn a_producer_that_panics_still_leaves_an_unresolved_entry_with_its_coin() {
    let (mut journal, mut ids) = journal();
    let mut recorded = journal.begin(&mut ids, intent());
    journal.submitted(
        &mut recorded,
        Submission {
            intended_coin_id: Some(target("target-coin")),
            funding_coin_ids: vec![funding("funding-coin")],
        },
    );
    // The producer ends here, whatever ended it: the guard closes the spend.
    journal.close(recorded);

    let ledger = journal.log().ledger();
    assert_eq!(
        ledger.records.len(),
        1,
        "one spend, one current row: the guard must not double-write"
    );
    let rec = &ledger.records[0];
    assert_eq!(rec.status.token(), "unresolved");
    assert_eq!(rec.intended_coin_id, Some(target("target-coin")));
    assert_eq!(rec.funding_coin_ids, vec![funding("funding-coin")]);
    assert_eq!(
        rec.status,
        SpendStatus::Unresolved {
            reason: "the producer ended without recording an outcome".to_string()
        }
    );
}

#[test]
fn dropping_a_settled_spend_does_not_overwrite_its_outcome() {
    let (mut journal, mut ids) = journal();
    let mut recorded = journal.begin(&mut ids, intent());
    journal.confirmed(&mut recorded, target("c"), 5);
    journal.close(recorded);
    let ledger = journal.log().ledger();
    assert_eq!(ledger.records.len(), 1);
    assert_eq!(ledger.records[0].status.token(), "confirmed");
}

#[test]
fn the_file_keeps_every_revision_and_the_fold_reports_the_newest() {
    let (mut journal, mut ids) = journal();
    let mut recorded = journal.begin(&mut ids, intent());
    journal.submitted(
        &mut recorded,
        Submission {
            intended_coin_id: Some(target("c")),
            funding_coin_ids: vec![],
        },
    );
    journal.confirmed(&mut recorded, target("c"), 7);
    journal.close(recorded);

    assert_eq!(
        journal.log().lines().len(),
        3,
        "pending + submitted + confirmed"
    );
    let ledger = journal.log().ledger();
    assert_eq!(ledger.records.len(), 1);
    assert_eq!(ledger.records[0].revision, 3);
}

/// The log of `journal` with `extra` further lines that cannot be read.
fn with_unreadable(log: &SpendLog, extra: usize) -> SpendLog {
    let mut lines = Vec::new();
    for line in log.lines() {
        match line {
            LogLine::Record(r) => lines.push(LogLine::Record(r.clone())),
            LogLine::Unreadable => lines.push(LogLine::Unreadable),
        }
    }
    for _ in 0..extra {
        lines.push(LogLine::Unreadable);
    }
    SpendLog::with_lines(log.path(), lines)
}

#[test]
fn an_unparseable_line_is_counted_rather_than_hidden() {
    let (mut journal, mut ids) = journal();
    let mut recorded = journal.begin(&mut ids, intent());
    journal.failed(&mut recorded, FailureStage::Broadcast, "rejected");
    journal.close(recorded);

    let ledger = with_unreadable(journal.log(), 1).ledger();
    assert_eq!(ledger.records.len(), 1);
    assert_eq!(ledger.unreadable_lines, 1);
}

#[test]
fn two_spends_in_the_same_millisecond_are_two_records() {
    let (mut journal, mut ids) = journal();
    let mut a = journal.begin(&mut ids, intent());
    let mut b = journal.begin(&mut ids, intent());
    journal.failed(&mut a, FailureStage::Signing, "a");
    journal.failed(&mut b, FailureStage::Signing, "b");
    journal.close(a);
    journal.close(b);

    let ledger = journal.log().ledger();
    assert_eq!(ledger.records.len(), 2);
}

#[test]
fn a_node_that_never_spent_reads_as_an_empty_ledger() {
    let log = SpendLog::at("/tmp/dig-node-spend-audit-absent/none.jsonl");
    let ledger = log.ledger();
    assert!(ledger.records.is_empty());
    assert_eq!(ledger.unreadable_lines, 0);
}

fn record_at(id: &str, initiated_ms: u64, kind: &str, store: Option<&str>) -> SpendRecord {
    SpendRecord {
        id: id.to_string(),
        revision: 1,
        kind: SpendKind::new(kind),
        purpose: "p".to_string(),
        authority: Authority {
            principal: "node".to_string(),
            grant: "g".to_string(),
        },
        asset: Asset::Dig,
        amount_mojos: 1,
        fee_mojos: 0,
        store_id: store.map(str::to_string),
        bond: None,
        initiated_ms,
        updated_ms: initiated_ms,
        status: SpendStatus::Pending,
        funding_coin_ids: vec![],
        intended_coin_id: None,
    }
}

#[test]
fn the_time_window_includes_since_and_excludes_until() {
    let q = SpendQuery {
        since_ms: Some(100),
        until_ms: Some(200),
        ..Default::default()
    };
    assert!(!q.matches(&record_at("a", 99, "k", None)), "before since");
    assert!(q.matches(&record_at("b", 100, "k", None)), "at since");
    assert!(q.matches(&record_at("c", 199, "k", None)), "inside");
    assert!(!q.matches(&record_at("d", 200, "k", None)), "at until");
}

#[test]
fn store_kind_and_status_filters_all_bind() {
    let base = record_at("a", 100, kinds::MIRROR_COIN, Some("store-a"));

    let by_store = SpendQuery {
        store_id: Some("store-a".to_string()),
        ..Default::default()
    };
    assert!(by_store.matches(&base));
    assert!(!by_store.matches(&record_at("b", 100, kinds::MIRROR_COIN, Some("store-b"))));
    assert!(
        !by_store.matches(&record_at("c", 100, kinds::MIRROR_COIN, None)),
        "a storeless spend does not match a store filter"
    );

    let by_kind = SpendQuery {
        kind: Some(kinds::MIRROR_COIN.to_string()),
        ..Default::default()
    };
    assert!(by_kind.matches(&base));
    assert!(!by_kind.matches(&record_at("d", 100, kinds::DIAGNOSTIC, Some("store-a"))));

    let by_status = SpendQuery {
        status: Some("failed".to_string()),
        ..Default::default()
    };
    assert!(!by_status.matches(&base), "base is pending");
    let mut failed = base.clone();
    failed.status = SpendStatus::Failed {
        stage: FailureStage::Broadcast,
        reason: "r".to_string(),
    };
    assert!(by_status.matches(&failed));
}

struct FakeChain(Vec<String>);
impl ChainInventory for FakeChain {
    fn owned_coin_ids(&self, _owner: &str) -> Result<Vec<String>, String> {
        Ok(self.0.clone())
    }
}

struct SilentChain;
impl ChainInventory for SilentChain {
    fn owned_coin_ids(&self, owner: &str) -> Result<Vec<String>, String> {
        Err(format!("no peer answered for {owner}"))
    }
}

fn whole(records: Vec<SpendRecord>) -> SpendLedger {
    SpendLedger {
        records,
        unreadable_lines: 0,
        complete: true,
    }
}

#[test]
fn reconciliation_reports_both_directions_of_disagreement() {
    let ledger = whole(vec![
        {
            let mut r = record_at("agreed", 100, kinds::MIRROR_COIN, None);
            r.status = SpendStatus::Confirmed {
                height: 1,
                coin_id: target("coin-agreed"),
            };
            r
        },
        {
            let mut r = record_at("gone", 100, kinds::MIRROR_COIN, None);
            r.status = SpendStatus::Confirmed {
                height: 1,
                coin_id: target("coin-gone"),
            };
            r
        },
    ]);
    let chain = FakeChain(vec![
        "coin-agreed".to_string(),
        "coin-nobody-recorded".to_string(),
    ]);

    let report = reconcile(&ledger, &chain, "owner-ph").expect("reconcile");
    assert_eq!(report.agreed, vec!["coin-agreed".to_string()]);
    assert_eq!(report.missing_on_chain, vec!["coin-gone".to_string()]);
    assert_eq!(
        report.unrecorded_on_chain,
        vec!["coin-nobody-recorded".to_string()],
        "money this node moved with no entry is the alarm this whole record exists for"
    );
    assert!(!report.is_clean());
}

#[test]
fn an_unresolved_entry_accounts_for_its_intended_coin() {
    let mut r = record_at("u", 100, kinds::MIRROR_COIN, None);
    r.status = SpendStatus::Unresolved {
        reason: "timed out".to_string(),
    };
    r.intended_coin_id = Some(target("coin-u"));
    let ledger = whole(vec![r]);

    let report =
        reconcile(&ledger, &FakeChain(vec!["coin-u".to_string()]), "ph").expect("reconcile");
    assert!(
        report.unrecorded_on_chain.is_empty(),
        "an unresolved entry's own coin is accounted for, not an alarm"
    );
    assert_eq!(report.unresolved, vec!["u".to_string()]);
    assert!(!report.is_clean(), "unresolved still needs attention");
}

#[test]
fn a_failed_entry_creates_no_discrepancy() {
    let mut r = record_at("f", 100, kinds::MIRROR_COIN, None);
    r.status = SpendStatus::Failed {
        stage: FailureStage::Signing,
        reason: "no funds".to_string(),
    };
    let ledger = whole(vec![r]);
    let report = reconcile(&ledger, &FakeChain(vec![]), "ph").expect("reconcile");
    assert!(report.is_clean());
}

#[test]
fn a_broadcast_failure_is_unresolved_and_accounts_for_its_intended_coin() {
    let broadcast_failed = {
        let mut r = record_at("b", 100, kinds::MIRROR_COIN, None);
        r.status = SpendStatus::Failed {
            stage: FailureStage::Broadcast,
            reason: "mempool rejected".to_string(),
        };
        r.intended_coin_id = Some(target("coin-broadcast"));
        r
    };
    let signing_failed = {
        let mut r = record_at("s", 100, kinds::MIRROR_COIN, None);
        r.status = SpendStatus::Failed {
            stage: FailureStage::Signing,
            reason: "insufficient funds".to_string(),
        };
        r.intended_coin_id = Some(target("coin-never-signed"));
        r
    };

    assert!(!broadcast_failed.status.is_terminal());
    assert!(signing_failed.status.is_terminal());

    let ledger = whole(vec![broadcast_failed, signing_failed]);
    let chain = FakeChain(vec![
        "coin-broadcast".to_string(),
        "coin-nobody-recorded".to_string(),
    ]);

    let report = reconcile(&ledger, &chain, "owner-ph").expect("reconcile");

    assert_eq!(
        report.unrecorded_on_chain,
        vec!["coin-nobody-recorded".to_string()]
    );
    assert_eq!(report.unresolved, vec!["b".to_string()]);
    assert!(!report.is_clean());
}

#[test]
fn only_a_signing_failure_claims_the_money_stayed_put() {
    assert!(!FailureStage::Signing.money_may_have_moved());
    assert!(FailureStage::Broadcast.money_may_have_moved());
    assert!(FailureStage::Confirmation.money_may_have_moved());
}

#[test]
fn status_tokens_are_stable() {
    assert_eq!(SpendStatus::Pending.token(), "pending");
    assert_eq!(SpendStatus::Submitted.token(), "submitted");
    assert_eq!(
        SpendStatus::Confirmed {
            height: 1,
            coin_id: target("c")
        }
        .token(),
        "confirmed"
    );
    assert_eq!(
        SpendStatus::Failed {
            stage: FailureStage::Signing,
            reason: String::new()
        }
        .token(),
        "failed"
    );
    assert_eq!(
        SpendStatus::Unresolved {
            reason: String::new()
        }
        .token(),
        "unresolved"
    );
}

fn paging_log() -> SpendLog {
    let rows = [
        ("a", 300u64, kinds::MIRROR_COIN, Some("store-1")),
        ("b", 200, kinds::MIRROR_COIN, Some("store-1")),
        ("c", 200, kinds::MIRROR_COIN, Some("store-2")),
        ("d", 100, "profile-mint", Some("store-2")),
        ("e", 100, kinds::MIRROR_COIN, None),
        ("f", 100, kinds::MIRROR_COIN, Some("store-1")),
    ];
    let mut lines = Vec::new();
    for (id, ms, kind, store) in rows {
        lines.push(LogLine::Record(record_at(id, ms, kind, store)));
    }
    SpendLog::with_lines("/tmp/spend-audit.jsonl", lines)
}

fn ids_of(ledger: &SpendLedger) -> Vec<String> {
    ledger.records.iter().map(|r| r.id.clone()).collect()
}

fn walk(log: &SpendLog, page: usize) -> (Vec<String>, usize) {
    let mut seen = Vec::new();
    let mut after = None;
    let mut requests = 0;
    loop {
        let q = SpendQuery {
            after_id: after.clone(),
            limit: Some(page),
            ..SpendQuery::default()
        };
        let ledger = log.query(&q).expect("page");
        requests += 1;
        seen.extend(ids_of(&ledger));
        if ledger.complete {
            return (seen, requests);
        }
        after = SpendLog::cursor_of(&ledger);
        assert!(
            after.is_some(),
            "an incomplete page must hand back a cursor"
        );
        assert!(requests < 20, "walk did not terminate");
    }
}

#[test]
fn the_documented_order_is_newest_first_then_id_ascending() {
    let log = paging_log();
    let all = log.query(&SpendQuery::default()).expect("all");
    assert_eq!(ids_of(&all), ["a", "b", "c", "d", "e", "f"]);
}

#[test]
fn a_walk_visits_every_row_exactly_once_across_a_tied_millisecond() {
    let log = paging_log();
    let (seen, requests) = walk(&log, 2);
    assert_eq!(seen, ["a", "b", "c", "d", "e", "f"]);
    assert!(requests > 1);
    assert_eq!(walk(&log, 4).0, ["a", "b", "c", "d", "e", "f"]);
}

#[test]
fn complete_is_not_inferred_from_a_full_page() {
    let log = paging_log();
    let first = log
        .query(&SpendQuery {
            limit: Some(3),
            ..SpendQuery::default()
        })
        .expect("first");
    assert_eq!(first.records.len(), 3);
    assert!(!first.complete, "rows were withheld");

    let second = log
        .query(&SpendQuery {
            after_id: SpendLog::cursor_of(&first),
            limit: Some(3),
            ..SpendQuery::default()
        })
        .expect("second");
    assert_eq!(second.records.len(), 3);
    assert!(
        second.complete,
        "an exactly-full LAST page is still complete"
    );
    assert_eq!(walk(&log, 3).1, 2, "the walk must stop after two requests");
}

#[test]
fn an_unlimited_read_and_an_empty_record_are_both_complete() {
    let log = paging_log();
    assert!(log.query(&SpendQuery::default()).expect("all").complete);
    let empty = SpendLog::at("/tmp/never-written.jsonl");
    let page = empty.query(&SpendQuery::default()).expect("empty");
    assert!(page.records.is_empty());
    assert!(page.complete);
    assert_eq!(SpendLog::cursor_of(&page), None);
}

#[test]
fn the_cursor_is_the_last_row_handed_over_not_the_end_of_the_record() {
    let log = paging_log();
    let first = log
        .query(&SpendQuery {
            limit: Some(2),
            ..SpendQuery::default()
        })
        .expect("first");
    assert_eq!(SpendLog::cursor_of(&first), Some("b".to_string()));
}

#[test]
fn a_cursor_narrowed_by_a_filter_still_names_a_position_in_that_filtered_order() {
    let log = paging_log();
    let page = log
        .query(&SpendQuery {
            store_id: Some("store-1".to_string()),
            after_id: Some("b".to_string()),
            ..SpendQuery::default()
        })
        .expect("filtered page");
    assert_eq!(ids_of(&page), ["f"]);
    assert!(page.complete);
}

#[test]
fn an_unknown_cursor_is_refused_rather_than_restarting_or_ending_the_walk() {
    let log = paging_log();
    let err = log
        .query(&SpendQuery {
            store_id: Some("store-1".to_string()),
            after_id: Some("d".to_string()),
            ..SpendQuery::default()
        })
        .expect_err("an unknown cursor must be refused");
    assert_eq!(err.kind(), ErrorKind::InvalidInput);
    assert!(err.to_text().contains("cursor"));
    assert_eq!(
        err.to_text(),
        "unknown cursor \"d\": no matching spend has that id"
    );
}

#[test]
fn unreadable_lines_survive_paging_and_are_not_a_page_count() {
    let log = with_unreadable(&paging_log(), 2);
    let page = log
        .query(&SpendQuery {
            limit: Some(1),
            ..SpendQuery::default()
        })
        .expect("page");
    assert_eq!(page.records.len(), 1);
    assert_eq!(page.unreadable_lines, 2);
    assert!(!page.complete);
}

fn submit_funded(journal: &mut SpendJournal, ids: &mut IdSource, coin: &str) -> RecordedSpend {
    let mut spend = journal.begin(ids, intent());
    journal.submitted(
        &mut spend,
        Submission {
            intended_coin_id: None,
            funding_coin_ids: vec![FundingCoinId(coin.repeat(32))],
        },
    );
    spend
}

#[test]
fn a_stuck_spend_releases_its_funding_coins_once_the_hold_lapses() {
    let (mut journal, mut ids) = journal();
    let _stuck = submit_funded(&mut journal, &mut ids, "11");
    let _inside = submit_funded(&mut journal, &mut ids, "22");
    let log = journal.log();

    let at_bound = committed_funding_coin_ids(log, NOW + FUNDING_RESERVATION_WINDOW_MS - 1)
        .expect("readable");
    assert!(at_bound.contains(&"11".repeat(32)) && at_bound.contains(&"22".repeat(32)));

    let lapsed =
        committed_funding_coin_ids(log, NOW + FUNDING_RESERVATION_WINDOW_MS).expect("readable");
    assert!(lapsed.is_empty());

    let ledger = log.ledger();
    assert_eq!(ledger.records.len(), 2);
    assert!(ledger
        .records
        .iter()
        .all(|r| r.status == SpendStatus::Submitted));
    assert!(ledger
        .records
        .iter()
        .all(|r| r.status.may_have_reached_the_network()));
}

#[test]
fn a_record_dated_in_the_future_keeps_its_hold() {
    let (mut journal, mut ids) = journal();
    let _spend = submit_funded(&mut journal, &mut ids, "33");
    let committed = committed_funding_coin_ids(journal.log(), NOW - 1).expect("readable");
    assert!(committed.contains(&"33".repeat(32)));
}

#[test]
fn the_window_never_extends_a_hold_a_terminal_status_already_released() {
    let (mut journal, mut ids) = journal();
    let mut confirmed = journal.begin(&mut ids, intent());
    journal.submitted(
        &mut confirmed,
        Submission {
            intended_coin_id: Some(TargetCoinId("aa".repeat(32))),
            funding_coin_ids: vec![FundingCoinId("11".repeat(32))],
        },
    );
    journal.confirmed(&mut confirmed, TargetCoinId("aa".repeat(32)), 100);

    let mut never_signed = submit_funded(&mut journal, &mut ids, "22");
    journal.failed(&mut never_signed, FailureStage::Signing, "no key");

    let _open = submit_funded(&mut journal, &mut ids, "33");

    let committed = committed_funding_coin_ids(journal.log(), NOW).expect("readable");
    assert_eq!(
        committed,
        vec!["33".repeat(32)],
        "only the open, unlapsed record withholds anything"
    );
}

#[test]
fn a_lost_line_refuses_the_committed_set() {
    let (mut journal, mut ids) = journal();
    let _spend = submit_funded(&mut journal, &mut ids, "44");
    let log = with_unreadable(journal.log(), 1);
    let refused = committed_funding_coin_ids(&log, NOW).expect_err("a lost line refuses");
    assert_eq!(
        refused,
        CommitmentsUnreadable("1 entries could not be parsed".to_string())
    );
    assert_eq!(
        refused.to_text(),
        "the spend audit record is unreadable (1 entries could not be parsed), so which coins are \
         already committed to an in-flight bundle is unknown; no coin is selected"
    );
}

#[test]
fn a_landed_spend_is_resolved_once_and_only_while_open() {
    let (mut journal, mut ids) = journal();
    let mut spend = submit_funded(&mut journal, &mut ids, "55");
    let id = spend.id().to_string();
    assert_eq!(
        journal.resolve_landed(&id, target("coin"), 9),
        Resolution::Recorded
    );
    let ledger = journal.log().ledger();
    assert_eq!(ledger.records[0].revision, 3);
    assert_eq!(
        ledger.records[0].status,
        SpendStatus::Confirmed {
            height: 9,
            coin_id: target("coin")
        }
    );
    assert_eq!(
        ledger.records[0].funding_coin_ids,
        vec![FundingCoinId("55".repeat(32))]
    );
    assert_eq!(
        journal.resolve_landed(&id, target("coin"), 9),
        Resolution::NotOpen
    );
    assert_eq!(
        journal.resolve_landed("nobody", target("coin"), 9),
        Resolution::NoSuchSpend
    );
    journal.failed(&mut spend, FailureStage::Signing, "late");

    let pending = journal.begin(&mut ids, intent());
    let pending_id = pending.id().to_string();
    assert_eq!(
        journal.resolve_landed(&pending_id, target("coin"), 9),
        Resolution::NotOpen,
        "a spend that never left this node owns no coin on chain"
    );

    let mut broadcast = journal.begin(&mut ids, intent());
    journal.failed(&mut broadcast, FailureStage::Broadcast, "rejected");
    let broadcast_id = broadcast.id().to_string();
    assert_eq!(
        journal.resolve_landed(&broadcast_id, target("other"), 10),
        Resolution::Recorded,
        "a broadcast failure stays chaseable"
    );
}

#[test]
fn spend_ids_carry_the_millisecond_the_counter_and_the_process() {
    let mut ids = IdSource::new(4242);
    assert_eq!(ids.new_spend_id(7), "sp_0000000000007_000000_4242");
    assert_eq!(ids.new_spend_id(7), "sp_0000000000007_000001_4242");
    assert_eq!(
        ids.new_spend_id(1_767_225_600_000),
        "sp_1767225600000_000002_4242"
    );
}

#[test]
fn the_wall_clock_stamps_a_spend() {
    let mut journal = SpendJournal::new(tmp_log());
    let mut ids = IdSource::new(1);
    let spend = journal.begin(&mut ids, intent());
    let row = &journal.log().ledger().records[0];
    assert!(row.initiated_ms > 1_600_000_000_000);
    assert_eq!(row.initiated_ms, row.updated_ms);
    assert_eq!(row.id, spend.id());
}

#[test]
fn the_record_lives_in_the_state_directory() {
    assert_eq!(SPEND_AUDIT_FILE, "spend-audit.jsonl");
    assert_eq!(
        SpendLog::in_state_dir(Os::Linux, "/var/lib/dig-node").path(),
        "/var/lib/dig-node/spend-audit.jsonl"
    );
    assert_eq!(SpendLog::in_state_dir(Os::Linux, "/").path(), "/spend-audit.jsonl");
}

#[test]
fn blank_lines_are_no_entries() {
    assert_eq!(
        entry_lines("{\"a\":1}\r\n\n   \t\n{not json\n"),
        vec!["{\"a\":1}".to_string(), "{not json".to_string()]
    );
    assert!(entry_lines("").is_empty());
}

#[test]
fn a_lower_or_equal_revision_never_replaces_a_snapshot() {
    let mut second = record_at("a", 100, "k", None);
    second.revision = 2;
    second.purpose = "first of its revision".to_string();
    let mut again = record_at("a", 100, "k", None);
    again.revision = 2;
    again.purpose = "second of its revision".to_string();
    let first = record_at("a", 100, "k", None);
    let log = SpendLog::with_lines(
        "/x",
        vec![
            LogLine::Record(second),
            LogLine::Record(again),
            LogLine::Record(first),
        ],
    );
    let ledger = log.ledger();
    assert_eq!(ledger.records.len(), 1);
    assert_eq!(ledger.records[0].purpose, "first of its revision");
}

#[test]
fn a_chain_that_does_not_answer_gives_no_report() {
    let refused = reconcile(&whole(vec![]), &SilentChain, "owner-ph").expect_err("no answer");
    assert_eq!(refused, "no peer answered for owner-ph");
}

#[test]
fn unrecorded_coins_are_listed_once_in_ascending_order() {
    let chain = FakeChain(vec![
        "c".to_string(),
        "a".to_string(),
        "c".to_string(),
        "b".to_string(),
    ]);
    let report = reconcile(&whole(vec![]), &chain, "ph").expect("reconcile");
    assert_eq!(report.unrecorded_on_chain, ["a", "b", "c"]);
}

#[test]
fn assets_stages_and_bonds_print_their_names() {
    assert_eq!(Asset::Xch.to_text(), "XCH");
    assert_eq!(Asset::Dig.to_text(), "DIG");
    assert_eq!(
        Asset::Cat {
            asset_id: "ab".to_string()
        }
        .to_text(),
        "CAT:ab"
    );
    assert_eq!(FailureStage::Signing.to_text(), "signing");
    assert_eq!(FailureStage::Broadcast.to_text(), "broadcast");
    assert_eq!(FailureStage::Confirmation.to_text(), "confirmation");
    let mut with_bond = intent();
    with_bond.bond = Some(AuditedBond {
        root: "6b42".to_string(),
        epoch: 104,
    });
    let (mut journal, mut ids) = journal();
    let _spend = journal.begin(&mut ids, with_bond);
    assert_eq!(
        journal.log().ledger().records[0].bond,
        Some(AuditedBond {
            root: "6b42".to_string(),
            epoch: 104,
        })
    );
}

#[test]
fn the_reservation_window_is_two_mirror_rounds() {
    assert_eq!(
        FUNDING_RESERVATION_WINDOW_MS,
        2 * dig_constants::MIRROR_ROUND_LENGTH_MS as u64
    );
    assert_eq!(FUNDING_RESERVATION_WINDOW_MS, 1_200_000);
}

// ---- the shape on the wire ---------------------------------------------------------------------

#[test]
fn the_json_field_names_are_the_published_shape() {
    let mut r = record_at("id-1", NOW, kinds::MIRROR_COIN, Some("store-a"));
    r.status = SpendStatus::Confirmed {
        height: 42,
        coin_id: TargetCoinId("coin-1".to_string()),
    };
    let v = record_to_json(&r);
    for field in [
        "id",
        "revision",
        "kind",
        "purpose",
        "authority",
        "asset",
        "amount_mojos",
        "fee_mojos",
        "store_id",
        "initiated_ms",
        "updated_ms",
        "status",
        "funding_coin_ids",
        "intended_coin_id",
    ] {
        assert!(v.get(field).is_some(), "missing field {field}");
    }
    let status = v.get("status").unwrap();
    assert_eq!(status.get_str("state"), Some("confirmed"));
    assert_eq!(status.get_u64("height"), Some(42));
    assert_eq!(status.get_str("coin_id"), Some("coin-1"));
    assert_eq!(
        v.get("asset").unwrap().get_str("asset"),
        Some("dig"),
        "the fixture spends DIG"
    );
    assert_eq!(v.get_str("kind"), Some(kinds::MIRROR_COIN));

    let back = record_from_json(&v).expect("deserialize");
    assert_eq!(back, r);
}

#[test]
fn every_status_and_asset_is_read_back() {
    let mut r = record_at("id-2", 5, "other", None);
    r.bond = Some(AuditedBond {
        root: "root".to_string(),
        epoch: -3,
    });
    r.funding_coin_ids = vec![FundingCoinId("a".to_string()), FundingCoinId("b".to_string())];
    r.intended_coin_id = Some(TargetCoinId("c".to_string()));
    for status in [
        SpendStatus::Pending,
        SpendStatus::Submitted,
        SpendStatus::Failed {
            stage: FailureStage::Broadcast,
            reason: "why".to_string(),
        },
        SpendStatus::Unresolved {
            reason: "lost".to_string(),
        },
    ] {
        r.status = status;
        assert_eq!(record_from_json(&record_to_json(&r)).unwrap(), r);
    }
    for asset in [
        Asset::Xch,
        Asset::Cat {
            asset_id: "cat-1".to_string(),
        },
    ] {
        r.asset = asset;
        assert_eq!(record_from_json(&record_to_json(&r)).unwrap(), r);
    }
}

fn entries_of(r: &SpendRecord) -> Vec<(String, Json)> {
    match record_to_json(r) {
        Json::Object(entries) => entries,
        other => panic!("{other:?}"),
    }
}

#[test]
fn a_line_from_before_bonds_is_still_read() {
    let r = record_at("id-3", 5, "k", None);
    let mut entries = entries_of(&r);
    entries.retain(|(k, _)| k != "bond");
    entries.push(("a_later_name".to_string(), Json::Bool(true)));
    let parsed = Json::Object(entries);
    assert_eq!(read_line(Some(&parsed)), LogLine::Record(r));
}

#[test]
fn what_is_no_record_is_unreadable() {
    let r = record_at("id-4", 5, "k", None);
    assert_eq!(read_line(None), LogLine::Unreadable);
    assert_eq!(read_line(Some(&Json::Null)), LogLine::Unreadable);
    for name in ["id", "status", "funding_coin_ids", "fee_mojos"] {
        let mut without = entries_of(&r);
        without.retain(|(k, _)| k != name);
        assert_eq!(
            read_line(Some(&Json::Object(without))),
            LogLine::Unreadable,
            "{name} left out"
        );
        let mut twice = entries_of(&r);
        let again = entries_of(&r).into_iter().find(|(k, _)| k == name).unwrap();
        twice.push(again);
        assert_eq!(
            read_line(Some(&Json::Object(twice))),
            LogLine::Unreadable,
            "{name} twice"
        );
    }
    let mut wide = entries_of(&r);
    for (k, v) in wide.iter_mut() {
        if k == "revision" {
            *v = Json::Uint(u32::MAX as u64 + 1);
        }
    }
    assert_eq!(read_line(Some(&Json::Object(wide))), LogLine::Unreadable);
}

#[test]
fn a_record_that_cannot_be_read_commits_nothing_and_says_so() {
    let unread = Err(Error::other("permission denied".to_string()));
    let refused = committed_in(&unread, NOW).expect_err("unreadable");
    assert_eq!(refused, CommitmentsUnreadable("permission denied".to_string()));
    assert_eq!(
        committed_coins(&unread, NOW).expect_err("the wallet cannot act").to_text(),
        "the operator wallet could not act: the spend audit record is unreadable (permission \
         denied), so which coins are already committed to an in-flight bundle is unknown; no coin \
         is selected"
    );
    let (mut journal, mut ids) = journal();
    let _spend = submit_funded(&mut journal, &mut ids, "44");
    let lost = Ok(with_unreadable(journal.log(), 2));
    assert_eq!(
        committed_in(&lost, NOW),
        Err(CommitmentsUnreadable("2 entries could not be parsed".to_string()))
    );
    let whole = Ok(with_unreadable(journal.log(), 0));
    assert_eq!(committed_coins(&whole, NOW).expect("readable").len(), 1);
}

#[test]
fn a_spend_that_was_submitted_and_dropped_is_one_unresolved_row_with_its_coins() {
    let (mut journal, mut ids) = journal();
    let spend = submit_funded(&mut journal, &mut ids, "44");
    let id = spend.id().to_string();
    journal.close(spend);
    let ledger = journal.log().ledger();
    assert_eq!(ledger.records.len(), 1);
    assert_eq!(ledger.records[0].id, id);
    assert_eq!(ledger.records[0].revision, 3);
    assert_eq!(ledger.records[0].status.token(), "unresolved");
    assert_eq!(ledger.records[0].funding_coin_ids.len(), 1);
}

#[test]
fn the_record_is_named_as_the_system_names_paths() {
    assert_eq!(SpendLog::in_state_dir(Os::Windows, r"C:\DIG").path(), r"C:\DIG\spend-audit.jsonl");
    assert_eq!(SpendLog::in_state_dir(Os::Linux, "").path(), "spend-audit.jsonl");
}
