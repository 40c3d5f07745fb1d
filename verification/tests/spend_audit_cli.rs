use dig_node_service::error::Error;
use dig_node_service::json::Json;
use dig_node_service::outcome::{ExitCode, Outcome};
use dig_node_service::spend_audit::{
    kinds, Asset, Authority, ChainInventory, Clock, FailureStage, IdSource, LogLine, SpendIntent,
    SpendJournal, SpendKind, SpendLog, SpendQuery, SpendRecord, SpendStatus, Submission,
    TargetCoinId,
};
use dig_node_service::spend_audit_cli::{
    human_line, join_or_dash, run, run_against, NoChain, SpendRow, SpendsAction, SpendsResult,
    NO_CHAIN_SOURCE,
};
use dig_node_service::state::Os;

const NOW: u64 = 1_767_225_600_000;

fn empty_log() -> SpendLog {
    SpendLog::in_state_dir(Os::Linux, "/var/lib/dig-node")
}

fn intent(kind: &str, store: Option<&str>) -> SpendIntent {
    SpendIntent {
        kind: SpendKind::new(kind),
        purpose: "keep the store advertised".to_string(),
        authority: Authority {
            principal: "node".to_string(),
            grant: "settings.autoMirror".to_string(),
        },
        asset: Asset::Xch,
        amount_mojos: 1_000,
        fee_mojos: 10,
        store_id: store.map(str::to_string),
        bond: None,
    }
}

/// A record holding one confirmed mirror-coin spend and one failed one.
fn seeded() -> SpendJournal {
    let mut ids = IdSource::new(7);
    let mut journal = SpendJournal::with_clock(empty_log(), Clock::Fixed(NOW));
    let mut ok = journal.begin(&mut ids, intent(kinds::MIRROR_COIN, Some("store-a")));
    journal.submitted(
        &mut ok,
        Submission {
            intended_coin_id: Some(TargetCoinId("coin-ok".to_string())),
            funding_coin_ids: vec![],
        },
    );
    journal.confirmed(&mut ok, TargetCoinId("coin-ok".to_string()), 9_000_001);
    journal.close(ok);
    let mut bad = journal.begin(&mut ids, intent(kinds::MIRROR_COIN, Some("store-b")));
    journal.failed(&mut bad, FailureStage::Signing, "insufficient funds");
    journal.close(bad);
    journal
}

fn list(log: &SpendLog, query: SpendQuery) -> Outcome<SpendsResult> {
    run_against::<NoChain>(log, SpendsAction::List(query), None).expect("list")
}

fn spends(o: &Outcome<SpendsResult>) -> &Vec<SpendRow> {
    match &o.result {
        SpendsResult::List { spends, .. } => spends,
        other => panic!("not a list: {other:?}"),
    }
}

fn count(o: &Outcome<SpendsResult>) -> usize {
    match &o.result {
        SpendsResult::List { count, .. } => *count,
        other => panic!("not a list: {other:?}"),
    }
}

#[test]
fn the_default_listing_shows_failures_beside_successes() {
    let journal = seeded();
    let out = list(journal.log(), SpendQuery::default());
    assert_eq!(count(&out), 2);
    let tokens: Vec<&str> = spends(&out)
        .iter()
        .map(|s| s.status_token.as_str())
        .collect();
    assert!(tokens.contains(&"failed"), "got {tokens:?}");
    assert!(tokens.contains(&"confirmed"), "got {tokens:?}");
    assert!(out.summary.contains("insufficient funds"));
}

#[test]
fn the_status_filter_narrows_the_listing() {
    let journal = seeded();
    let out = list(
        journal.log(),
        SpendQuery {
            status: Some("failed".to_string()),
            ..Default::default()
        },
    );
    assert_eq!(count(&out), 1);
    assert_eq!(spends(&out)[0].status_token, "failed");
}

#[test]
fn the_store_filter_narrows_the_listing() {
    let journal = seeded();
    let out = list(
        journal.log(),
        SpendQuery {
            store_id: Some("store-b".to_string()),
            ..Default::default()
        },
    );
    assert_eq!(count(&out), 1);
    assert_eq!(spends(&out)[0].record.store_id.as_deref(), Some("store-b"));
}

#[test]
fn an_expected_coin_is_marked_differently_from_a_confirmed_one() {
    let mut ids = IdSource::new(7);
    let mut journal = SpendJournal::with_clock(empty_log(), Clock::Fixed(NOW));
    let mut pending = journal.begin(&mut ids, intent(kinds::MIRROR_COIN, Some("s1")));
    journal.submitted(
        &mut pending,
        Submission {
            intended_coin_id: Some(TargetCoinId("coin-expected".to_string())),
            funding_coin_ids: vec![],
        },
    );
    journal.unresolved(&mut pending, "timed out");
    journal.close(pending);
    let mut done = journal.begin(&mut ids, intent(kinds::MIRROR_COIN, Some("s2")));
    journal.confirmed(&mut done, TargetCoinId("coin-real".to_string()), 12);
    journal.close(done);

    let out = list(journal.log(), SpendQuery::default());
    assert!(
        out.summary.contains("~coin-expected (expected)"),
        "an unobserved coin must be marked as expected: {}",
        out.summary
    );
    assert!(
        out.summary.contains("#coin-real"),
        "a confirmed coin is marked as on chain: {}",
        out.summary
    );
    let refs: Vec<bool> = spends(&out)
        .iter()
        .map(|s| s.chain_reference.as_ref().expect("flag").confirmed)
        .collect();
    assert!(refs.contains(&true) && refs.contains(&false), "{refs:?}");
}

#[test]
fn an_incomplete_record_is_reported_as_incomplete() {
    let journal = seeded();
    let mut lines: Vec<LogLine> = vec![];
    for l in journal.log().lines() {
        lines.push(match l {
            LogLine::Record(r) => LogLine::Record(r.clone()),
            LogLine::Unreadable => LogLine::Unreadable,
        });
    }
    lines.push(LogLine::Unreadable);
    let log = SpendLog::with_lines("/var/lib/dig-node/spend-audit.jsonl", lines);
    let out = list(&log, SpendQuery::default());
    match &out.result {
        SpendsResult::List { unreadable_lines, .. } => assert_eq!(*unreadable_lines, 1),
        other => panic!("{other:?}"),
    }
    assert!(out.summary.contains("INCOMPLETE"), "{}", out.summary);
    assert!(out.summary.ends_with(
        "\nWARNING: 1 line(s) of /var/lib/dig-node/spend-audit.jsonl could not be read. This record is INCOMPLETE."
    ));
}

#[test]
fn an_empty_record_says_no_money_moved_unattended() {
    let out = list(&empty_log(), SpendQuery::default());
    assert_eq!(count(&out), 0);
    assert!(
        out.summary.contains("no money unattended"),
        "{}",
        out.summary
    );
}

#[test]
fn show_finds_an_entry_and_refuses_an_unknown_id() {
    let journal = seeded();
    let id = journal.log().ledger().records[0].id.clone();
    let out = run_against::<NoChain>(
        journal.log(),
        SpendsAction::Show { id: id.clone() },
        None,
    )
    .expect("show");
    match out.result {
        SpendsResult::Show { spend } => assert_eq!(spend.record.id, id),
        other => panic!("{other:?}"),
    }
    let err = run_against::<NoChain>(
        journal.log(),
        SpendsAction::Show {
            id: "sp_nope".to_string(),
        },
        None,
    )
    .expect_err("unknown id");
    assert_eq!(err.0, ExitCode::Usage);
    assert_eq!(
        err.1,
        "no automated spend with id sp_nope in /var/lib/dig-node/spend-audit.jsonl"
    );
}

struct FakeChain(Vec<String>);
impl ChainInventory for FakeChain {
    fn owned_coin_ids(&self, _owner: &str) -> Result<Vec<String>, String> {
        Ok(self.0.clone())
    }
}

fn owner() -> SpendsAction {
    SpendsAction::Reconcile {
        owner_puzzle_hash: "ph".to_string(),
    }
}

#[test]
fn reconcile_without_a_chain_source_refuses_rather_than_reporting_clean() {
    let journal = seeded();
    let err = run_against::<NoChain>(journal.log(), owner(), None).expect_err("no inventory");
    assert_eq!(err.0, ExitCode::NotServing);
    assert!(err.1.contains("cannot read the chain"), "{}", err.1);
    assert_eq!(err.1, NO_CHAIN_SOURCE);
}

#[test]
fn reconcile_reports_a_coin_the_record_does_not_account_for() {
    let journal = seeded();
    let chain = FakeChain(vec!["coin-ok".to_string(), "coin-orphan".to_string()]);
    let out = run_against(journal.log(), owner(), Some(&chain)).expect("reconcile");
    match &out.result {
        SpendsResult::Reconcile { clean, report } => {
            assert!(!*clean);
            assert_eq!(report.unrecorded_on_chain[0], "coin-orphan");
            assert_eq!(report.agreed[0], "coin-ok");
        }
        other => panic!("{other:?}"),
    }
    assert!(out.summary.contains("DISAGREEMENT"), "{}", out.summary);
    assert_eq!(
        out.summary,
        "DISAGREEMENT between the local record and the chain:\n  1 coin(s) on chain with NO audit entry: coin-orphan\n  0 confirmed entry/entries whose coin the chain does not show: -\n  0 entry/entries the node never resolved: -"
    );
}

#[test]
fn reconcile_reports_agreement_when_the_chain_matches() {
    let journal = seeded();
    let chain = FakeChain(vec!["coin-ok".to_string()]);
    let out = run_against(journal.log(), owner(), Some(&chain)).expect("reconcile");
    match &out.result {
        SpendsResult::Reconcile { clean, .. } => assert!(*clean),
        other => panic!("{other:?}"),
    }
    assert!(
        out.summary.contains("agrees with the chain"),
        "{}",
        out.summary
    );
}

#[test]
fn a_chain_that_cannot_answer_is_an_error() {
    let journal = seeded();
    let err = run_against(journal.log(), owner(), Some(&NoChain)).expect_err("no answer");
    assert_eq!(err.0, ExitCode::IoError);
    assert_eq!(err.1, "chain inventory failed: no chain source");
}

/// Each row carries what a program reads: the record, its status in a word, and the coin.
#[test]
fn the_json_listing_keys_are_stable() {
    let journal = seeded();
    let out = list(journal.log(), SpendQuery::default());
    let json = out.result.to_json();
    for key in ["path", "count", "unreadable_lines", "spends"] {
        assert!(json.get(key).is_some(), "missing {key}");
    }
    assert_eq!(json.get_str("path"), Some("/var/lib/dig-node/spend-audit.jsonl"));
    assert_eq!(json.get_u64("count"), Some(2));
    assert_eq!(json.get_u64("unreadable_lines"), Some(0));
    let Some(Json::List(spends)) = json.get("spends") else {
        panic!("no rows: {json:?}");
    };
    for key in ["id", "status", "status_token", "chain_reference", "authority"] {
        assert!(spends[0].get(key).is_some(), "missing spend.{key}");
    }
    let authority = spends[0].get("authority").expect("the authority");
    assert_eq!(authority.get_str("principal"), Some("node"));
}

#[test]
fn the_human_output_states_on_whose_authority_the_node_spent() {
    let journal = seeded();
    let out = list(journal.log(), SpendQuery::default());
    assert!(out.summary.contains("by node"), "{}", out.summary);
    assert!(
        out.summary.contains("settings.autoMirror"),
        "{}",
        out.summary
    );
}

#[test]
fn a_filter_matching_nothing_returns_nothing_rather_than_everything() {
    let journal = seeded();
    let out = list(
        journal.log(),
        SpendQuery {
            status: Some("submitted".to_string()),
            ..Default::default()
        },
    );
    assert_eq!(count(&out), 0);
}

#[test]
fn a_limit_keeps_the_newest_rows() {
    let mut ids = IdSource::new(7);
    let mut lines: Vec<LogLine> = vec![];
    for (i, store) in ["old", "new"].iter().enumerate() {
        let clock = Clock::Fixed(if i == 0 { NOW } else { NOW + 1_000 });
        let mut j = SpendJournal::with_clock(empty_log(), clock);
        let mut s = j.begin(&mut ids, intent(kinds::MIRROR_COIN, Some(store)));
        j.failed(&mut s, FailureStage::Signing, "x");
        j.close(s);
        for l in j.log().lines() {
            if let LogLine::Record(r) = l {
                lines.push(LogLine::Record(r.clone()));
            }
        }
    }
    let log = SpendLog::with_lines("/x", lines);
    let out = list(
        &log,
        SpendQuery {
            limit: Some(1),
            ..Default::default()
        },
    );
    assert_eq!(count(&out), 1);
    assert_eq!(
        spends(&out)[0].record.store_id.as_deref(),
        Some("new"),
        "the cap must keep the newest row"
    );
}

#[test]
fn show_marks_a_confirmed_coin_as_observed() {
    let journal = seeded();
    let ledger = journal.log().ledger();
    let confirmed = ledger
        .records
        .iter()
        .find(|r| matches!(r.status, SpendStatus::Confirmed { .. }))
        .expect("a confirmed row");
    let out = run_against::<NoChain>(
        journal.log(),
        SpendsAction::Show {
            id: confirmed.id.clone(),
        },
        None,
    )
    .expect("show");
    assert!(
        out.summary.contains("confirmed on chain"),
        "{}",
        out.summary
    );
}

fn record() -> SpendRecord {
    seeded().log().ledger().records.remove(0)
}

#[test]
fn a_row_is_written_with_every_field_in_its_place() {
    let mut rec = record();
    rec.id = "sp_1".to_string();
    rec.status = SpendStatus::Failed {
        stage: FailureStage::Signing,
        reason: "insufficient funds".to_string(),
    };
    rec.intended_coin_id = None;
    rec.kind = SpendKind::new("k");
    rec.store_id = Some("st".to_string());
    let stage = FailureStage::Signing.to_text();
    assert_eq!(
        human_line(&rec),
        format!("sp_1  failed      k  1000 XCH  fee 10  by node  store=st\n    keep the store advertised  [settings.autoMirror]\n    {stage} failed: insufficient funds")
    );
    let log = SpendLog::with_lines("/x", vec![LogLine::Record(rec)]);
    let out = run_against::<NoChain>(
        &log,
        SpendsAction::Show { id: "sp_1".to_string() },
        None,
    )
    .unwrap();
    assert_eq!(
        out.summary,
        format!("sp_1\n  status     failed\n  kind       k\n  purpose    keep the store advertised\n  amount     1000 XCH\n  fee        10 mojos\n  authority  node via settings.autoMirror\n  store      st\n  initiated  {NOW} ms\n  updated    {NOW} ms\n  funding    -\n  chain      -")
    );
}

#[test]
fn a_record_that_could_not_be_read_is_an_error_and_so_is_an_unknown_cursor() {
    let err = run(
        Err(Error::other("denied".to_string())),
        SpendsAction::List(SpendQuery::default()),
    )
    .unwrap_err();
    assert_eq!(err.0, ExitCode::IoError);
    assert_eq!(err.1, "cannot read the audit record: denied");
    let err = run(
        Ok(empty_log()),
        SpendsAction::List(SpendQuery {
            after_id: Some("sp_x".to_string()),
            ..Default::default()
        }),
    )
    .unwrap_err();
    assert_eq!(err.0, ExitCode::IoError);
    assert!(err.1.contains("unknown cursor \"sp_x\""));
    assert!(run(Ok(empty_log()), owner()).is_err());
    assert_eq!(join_or_dash(&vec!["a".to_string(), "b".to_string()]), "a, b");
}
