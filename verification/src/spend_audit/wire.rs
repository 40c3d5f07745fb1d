//! A record as JSON: the shape that is written to the file and handed to controllers, and what is read
//! back from it.
use crate::json::{
    entry, entry_models, item_models, lemma_model_of_list, lemma_model_of_object, list, model, named,
    object, optional, text_or_null, whole, words, Json, JsonModel,
};
use crate::spend_audit::{
    bond_view, funding_views, target_view, Asset, AssetModel, AuditedBond, Authority, FailureStage,
    FundingCoinId, RecordModel, SpendKind, SpendRecord, SpendStatus, StatusModel, TargetCoinId,
};
use crate::spend_audit::ledger::{LineModel, LogLine};
use crate::text;
use vstd::prelude::*;

verus! {

// ---- writing -----------------------------------------------------------------------------------

/// An asset: its name, and for a token its id.
pub open spec fn asset_json(a: AssetModel) -> JsonModel {
    JsonModel::Object(
        match a {
            AssetModel::Xch => seq![named("asset"@, JsonModel::Text("xch"@))],
            AssetModel::Dig => seq![named("asset"@, JsonModel::Text("dig"@))],
            AssetModel::Cat(id) => seq![
                named("asset"@, JsonModel::Text("cat"@)),
                named("asset_id"@, JsonModel::Text(id)),
            ],
        },
    )
}

/// A status: its token, and what it carries.
pub open spec fn status_json(s: StatusModel) -> JsonModel {
    JsonModel::Object(
        match s {
            StatusModel::Pending => seq![named("state"@, JsonModel::Text("pending"@))],
            StatusModel::Submitted => seq![named("state"@, JsonModel::Text("submitted"@))],
            StatusModel::Confirmed(height, coin_id) => seq![
                named("state"@, JsonModel::Text("confirmed"@)),
                named("height"@, JsonModel::Number(height as int)),
                named("coin_id"@, JsonModel::Text(coin_id)),
            ],
            StatusModel::Failed(stage, reason) => seq![
                named("state"@, JsonModel::Text("failed"@)),
                named("stage"@, JsonModel::Text(stage.name())),
                named("reason"@, JsonModel::Text(reason)),
            ],
            StatusModel::Unresolved(reason) => seq![
                named("state"@, JsonModel::Text("unresolved"@)),
                named("reason"@, JsonModel::Text(reason)),
            ],
        },
    )
}

/// An authority: who, and by which grant.
pub open spec fn authority_json(principal: Seq<char>, grant: Seq<char>) -> JsonModel {
    JsonModel::Object(
        seq![
            named("principal"@, JsonModel::Text(principal)),
            named("grant"@, JsonModel::Text(grant)),
        ],
    )
}

/// A bond, or nothing.
pub open spec fn bond_json(b: Option<(Seq<char>, i64)>) -> JsonModel {
    match b {
        Some(t) => JsonModel::Object(
            seq![
                named("root"@, JsonModel::Text(t.0)),
                named("epoch"@, JsonModel::Number(t.1 as int)),
            ],
        ),
        None => JsonModel::Null,
    }
}

/// The coins of a record.
pub open spec fn coins_json(ids: Seq<Seq<char>>) -> JsonModel {
    JsonModel::List(Seq::new(ids.len(), |i: int| JsonModel::Text(ids[i])))
}

/// The entries of a record, under their published names.
pub open spec fn record_entries(r: RecordModel) -> Seq<(Seq<char>, JsonModel)> {
    seq![
        named("id"@, JsonModel::Text(r.id)),
        named("revision"@, JsonModel::Number(r.revision as int)),
        named("kind"@, JsonModel::Text(r.kind)),
        named("purpose"@, JsonModel::Text(r.purpose)),
        named("authority"@, authority_json(r.principal, r.grant)),
        named("asset"@, asset_json(r.asset)),
        named("amount_mojos"@, JsonModel::Number(r.amount_mojos as int)),
        named("fee_mojos"@, JsonModel::Number(r.fee_mojos as int)),
        named("store_id"@, text_or_null(r.store_id)),
        named("bond"@, bond_json(r.bond)),
        named("initiated_ms"@, JsonModel::Number(r.initiated_ms as int)),
        named("updated_ms"@, JsonModel::Number(r.updated_ms as int)),
        named("status"@, status_json(r.status)),
        named("funding_coin_ids"@, coins_json(r.funding)),
        named("intended_coin_id"@, text_or_null(r.intended)),
    ]
}

/// A record as JSON.
pub open spec fn record_json(r: RecordModel) -> JsonModel {
    JsonModel::Object(record_entries(r))
}

fn asset_value(a: &Asset) -> (r: Json)
    ensures
        model(r) == asset_json(a@),
{
    let mut v: Vec<(String, Json)> = Vec::new();
    match a {
        Asset::Xch => {
            v.push(entry("asset", words("xch")));
        },
        Asset::Dig => {
            v.push(entry("asset", words("dig")));
        },
        Asset::Cat { asset_id } => {
            v.push(entry("asset", words("cat")));
            v.push(entry("asset_id", words(asset_id.as_str())));
        },
    }
    proof {
        assert(entry_models(v@) =~= asset_json(a@)->Object_0);
    }
    object(v)
}

fn status_value(s: &SpendStatus) -> (r: Json)
    ensures
        model(r) == status_json(s@),
{
    let mut v: Vec<(String, Json)> = Vec::new();
    v.push(entry("state", words(s.token())));
    match s {
        SpendStatus::Pending => {},
        SpendStatus::Submitted => {},
        SpendStatus::Confirmed { height, coin_id } => {
            v.push(entry("height", Json::Uint(*height as u64)));
            v.push(entry("coin_id", words(coin_id.0.as_str())));
        },
        SpendStatus::Failed { stage, reason } => {
            v.push(entry("stage", words(stage.to_text())));
            v.push(entry("reason", words(reason.as_str())));
        },
        SpendStatus::Unresolved { reason } => {
            v.push(entry("reason", words(reason.as_str())));
        },
    }
    proof {
        assert(entry_models(v@) =~= status_json(s@)->Object_0);
    }
    object(v)
}

fn authority_value(a: &Authority) -> (r: Json)
    ensures
        model(r) == authority_json(a.principal@, a.grant@),
{
    let mut v: Vec<(String, Json)> = Vec::new();
    v.push(entry("principal", words(a.principal.as_str())));
    v.push(entry("grant", words(a.grant.as_str())));
    proof {
        assert(entry_models(v@) =~= authority_json(a.principal@, a.grant@)->Object_0);
    }
    object(v)
}

fn bond_value(b: &Option<AuditedBond>) -> (r: Json)
    ensures
        model(r) == bond_json(bond_view(*b)),
{
    match b {
        Some(t) => {
            let mut v: Vec<(String, Json)> = Vec::new();
            v.push(entry("root", words(t.root.as_str())));
            v.push(entry("epoch", whole(t.epoch)));
            proof {
                assert(entry_models(v@) =~= bond_json(bond_view(*b))->Object_0);
            }
            object(v)
        },
        None => Json::Null,
    }
}

fn coins_value(ids: &Vec<FundingCoinId>) -> (r: Json)
    ensures
        model(r) == coins_json(funding_views(ids@)),
{
    let mut v: Vec<Json> = Vec::new();
    let mut i: usize = 0;
    while i < ids.len()
        invariant
            i <= ids@.len(),
            v@.len() == i,
            forall|j: int| 0 <= j < i ==> model(#[trigger] v@[j]) == JsonModel::Text(ids@[j].0@),
        decreases ids@.len() - i,
    {
        v.push(words(ids[i].0.as_str()));
        i += 1;
    }
    proof {
        assert(item_models(v@) =~= coins_json(funding_views(ids@))->List_0);
    }
    list(v)
}

fn intended_value(c: &Option<TargetCoinId>) -> (r: Json)
    ensures
        model(r) == text_or_null(target_view(*c)),
{
    match c {
        Some(t) => words(t.0.as_str()),
        None => Json::Null,
    }
}

/// The entries of a record, under their published names.
pub fn record_fields(rec: &SpendRecord) -> (v: Vec<(String, Json)>)
    ensures
        entry_models(v@) == record_entries(rec@),
{
    let mut v: Vec<(String, Json)> = Vec::new();
    v.push(entry("id", words(rec.id.as_str())));
    v.push(entry("revision", Json::Uint(rec.revision as u64)));
    v.push(entry("kind", words(rec.kind.as_str())));
    v.push(entry("purpose", words(rec.purpose.as_str())));
    v.push(entry("authority", authority_value(&rec.authority)));
    v.push(entry("asset", asset_value(&rec.asset)));
    v.push(entry("amount_mojos", Json::Uint(rec.amount_mojos)));
    v.push(entry("fee_mojos", Json::Uint(rec.fee_mojos)));
    v.push(entry("store_id", optional(&rec.store_id)));
    v.push(entry("bond", bond_value(&rec.bond)));
    v.push(entry("initiated_ms", Json::Uint(rec.initiated_ms)));
    v.push(entry("updated_ms", Json::Uint(rec.updated_ms)));
    v.push(entry("status", status_value(&rec.status)));
    v.push(entry("funding_coin_ids", coins_value(&rec.funding_coin_ids)));
    v.push(entry("intended_coin_id", intended_value(&rec.intended_coin_id)));
    proof {
        assert(entry_models(v@) =~= record_entries(rec@));
    }
    v
}

/// A record as JSON, under its published names.
pub fn record_to_json(rec: &SpendRecord) -> (r: Json)
    ensures
        model(r) == record_json(rec@),
{
    object(record_fields(rec))
}

// ---- reading -----------------------------------------------------------------------------------

/// What an object holds under a name.
pub enum Held {
    Nothing,
    Once(JsonModel),
    MoreThanOnce,
}

/// What an object holds under a name.
pub open spec fn held(entries: Seq<(Seq<char>, JsonModel)>, name: Seq<char>) -> Held
    decreases entries.len(),
{
    if entries.len() == 0 {
        Held::Nothing
    } else {
        let before = held(entries.drop_last(), name);
        if entries.last().0 != name {
            before
        } else if before is Nothing {
            Held::Once(entries.last().1)
        } else {
            Held::MoreThanOnce
        }
    }
}

/// The text under a name, where there is one.
pub open spec fn held_text(entries: Seq<(Seq<char>, JsonModel)>, name: Seq<char>) -> Option<Seq<char>> {
    match held(entries, name) {
        Held::Once(JsonModel::Text(t)) => Some(t),
        _ => None,
    }
}

/// The whole number under a name, where there is one between the bounds.
pub open spec fn held_number(
    entries: Seq<(Seq<char>, JsonModel)>,
    name: Seq<char>,
    low: int,
    high: int,
) -> Option<int> {
    match held(entries, name) {
        Held::Once(JsonModel::Number(n)) => if low <= n <= high {
            Some(n)
        } else {
            None
        },
        _ => None,
    }
}

/// The text under a name where one may be left out: what is left out or null is none, and anything else
/// is a mistake.
pub open spec fn held_optional(entries: Seq<(Seq<char>, JsonModel)>, name: Seq<char>) -> Option<
    Option<Seq<char>>,
> {
    match held(entries, name) {
        Held::Nothing => Some(None),
        Held::Once(JsonModel::Null) => Some(None),
        Held::Once(JsonModel::Text(t)) => Some(Some(t)),
        _ => None,
    }
}

/// The object under a name, where there is one.
pub open spec fn held_object(entries: Seq<(Seq<char>, JsonModel)>, name: Seq<char>) -> Option<
    Seq<(Seq<char>, JsonModel)>,
> {
    match held(entries, name) {
        Held::Once(JsonModel::Object(e)) => Some(e),
        _ => None,
    }
}

/// The asset an object stands for.
pub open spec fn read_asset(e: Seq<(Seq<char>, JsonModel)>) -> Option<AssetModel> {
    match held_text(e, "asset"@) {
        Some(t) => if t == "xch"@ {
            Some(AssetModel::Xch)
        } else if t == "dig"@ {
            Some(AssetModel::Dig)
        } else if t == "cat"@ {
            match held_text(e, "asset_id"@) {
                Some(id) => Some(AssetModel::Cat(id)),
                None => None,
            }
        } else {
            None
        },
        None => None,
    }
}

/// The stage a name stands for.
pub open spec fn read_stage(t: Seq<char>) -> Option<FailureStage> {
    if t == "signing"@ {
        Some(FailureStage::Signing)
    } else if t == "broadcast"@ {
        Some(FailureStage::Broadcast)
    } else if t == "confirmation"@ {
        Some(FailureStage::Confirmation)
    } else {
        None
    }
}

/// The confirmation an object stands for.
pub open spec fn read_confirmed(e: Seq<(Seq<char>, JsonModel)>) -> Option<StatusModel> {
    match (held_number(e, "height"@, 0, u32::MAX as int), held_text(e, "coin_id"@)) {
        (Some(h), Some(c)) => Some(StatusModel::Confirmed(h as u32, c)),
        _ => None,
    }
}

/// The failure an object stands for.
pub open spec fn read_failed(e: Seq<(Seq<char>, JsonModel)>) -> Option<StatusModel> {
    match (held_text(e, "stage"@), held_text(e, "reason"@)) {
        (Some(t), Some(reason)) => match read_stage(t) {
            Some(stage) => Some(StatusModel::Failed(stage, reason)),
            None => None,
        },
        _ => None,
    }
}

/// The status an object stands for.
pub open spec fn read_status(e: Seq<(Seq<char>, JsonModel)>) -> Option<StatusModel> {
    match held_text(e, "state"@) {
        Some(t) => if t == "pending"@ {
            Some(StatusModel::Pending)
        } else if t == "submitted"@ {
            Some(StatusModel::Submitted)
        } else if t == "confirmed"@ {
            read_confirmed(e)
        } else if t == "failed"@ {
            read_failed(e)
        } else if t == "unresolved"@ {
            match held_text(e, "reason"@) {
                Some(reason) => Some(StatusModel::Unresolved(reason)),
                None => None,
            }
        } else {
            None
        },
        None => None,
    }
}

/// The bond under a name where one may be left out.
pub open spec fn read_bond(h: Held) -> Option<Option<(Seq<char>, i64)>> {
    match h {
        Held::Nothing => Some(None),
        Held::Once(JsonModel::Null) => Some(None),
        Held::Once(JsonModel::Object(e)) => match (
            held_text(e, "root"@),
            held_number(e, "epoch"@, i64::MIN as int, i64::MAX as int),
        ) {
            (Some(root), Some(epoch)) => Some(Some((root, epoch as i64))),
            _ => None,
        },
        _ => None,
    }
}

/// Whether each item is a text.
pub open spec fn all_texts(items: Seq<JsonModel>) -> bool {
    forall|i: int| 0 <= i < items.len() ==> (#[trigger] items[i]) is Text
}

/// The coins under a name.
pub open spec fn read_coins(h: Held) -> Option<Seq<Seq<char>>> {
    match h {
        Held::Once(JsonModel::List(items)) => if all_texts(items) {
            Some(Seq::new(items.len(), |i: int| items[i]->Text_0))
        } else {
            None
        },
        _ => None,
    }
}

/// The authority under a name.
pub open spec fn read_authority(e: Seq<(Seq<char>, JsonModel)>) -> Option<(Seq<char>, Seq<char>)> {
    match (held_text(e, "principal"@), held_text(e, "grant"@)) {
        (Some(p), Some(g)) => Some((p, g)),
        _ => None,
    }
}

/// What must be there for entries to be a record, apart from the numbers.
pub open spec fn has_parts(e: Seq<(Seq<char>, JsonModel)>) -> bool {
    &&& held_text(e, "id"@) is Some
    &&& held_text(e, "kind"@) is Some
    &&& held_text(e, "purpose"@) is Some
    &&& held_object(e, "authority"@) is Some
    &&& read_authority(held_object(e, "authority"@)->0) is Some
    &&& held_object(e, "asset"@) is Some
    &&& read_asset(held_object(e, "asset"@)->0) is Some
    &&& held_optional(e, "store_id"@) is Some
    &&& read_bond(held(e, "bond"@)) is Some
    &&& held_object(e, "status"@) is Some
    &&& read_status(held_object(e, "status"@)->0) is Some
    &&& read_coins(held(e, "funding_coin_ids"@)) is Some
    &&& held_optional(e, "intended_coin_id"@) is Some
}

/// The numbers that must be there for entries to be a record.
pub open spec fn has_numbers(e: Seq<(Seq<char>, JsonModel)>) -> bool {
    &&& held_number(e, "revision"@, 0, u32::MAX as int) is Some
    &&& held_number(e, "amount_mojos"@, 0, u64::MAX as int) is Some
    &&& held_number(e, "fee_mojos"@, 0, u64::MAX as int) is Some
    &&& held_number(e, "initiated_ms"@, 0, u64::MAX as int) is Some
    &&& held_number(e, "updated_ms"@, 0, u64::MAX as int) is Some
}

/// The record that entries stand for, where they stand for one. Names that a record does not have are
/// passed over; a name that it has must not be there twice; a coin, a store or a bond may be left out.
pub open spec fn read_entries(e: Seq<(Seq<char>, JsonModel)>) -> Option<RecordModel> {
    if has_parts(e) && has_numbers(e) {
        Some(
            RecordModel {
                id: held_text(e, "id"@)->0,
                revision: held_number(e, "revision"@, 0, u32::MAX as int)->0 as u32,
                kind: held_text(e, "kind"@)->0,
                purpose: held_text(e, "purpose"@)->0,
                principal: (read_authority(held_object(e, "authority"@)->0)->0).0,
                grant: (read_authority(held_object(e, "authority"@)->0)->0).1,
                asset: read_asset(held_object(e, "asset"@)->0)->0,
                amount_mojos: held_number(e, "amount_mojos"@, 0, u64::MAX as int)->0 as u64,
                fee_mojos: held_number(e, "fee_mojos"@, 0, u64::MAX as int)->0 as u64,
                store_id: held_optional(e, "store_id"@)->0,
                bond: read_bond(held(e, "bond"@))->0,
                initiated_ms: held_number(e, "initiated_ms"@, 0, u64::MAX as int)->0 as u64,
                updated_ms: held_number(e, "updated_ms"@, 0, u64::MAX as int)->0 as u64,
                status: read_status(held_object(e, "status"@)->0)->0,
                funding: read_coins(held(e, "funding_coin_ids"@))->0,
                intended: held_optional(e, "intended_coin_id"@)->0,
            },
        )
    } else {
        None
    }
}

/// The record that a JSON value stands for, where it stands for one.
pub open spec fn read_record(m: JsonModel) -> Option<RecordModel> {
    match m {
        JsonModel::Object(e) => read_entries(e),
        _ => None,
    }
}

/// What an object holds under a name, in the object itself.
enum HeldRef<'a> {
    Nothing,
    Once(&'a Json),
    MoreThanOnce,
}

impl<'a> HeldRef<'a> {
    spec fn is(self, h: Held) -> bool {
        match self {
            HeldRef::Nothing => h is Nothing,
            HeldRef::Once(j) => h == Held::Once(model(*j)),
            HeldRef::MoreThanOnce => h is MoreThanOnce,
        }
    }
}

fn find<'a>(entries: &'a Vec<(String, Json)>, name: &str) -> (r: HeldRef<'a>)
    ensures
        r.is(held(entry_models(entries@), name@)),
{
    let ghost all = entry_models(entries@);
    let mut found: HeldRef<'a> = HeldRef::Nothing;
    let mut i: usize = 0;
    while i < entries.len()
        invariant
            i <= entries@.len(),
            all == entry_models(entries@),
            found.is(held(all.take(i as int), name@)),
        decreases entries@.len() - i,
    {
        proof {
            assert(all.take(i + 1).drop_last() =~= all.take(i as int));
            assert(all.take(i + 1).last() == all[i as int]);
        }
        if text::same(entries[i].0.as_str(), name) {
            found = match found {
                HeldRef::Nothing => HeldRef::Once(&entries[i].1),
                _ => HeldRef::MoreThanOnce,
            };
        }
        i += 1;
    }
    proof {
        assert(all.take(all.len() as int) =~= all);
    }
    found
}

fn find_text(entries: &Vec<(String, Json)>, name: &str) -> (r: Option<String>)
    ensures
        text::opt_view(r) == held_text(entry_models(entries@), name@),
{
    match find(entries, name) {
        HeldRef::Once(Json::Text(t)) => Some(t.clone()),
        HeldRef::Once(j) => {
            proof {
                assert(!(model(*j) is Text));
            }
            None
        },
        _ => None,
    }
}

fn number_in(j: &Json) -> (r: Option<i128>)
    ensures
        match r {
            Some(n) => model(*j) == JsonModel::Number(n as int),
            None => !(model(*j) is Number),
        },
{
    match j {
        Json::Uint(n) => Some(*n as i128),
        Json::Int(n) => Some(*n as i128),
        _ => None,
    }
}

fn find_number(entries: &Vec<(String, Json)>, name: &str, low: i128, high: i128) -> (r: Option<i128>)
    ensures
        match r {
            Some(n) => held_number(entry_models(entries@), name@, low as int, high as int) == Some(
                n as int,
            ),
            None => held_number(
                entry_models(entries@),
                name@,
                low as int,
                high as int,
            ) is None,
        },
{
    match find(entries, name) {
        HeldRef::Once(j) => match number_in(j) {
            Some(n) => {
                if low <= n && n <= high {
                    Some(n)
                } else {
                    None
                }
            },
            None => None,
        },
        _ => None,
    }
}

fn find_u64(entries: &Vec<(String, Json)>, name: &str) -> (r: Option<u64>)
    ensures
        match r {
            Some(n) => held_number(entry_models(entries@), name@, 0, u64::MAX as int) == Some(
                n as int,
            ),
            None => held_number(entry_models(entries@), name@, 0, u64::MAX as int) is None,
        },
{
    match find_number(entries, name, 0, u64::MAX as i128) {
        Some(n) => Some(n as u64),
        None => None,
    }
}

fn find_u32(entries: &Vec<(String, Json)>, name: &str) -> (r: Option<u32>)
    ensures
        match r {
            Some(n) => held_number(entry_models(entries@), name@, 0, u32::MAX as int) == Some(
                n as int,
            ),
            None => held_number(entry_models(entries@), name@, 0, u32::MAX as int) is None,
        },
{
    match find_number(entries, name, 0, u32::MAX as i128) {
        Some(n) => Some(n as u32),
        None => None,
    }
}

/// The view of a text that may be left out.
spec fn nested_view(s: Option<Option<String>>) -> Option<Option<Seq<char>>> {
    match s {
        Some(o) => Some(text::opt_view(o)),
        None => None,
    }
}

fn find_optional(entries: &Vec<(String, Json)>, name: &str) -> (r: Option<Option<String>>)
    ensures
        nested_view(r) == held_optional(entry_models(entries@), name@),
{
    match find(entries, name) {
        HeldRef::Nothing => Some(None),
        HeldRef::Once(j) => match j {
            Json::Null => Some(None),
            Json::Text(t) => Some(Some(t.clone())),
            _ => None,
        },
        HeldRef::MoreThanOnce => None,
    }
}

fn find_object<'a>(entries: &'a Vec<(String, Json)>, name: &str) -> (r: Option<&'a Vec<(String, Json)>>)
    ensures
        match r {
            Some(e) => held_object(entry_models(entries@), name@) == Some(entry_models(e@)),
            None => held_object(entry_models(entries@), name@) is None,
        },
{
    match find(entries, name) {
        HeldRef::Once(Json::Object(e)) => {
            proof {
                lemma_model_of_object(*e);
            }
            Some(e)
        },
        HeldRef::Once(j) => {
            proof {
                assert(!(model(*j) is Object));
            }
            None
        },
        _ => None,
    }
}

fn asset_from(e: &Vec<(String, Json)>) -> (r: Option<Asset>)
    ensures
        match r {
            Some(a) => read_asset(entry_models(e@)) == Some(a@),
            None => read_asset(entry_models(e@)) is None,
        },
{
    match find_text(e, "asset") {
        None => None,
        Some(t) => {
            if text::same(t.as_str(), "xch") {
                Some(Asset::Xch)
            } else if text::same(t.as_str(), "dig") {
                Some(Asset::Dig)
            } else if text::same(t.as_str(), "cat") {
                match find_text(e, "asset_id") {
                    Some(asset_id) => Some(Asset::Cat { asset_id }),
                    None => None,
                }
            } else {
                None
            }
        },
    }
}

fn stage_from(t: &str) -> (r: Option<FailureStage>)
    ensures
        r == read_stage(t@),
{
    if text::same(t, "signing") {
        Some(FailureStage::Signing)
    } else if text::same(t, "broadcast") {
        Some(FailureStage::Broadcast)
    } else if text::same(t, "confirmation") {
        Some(FailureStage::Confirmation)
    } else {
        None
    }
}

fn confirmed_from(e: &Vec<(String, Json)>) -> (r: Option<SpendStatus>)
    ensures
        match r {
            Some(s) => read_confirmed(entry_models(e@)) == Some(s@),
            None => read_confirmed(entry_models(e@)) is None,
        },
{
    let height = find_u32(e, "height");
    let coin = find_text(e, "coin_id");
    match (height, coin) {
        (Some(height), Some(c)) => Some(
            SpendStatus::Confirmed { height, coin_id: TargetCoinId(c) },
        ),
        _ => None,
    }
}

fn failed_from(e: &Vec<(String, Json)>) -> (r: Option<SpendStatus>)
    ensures
        match r {
            Some(s) => read_failed(entry_models(e@)) == Some(s@),
            None => read_failed(entry_models(e@)) is None,
        },
{
    let named_stage = find_text(e, "stage");
    let said = find_text(e, "reason");
    match (named_stage, said) {
        (Some(t), Some(reason)) => match stage_from(t.as_str()) {
            Some(stage) => Some(SpendStatus::Failed { stage, reason }),
            None => None,
        },
        _ => None,
    }
}

fn status_from(e: &Vec<(String, Json)>) -> (r: Option<SpendStatus>)
    ensures
        match r {
            Some(s) => read_status(entry_models(e@)) == Some(s@),
            None => read_status(entry_models(e@)) is None,
        },
{
    match find_text(e, "state") {
        None => None,
        Some(t) => {
            let t = t.as_str();
            if text::same(t, "pending") {
                Some(SpendStatus::Pending)
            } else if text::same(t, "submitted") {
                Some(SpendStatus::Submitted)
            } else if text::same(t, "confirmed") {
                confirmed_from(e)
            } else if text::same(t, "failed") {
                failed_from(e)
            } else if text::same(t, "unresolved") {
                match find_text(e, "reason") {
                    Some(reason) => Some(SpendStatus::Unresolved { reason }),
                    None => None,
                }
            } else {
                None
            }
        },
    }
}

/// The view of a bond that may be left out.
spec fn nested_bond(b: Option<Option<AuditedBond>>) -> Option<Option<(Seq<char>, i64)>> {
    match b {
        Some(o) => Some(bond_view(o)),
        None => None,
    }
}

fn bond_from(entries: &Vec<(String, Json)>) -> (r: Option<Option<AuditedBond>>)
    ensures
        nested_bond(r) == read_bond(held(entry_models(entries@), "bond"@)),
{
    match find(entries, "bond") {
        HeldRef::Nothing => Some(None),
        HeldRef::MoreThanOnce => None,
        HeldRef::Once(j) => match j {
            Json::Null => Some(None),
            Json::Object(e) => {
                proof {
                    lemma_model_of_object(*e);
                }
                let root = find_text(e, "root");
                let epoch = find_number(e, "epoch", i64::MIN as i128, i64::MAX as i128);
                match (root, epoch) {
                    (Some(root), Some(n)) => Some(Some(AuditedBond { root, epoch: n as i64 })),
                    _ => None,
                }
            },
            _ => None,
        },
    }
}

fn coins_from(entries: &Vec<(String, Json)>) -> (r: Option<Vec<FundingCoinId>>)
    ensures
        match r {
            Some(v) => read_coins(held(entry_models(entries@), "funding_coin_ids"@)) == Some(
                funding_views(v@),
            ),
            None => read_coins(held(entry_models(entries@), "funding_coin_ids"@)) is None,
        },
{
    match find(entries, "funding_coin_ids") {
        HeldRef::Once(Json::List(items)) => {
            proof {
                lemma_model_of_list(*items);
            }
            let ghost all = item_models(items@);
            let mut out: Vec<FundingCoinId> = Vec::new();
            let mut i: usize = 0;
            while i < items.len()
                invariant
                    i <= items@.len(),
                    all == item_models(items@),
                    held(entry_models(entries@), "funding_coin_ids"@) == Held::Once(
                        JsonModel::List(all),
                    ),
                    out@.len() == i,
                    forall|j: int|
                        0 <= j < i ==> (#[trigger] all[j]) == JsonModel::Text(out@[j].0@),
                decreases items@.len() - i,
            {
                match &items[i] {
                    Json::Text(t) => {
                        out.push(FundingCoinId(t.clone()));
                    },
                    other => {
                        proof {
                            assert(all[i as int] == model(*other));
                            assert(!(all[i as int] is Text));
                        }
                        return None;
                    },
                }
                i += 1;
            }
            proof {
                assert(all_texts(all));
                assert(Seq::new(all.len(), |k: int| all[k]->Text_0) =~= funding_views(out@));
            }
            Some(out)
        },
        HeldRef::Once(j) => {
            proof {
                assert(!(model(*j) is List));
            }
            None
        },
        _ => None,
    }
}

fn authority_from(entries: &Vec<(String, Json)>) -> (r: Option<Authority>)
    ensures
        ({
            let o = held_object(entry_models(entries@), "authority"@);
            match r {
                Some(a) => o is Some && read_authority(o->0) == Some((a.principal@, a.grant@)),
                None => o is None || read_authority(o->0) is None,
            }
        }),
{
    match find_object(entries, "authority") {
        None => None,
        Some(e) => {
            let principal = find_text(e, "principal");
            let grant = find_text(e, "grant");
            match (principal, grant) {
                (Some(principal), Some(grant)) => Some(Authority { principal, grant }),
                _ => None,
            }
        },
    }
}

fn target_of(c: Option<String>) -> (r: Option<TargetCoinId>)
    ensures
        target_view(r) == text::opt_view(c),
{
    match c {
        Some(t) => Some(TargetCoinId(t)),
        None => None,
    }
}

/// The record that a JSON value stands for, where it stands for one.
pub fn record_from_json(j: &Json) -> (r: Option<SpendRecord>)
    ensures
        match r {
            Some(rec) => read_record(model(*j)) == Some(rec@),
            None => read_record(model(*j)) is None,
        },
{
    let e = match j {
        Json::Object(e) => {
            proof {
                lemma_model_of_object(*e);
            }
            e
        },
        _ => {
            return None;
        },
    };
    let ghost m = entry_models(e@);
    let id = find_text(e, "id")?;
    let revision: u32 = find_u32(e, "revision")?;
    let kind = find_text(e, "kind")?;
    let purpose = find_text(e, "purpose")?;
    let authority = authority_from(e)?;
    let asset = asset_from(find_object(e, "asset")?)?;
    let amount_mojos: u64 = find_u64(e, "amount_mojos")?;
    let fee_mojos: u64 = find_u64(e, "fee_mojos")?;
    let store_id = find_optional(e, "store_id")?;
    let bond = bond_from(e)?;
    let initiated_ms: u64 = find_u64(e, "initiated_ms")?;
    let updated_ms: u64 = find_u64(e, "updated_ms")?;
    let status = status_from(find_object(e, "status")?)?;
    let funding_coin_ids = coins_from(e)?;
    let intended = find_optional(e, "intended_coin_id")?;
    let rec = SpendRecord {
        id,
        revision,
        kind: SpendKind::new(kind.as_str()),
        purpose,
        authority,
        asset,
        amount_mojos,
        fee_mojos,
        store_id,
        bond,
        initiated_ms,
        updated_ms,
        status,
        funding_coin_ids,
        intended_coin_id: target_of(intended),
    };
    proof {
        assert(has_parts(m));
        assert(has_numbers(m));
    }
    Some(rec)
}

/// What a line of the file is: the record it stands for, or text that could not be read as one. `parsed`
/// is the line as JSON, where it is that.
pub fn read_line(parsed: Option<&Json>) -> (r: LogLine)
    ensures
        r@ == (match parsed {
            Some(j) => match read_record(model(*j)) {
                Some(rec) => LineModel::Record(rec),
                None => LineModel::Unreadable,
            },
            None => LineModel::Unreadable,
        }),
{
    match parsed {
        Some(j) => match record_from_json(j) {
            Some(rec) => LogLine::Record(rec),
            None => LogLine::Unreadable,
        },
        None => LogLine::Unreadable,
    }
}

// ---- laws --------------------------------------------------------------------------------------

/// Under a name that stands at one place alone, an object holds what stands there.
proof fn lemma_held_at(entries: Seq<(Seq<char>, JsonModel)>, k: int)
    requires
        0 <= k < entries.len(),
        forall|i: int| 0 <= i < entries.len() && i != k ==> (#[trigger] entries[i]).0 != entries[k].0,
    ensures
        held(entries, entries[k].0) == Held::Once(entries[k].1),
    decreases entries.len(),
{
    let name = entries[k].0;
    let front = entries.drop_last();
    if k == entries.len() - 1 {
        assert forall|i: int| 0 <= i < front.len() implies (#[trigger] front[i]).0 != name by {
            assert(front[i] == entries[i]);
        }
        lemma_held_nothing(front, name);
    } else {
        assert(front[k] == entries[k]);
        assert forall|i: int| 0 <= i < front.len() && i != k implies (#[trigger] front[i]).0
            != front[k].0 by {
            assert(front[i] == entries[i]);
        }
        lemma_held_at(front, k);
        assert(entries.last().0 != name);
    }
}

/// Under a name that stands nowhere, an object holds nothing.
proof fn lemma_held_nothing(entries: Seq<(Seq<char>, JsonModel)>, name: Seq<char>)
    requires
        forall|i: int| 0 <= i < entries.len() ==> (#[trigger] entries[i]).0 != name,
    ensures
        held(entries, name) is Nothing,
    decreases entries.len(),
{
    if entries.len() > 0 {
        let front = entries.drop_last();
        assert forall|i: int| 0 <= i < front.len() implies (#[trigger] front[i]).0 != name by {
            assert(front[i] == entries[i]);
        }
        lemma_held_nothing(front, name);
        assert(entries.last() == entries[entries.len() - 1]);
    }
}

/// A number by which the names of a record are told apart: length and first character.
spec fn mark(name: Seq<char>) -> int {
    name.len() * 1000 + (name[0] as int)
}

/// The marks of the names of a record.
spec fn record_marks() -> Seq<int> {
    seq![
        2105,
        8114,
        4107,
        7112,
        9097,
        5097,
        12097,
        9102,
        8115,
        4098,
        12105,
        10117,
        6115,
        16102,
        16105,
    ]
}

proof fn lemma_record_marks(r: RecordModel, k: int)
    requires
        0 <= k < 15,
    ensures
        mark(record_entries(r)[k].0) == record_marks()[k],
{
    reveal_strlit("id");
    reveal_strlit("revision");
    reveal_strlit("kind");
    reveal_strlit("purpose");
    reveal_strlit("authority");
    reveal_strlit("asset");
    reveal_strlit("amount_mojos");
    reveal_strlit("fee_mojos");
    reveal_strlit("store_id");
    reveal_strlit("bond");
    reveal_strlit("initiated_ms");
    reveal_strlit("updated_ms");
    reveal_strlit("status");
    reveal_strlit("funding_coin_ids");
    reveal_strlit("intended_coin_id");
    assert(mark("id"@) == 2105);
    assert(mark("revision"@) == 8114);
    assert(mark("kind"@) == 4107);
    assert(mark("purpose"@) == 7112);
    assert(mark("authority"@) == 9097);
    assert(mark("asset"@) == 5097);
    assert(mark("amount_mojos"@) == 12097);
    assert(mark("fee_mojos"@) == 9102);
    assert(mark("store_id"@) == 8115);
    assert(mark("bond"@) == 4098);
    assert(mark("initiated_ms"@) == 12105);
    assert(mark("updated_ms"@) == 10117);
    assert(mark("status"@) == 6115);
    assert(mark("funding_coin_ids"@) == 16102);
    assert(mark("intended_coin_id"@) == 16105);
}

/// No name of a record stands twice.
proof fn lemma_record_names_are_distinct(r: RecordModel, i: int, k: int)
    requires
        0 <= i < 15,
        0 <= k < 15,
        i != k,
    ensures
        record_entries(r)[i].0 != record_entries(r)[k].0,
{
    lemma_record_marks(r, i);
    lemma_record_marks(r, k);
    let m = record_marks();
    assert(m[0] == 2105);
    assert(m[1] == 8114);
    assert(m[2] == 4107);
    assert(m[3] == 7112);
    assert(m[4] == 9097);
    assert(m[5] == 5097);
    assert(m[6] == 12097);
    assert(m[7] == 9102);
    assert(m[8] == 8115);
    assert(m[9] == 4098);
    assert(m[10] == 12105);
    assert(m[11] == 10117);
    assert(m[12] == 6115);
    assert(m[13] == 16102);
    assert(m[14] == 16105);
}

proof fn lemma_record_holds(r: RecordModel, k: int)
    requires
        0 <= k < 15,
    ensures
        held(record_entries(r), record_entries(r)[k].0) == Held::Once(record_entries(r)[k].1),
{
    let e = record_entries(r);
    assert forall|i: int| 0 <= i < e.len() && i != k implies (#[trigger] e[i]).0 != e[k].0 by {
        lemma_record_names_are_distinct(r, i, k);
    }
    lemma_held_at(e, k);
}

/// An asset that was written is read back.
proof fn lemma_asset_is_read_back(a: AssetModel)
    ensures
        asset_json(a) matches JsonModel::Object(e) && read_asset(e) == Some(a),
{
    reveal_strlit("asset");
    reveal_strlit("asset_id");
    reveal_strlit("xch");
    reveal_strlit("dig");
    reveal_strlit("cat");
    assert("asset"@.len() == 5 && "asset_id"@.len() == 8);
    assert("xch"@[0] == 'x' && "dig"@[0] == 'd' && "cat"@[0] == 'c');
    let e = asset_json(a)->Object_0;
    lemma_held_at(e, 0);
    if a is Cat {
        lemma_held_at(e, 1);
    }
}

/// A stage that was written is read back.
proof fn lemma_stage_is_read_back(stage: FailureStage)
    ensures
        read_stage(stage.name()) == Some(stage),
{
    reveal_strlit("signing");
    reveal_strlit("broadcast");
    reveal_strlit("confirmation");
    assert("signing"@.len() == 7 && "broadcast"@.len() == 9 && "confirmation"@.len() == 12);
}

/// A status that was written is read back.
proof fn lemma_status_is_read_back(s: StatusModel)
    ensures
        status_json(s) matches JsonModel::Object(e) && read_status(e) == Some(s),
{
    reveal_strlit("state");
    reveal_strlit("height");
    reveal_strlit("coin_id");
    reveal_strlit("stage");
    reveal_strlit("reason");
    assert("state"@.len() == 5 && "state"@[3] == 't');
    assert("stage"@.len() == 5 && "stage"@[3] == 'g');
    assert("height"@.len() == 6 && "height"@[0] == 'h');
    assert("reason"@.len() == 6 && "reason"@[0] == 'r');
    assert("coin_id"@.len() == 7);
    reveal_strlit("pending");
    reveal_strlit("submitted");
    reveal_strlit("confirmed");
    reveal_strlit("failed");
    reveal_strlit("unresolved");
    assert("pending"@.len() == 7 && "failed"@.len() == 6 && "unresolved"@.len() == 10);
    assert("submitted"@.len() == 9 && "submitted"@[0] == 's');
    assert("confirmed"@.len() == 9 && "confirmed"@[0] == 'c');
    let e = status_json(s)->Object_0;
    lemma_held_at(e, 0);
    match s {
        StatusModel::Pending => {},
        StatusModel::Submitted => {},
        StatusModel::Confirmed(height, coin_id) => {
            lemma_held_at(e, 1);
            lemma_held_at(e, 2);
        },
        StatusModel::Failed(stage, reason) => {
            lemma_held_at(e, 1);
            lemma_held_at(e, 2);
            lemma_stage_is_read_back(stage);
        },
        StatusModel::Unresolved(reason) => {
            lemma_held_at(e, 1);
        },
    }
}

/// An authority that was written is read back.
proof fn lemma_authority_is_read_back(principal: Seq<char>, grant: Seq<char>)
    ensures
        authority_json(principal, grant) matches JsonModel::Object(e) && read_authority(e) == Some(
            (principal, grant),
        ),
{
    reveal_strlit("principal");
    reveal_strlit("grant");
    assert("principal"@.len() == 9 && "grant"@.len() == 5);
    let e = authority_json(principal, grant)->Object_0;
    lemma_held_at(e, 0);
    lemma_held_at(e, 1);
}

/// A bond that was written is read back.
proof fn lemma_bond_is_read_back(b: Option<(Seq<char>, i64)>)
    ensures
        read_bond(Held::Once(bond_json(b))) == Some(b),
{
    reveal_strlit("root");
    reveal_strlit("epoch");
    assert("root"@.len() == 4 && "epoch"@.len() == 5);
    if b is Some {
        let e = bond_json(b)->Object_0;
        lemma_held_at(e, 0);
        lemma_held_at(e, 1);
    }
}

/// Coins that were written are read back.
proof fn lemma_coins_are_read_back(ids: Seq<Seq<char>>)
    ensures
        read_coins(Held::Once(coins_json(ids))) == Some(ids),
{
    let items = coins_json(ids)->List_0;
    assert(all_texts(items));
    assert(Seq::new(items.len(), |i: int| items[i]->Text_0) =~= ids);
}

/// **Law: what is written is read back.** Reading a record as it is written gives the record, whatever it
/// holds.
pub proof fn law_a_written_record_is_read_back(r: RecordModel)
    ensures
        read_record(record_json(r)) == Some(r),
{
    let e = record_entries(r);
    assert(e.len() == 15);
    lemma_record_holds(r, 0);
    lemma_record_holds(r, 1);
    lemma_record_holds(r, 2);
    lemma_record_holds(r, 3);
    lemma_record_holds(r, 4);
    lemma_record_holds(r, 5);
    lemma_record_holds(r, 6);
    lemma_record_holds(r, 7);
    lemma_record_holds(r, 8);
    lemma_record_holds(r, 9);
    lemma_record_holds(r, 10);
    lemma_record_holds(r, 11);
    lemma_record_holds(r, 12);
    lemma_record_holds(r, 13);
    lemma_record_holds(r, 14);
    lemma_authority_is_read_back(r.principal, r.grant);
    lemma_asset_is_read_back(r.asset);
    lemma_status_is_read_back(r.status);
    lemma_bond_is_read_back(r.bond);
    lemma_coins_are_read_back(r.funding);
    assert(has_parts(e));
    assert(has_numbers(e));
}

/// **Law: different records are written differently.** Two records that are written alike are alike.
pub proof fn law_different_records_are_written_differently(a: RecordModel, b: RecordModel)
    requires
        record_json(a) == record_json(b),
    ensures
        a == b,
{
    law_a_written_record_is_read_back(a);
    law_a_written_record_is_read_back(b);
}

/// **Law: a record from before bonds is still read.** A record without the entry for its bond is read as
/// one that has none.
pub proof fn law_a_record_without_a_bond_entry_is_read(r: RecordModel)
    requires
        r.bond is None,
    ensures
        read_entries(record_entries(r).remove(9)) == Some(r),
{
    let whole = record_entries(r);
    let e = whole.remove(9);
    assert(e.len() == 14);
    assert forall|k: int| 0 <= k < 14 implies held(e, (#[trigger] e[k]).0) == Held::Once(e[k].1) by {
        let p = if k < 9 {
            k
        } else {
            k + 1
        };
        assert(e[k] == whole[p]);
        assert forall|i: int| 0 <= i < e.len() && i != k implies (#[trigger] e[i]).0 != e[k].0 by {
            let q = if i < 9 {
                i
            } else {
                i + 1
            };
            assert(e[i] == whole[q]);
            lemma_record_names_are_distinct(r, q, p);
        }
        lemma_held_at(e, k);
    }
    assert forall|i: int| 0 <= i < e.len() implies (#[trigger] e[i]).0 != "bond"@ by {
        let q = if i < 9 {
            i
        } else {
            i + 1
        };
        assert(e[i] == whole[q]);
        assert(whole[9].0 == "bond"@);
        lemma_record_names_are_distinct(r, q, 9);
    }
    lemma_held_nothing(e, "bond"@);
    lemma_authority_is_read_back(r.principal, r.grant);
    lemma_asset_is_read_back(r.asset);
    lemma_status_is_read_back(r.status);
    lemma_coins_are_read_back(r.funding);
    assert(e[0].0 == "id"@);
    assert(e[1].0 == "revision"@);
    assert(e[2].0 == "kind"@);
    assert(e[3].0 == "purpose"@);
    assert(e[4].0 == "authority"@);
    assert(e[5].0 == "asset"@);
    assert(e[6].0 == "amount_mojos"@);
    assert(e[7].0 == "fee_mojos"@);
    assert(e[8].0 == "store_id"@);
    assert(e[9].0 == "initiated_ms"@);
    assert(e[10].0 == "updated_ms"@);
    assert(e[11].0 == "status"@);
    assert(e[12].0 == "funding_coin_ids"@);
    assert(e[13].0 == "intended_coin_id"@);
    assert(has_parts(e));
    assert(has_numbers(e));
}

/// **Law: a record is written under the names that readers know.** Each part under its own, in this order.
pub proof fn law_the_names_a_record_is_written_under(r: RecordModel)
    ensures
        record_json(r) == JsonModel::Object(record_entries(r)),
        record_entries(r).len() == 15,
        record_entries(r)[0] == ("id"@, JsonModel::Text(r.id)),
        record_entries(r)[1] == ("revision"@, JsonModel::Number(r.revision as int)),
        record_entries(r)[2] == ("kind"@, JsonModel::Text(r.kind)),
        record_entries(r)[3] == ("purpose"@, JsonModel::Text(r.purpose)),
        record_entries(r)[4].0 == "authority"@,
        record_entries(r)[5].0 == "asset"@,
        record_entries(r)[6] == ("amount_mojos"@, JsonModel::Number(r.amount_mojos as int)),
        record_entries(r)[7] == ("fee_mojos"@, JsonModel::Number(r.fee_mojos as int)),
        record_entries(r)[8].0 == "store_id"@,
        record_entries(r)[9].0 == "bond"@,
        record_entries(r)[10] == ("initiated_ms"@, JsonModel::Number(r.initiated_ms as int)),
        record_entries(r)[11] == ("updated_ms"@, JsonModel::Number(r.updated_ms as int)),
        record_entries(r)[12].0 == "status"@,
        record_entries(r)[13].0 == "funding_coin_ids"@,
        record_entries(r)[14].0 == "intended_coin_id"@,
{
}

/// **Law: the names of what a record is made of.** Of an asset, a status, an authority and a bond.
pub proof fn law_the_names_of_a_records_parts(
    height: u32,
    coin: Seq<char>,
    stage: FailureStage,
    reason: Seq<char>,
    principal: Seq<char>,
    grant: Seq<char>,
    root: Seq<char>,
    epoch: i64,
)
    ensures
        asset_json(AssetModel::Xch) == JsonModel::Object(seq![("asset"@, JsonModel::Text("xch"@))]),
        asset_json(AssetModel::Dig) == JsonModel::Object(seq![("asset"@, JsonModel::Text("dig"@))]),
        asset_json(AssetModel::Cat(coin)) == JsonModel::Object(
            seq![("asset"@, JsonModel::Text("cat"@)), ("asset_id"@, JsonModel::Text(coin))],
        ),
        status_json(StatusModel::Pending) == JsonModel::Object(seq![("state"@, JsonModel::Text("pending"@))]),
        status_json(StatusModel::Submitted) == JsonModel::Object(
            seq![("state"@, JsonModel::Text("submitted"@))],
        ),
        status_json(StatusModel::Confirmed(height, coin)) == JsonModel::Object(
            seq![
                ("state"@, JsonModel::Text("confirmed"@)),
                ("height"@, JsonModel::Number(height as int)),
                ("coin_id"@, JsonModel::Text(coin)),
            ],
        ),
        status_json(StatusModel::Failed(stage, reason)) == JsonModel::Object(
            seq![
                ("state"@, JsonModel::Text("failed"@)),
                ("stage"@, JsonModel::Text(stage.name())),
                ("reason"@, JsonModel::Text(reason)),
            ],
        ),
        status_json(StatusModel::Unresolved(reason)) == JsonModel::Object(
            seq![("state"@, JsonModel::Text("unresolved"@)), ("reason"@, JsonModel::Text(reason))],
        ),
        authority_json(principal, grant) == JsonModel::Object(
            seq![("principal"@, JsonModel::Text(principal)), ("grant"@, JsonModel::Text(grant))],
        ),
        bond_json(Some((root, epoch))) == JsonModel::Object(
            seq![("root"@, JsonModel::Text(root)), ("epoch"@, JsonModel::Number(epoch as int))],
        ),
        bond_json(None) == JsonModel::Null,
{
}

/// **Law: a name is read where it stands once.** Another name beside it changes nothing; a second of the same
/// name spoils it, whatever it holds.
pub proof fn law_a_name_is_read_where_it_stands_once(
    e: Seq<(Seq<char>, JsonModel)>,
    name: Seq<char>,
    other: Seq<char>,
    v: JsonModel,
)
    ensures
        held(Seq::empty(), name) is Nothing,
        other != name ==> held(e.push((other, v)), name) == held(e, name),
        held(e, name) is Nothing ==> held(e.push((name, v)), name) == Held::Once(v),
        !(held(e, name) is Nothing) ==> held(e.push((name, v)), name) is MoreThanOnce,
{
    assert(e.push((other, v)).drop_last() =~= e);
    assert(e.push((name, v)).drop_last() =~= e);
}

/// **Law: what is not a record is not read as one.** What is no object; what lacks a part that every record
/// has, holds it twice or holds something else in its place; and a number that the part cannot hold.
pub proof fn law_what_is_not_a_record(e: Seq<(Seq<char>, JsonModel)>, m: JsonModel)
    ensures
        !(m is Object) ==> read_record(m) is None,
        read_record(JsonModel::Object(e)) matches Some(r) ==> {
            &&& held(e, "id"@) == Held::Once(JsonModel::Text(r.id))
            &&& held(e, "kind"@) == Held::Once(JsonModel::Text(r.kind))
            &&& held(e, "purpose"@) == Held::Once(JsonModel::Text(r.purpose))
            &&& held(e, "revision"@) == Held::Once(JsonModel::Number(r.revision as int))
            &&& held(e, "amount_mojos"@) == Held::Once(JsonModel::Number(r.amount_mojos as int))
            &&& held(e, "fee_mojos"@) == Held::Once(JsonModel::Number(r.fee_mojos as int))
            &&& held(e, "initiated_ms"@) == Held::Once(JsonModel::Number(r.initiated_ms as int))
            &&& held(e, "updated_ms"@) == Held::Once(JsonModel::Number(r.updated_ms as int))
            &&& held(e, "authority"@) matches Held::Once(JsonModel::Object(a)) && held(a, "principal"@)
                == Held::Once(JsonModel::Text(r.principal)) && held(a, "grant"@) == Held::Once(
                JsonModel::Text(r.grant),
            )
            &&& held(e, "asset"@) is Once && held(e, "asset"@)->Once_0 is Object
            &&& held(e, "status"@) is Once && held(e, "status"@)->Once_0 is Object
            &&& held(e, "funding_coin_ids"@) is Once && held(e, "funding_coin_ids"@)->Once_0 is List
            &&& r.store_id matches Some(s) ==> held(e, "store_id"@) == Held::Once(JsonModel::Text(s))
            &&& r.intended matches Some(c) ==> held(e, "intended_coin_id"@) == Held::Once(JsonModel::Text(c))
        },
{
}

} // verus!
