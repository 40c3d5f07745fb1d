//! What each command reports to a program, as JSON.
use vstd::prelude::*;

use crate::json::{
    entry, entry_models, item_models, list, model, name_list, named, names, object, optional,
    tells, text_or_null, truth, words, Json, JsonModel,
};
use crate::service::backend::{RemovalModel, ScopeRemoval};
use crate::service::verbs::{
    InstallResult, StartResult, StatusResult, StopResult, SweepResult, UninstallResult,
};
use crate::text;

verus! {

impl UninstallResult {
    /// The report of an uninstall.
    pub open spec fn json(self) -> JsonModel {
        JsonModel::Object(
            seq![
                named("installed"@, JsonModel::Bool(self.installed)),
                named("registered"@, JsonModel::Bool(self.registered)),
                named("label"@, JsonModel::Text(self.label@)),
                named("removed_scopes"@, name_list(text::views(self.removed_scopes@))),
            ],
        )
    }

    /// The report of an uninstall.
    pub fn to_json(&self) -> (r: Json)
        ensures
            model(r) == self.json(),
    {
        let mut v: Vec<(String, Json)> = Vec::new();
        v.push(entry("installed", truth(self.installed)));
        v.push(entry("registered", truth(self.registered)));
        v.push(entry("label", words(self.label.as_str())));
        v.push(entry("removed_scopes", names(&self.removed_scopes)));
        proof {
            assert(entry_models(v@) =~= self.json()->Object_0);
        }
        object(v)
    }
}

impl StartResult {
    /// The report of a start.
    pub open spec fn json(self) -> JsonModel {
        JsonModel::Object(
            seq![
                named("started"@, JsonModel::Bool(self.started)),
                named("already_running"@, JsonModel::Bool(self.already_running)),
                named("label"@, JsonModel::Text(self.label@)),
            ],
        )
    }

    /// The report of a start.
    pub fn to_json(&self) -> (r: Json)
        ensures
            model(r) == self.json(),
    {
        let mut v: Vec<(String, Json)> = Vec::new();
        v.push(entry("started", truth(self.started)));
        v.push(entry("already_running", truth(self.already_running)));
        v.push(entry("label", words(self.label.as_str())));
        proof {
            assert(entry_models(v@) =~= self.json()->Object_0);
        }
        object(v)
    }
}

impl StopResult {
    /// The report of a stop.
    pub open spec fn json(self) -> JsonModel {
        JsonModel::Object(
            seq![
                named("stopped"@, JsonModel::Bool(self.stopped)),
                named("label"@, JsonModel::Text(self.label@)),
            ],
        )
    }

    /// The report of a stop.
    pub fn to_json(&self) -> (r: Json)
        ensures
            model(r) == self.json(),
    {
        let mut v: Vec<(String, Json)> = Vec::new();
        v.push(entry("stopped", truth(self.stopped)));
        v.push(entry("label", words(self.label.as_str())));
        proof {
            assert(entry_models(v@) =~= self.json()->Object_0);
        }
        object(v)
    }
}

impl StatusResult {
    /// The report of a status.
    pub open spec fn json(self) -> JsonModel {
        JsonModel::Object(
            seq![
                named("serving"@, JsonModel::Bool(self.serving)),
                named("addr"@, JsonModel::Text(self.addr@)),
                named("health_url"@, JsonModel::Text(self.health_url@)),
            ],
        )
    }

    /// The report of a status.
    pub fn to_json(&self) -> (r: Json)
        ensures
            model(r) == self.json(),
    {
        let mut v: Vec<(String, Json)> = Vec::new();
        v.push(entry("serving", truth(self.serving)));
        v.push(entry("addr", words(self.addr.as_str())));
        v.push(entry("health_url", words(self.health_url.as_str())));
        proof {
            assert(entry_models(v@) =~= self.json()->Object_0);
        }
        object(v)
    }
}

/// The report of a removal in one scope.
pub open spec fn removal_json(m: RemovalModel) -> JsonModel {
    JsonModel::Object(
        seq![
            named("scope"@, JsonModel::Text(m.scope.name())),
            named("found"@, JsonModel::Bool(m.found)),
            named("removed"@, JsonModel::Bool(m.removed)),
            named("indeterminate"@, JsonModel::Bool(m.indeterminate)),
            named("error"@, text_or_null(m.error)),
        ],
    )
}

fn removal_value(m: &ScopeRemoval) -> (r: Json)
    ensures
        model(r) == removal_json(m@),
{
    let mut v: Vec<(String, Json)> = Vec::new();
    v.push(entry("scope", words(m.scope.as_str())));
    v.push(entry("found", truth(m.found)));
    v.push(entry("removed", truth(m.removed)));
    v.push(entry("indeterminate", truth(m.indeterminate)));
    v.push(entry("error", optional(&m.error)));
    proof {
        assert(entry_models(v@) =~= removal_json(m@)->Object_0);
    }
    object(v)
}

/// An account whose registration stayed, and why.
pub open spec fn failed_account(t: (String, String)) -> JsonModel {
    JsonModel::Object(
        seq![named("account"@, JsonModel::Text(t.0@)), named("error"@, JsonModel::Text(t.1@))],
    )
}

/// The accounts whose registrations stayed, each with its reason.
pub open spec fn failed_accounts(failed: Seq<(String, String)>) -> JsonModel {
    JsonModel::List(Seq::new(failed.len(), |i: int| failed_account(failed[i])))
}

fn failed_value(failed: &Vec<(String, String)>) -> (r: Json)
    ensures
        model(r) == failed_accounts(failed@),
{
    let mut out: Vec<Json> = Vec::new();
    let mut i: usize = 0;
    while i < failed.len()
        invariant
            i <= failed@.len(),
            out@.len() == i,
            forall|j: int| 0 <= j < i ==> model(#[trigger] out@[j]) == failed_account(failed@[j]),
        decreases failed@.len() - i,
    {
        let mut v: Vec<(String, Json)> = Vec::new();
        v.push(entry("account", words(failed[i].0.as_str())));
        v.push(entry("error", words(failed[i].1.as_str())));
        proof {
            assert(entry_models(v@) =~= failed_account(failed@[i as int])->Object_0);
        }
        out.push(object(v));
        i += 1;
    }
    proof {
        assert(item_models(out@) =~= failed_accounts(failed@)->List_0);
    }
    list(out)
}

impl SweepResult {
    /// The report of the sweep of every account.
    pub open spec fn json(self) -> JsonModel {
        JsonModel::Object(
            seq![
                named("removed_accounts"@, name_list(text::views(self.removed_accounts@))),
                named("failed_accounts"@, failed_accounts(self.failed_accounts@)),
                named("residual"@, JsonModel::Text(self.residual@)),
            ],
        )
    }

    /// The report of the sweep of every account.
    pub fn to_json(&self) -> (r: Json)
        ensures
            model(r) == self.json(),
    {
        let mut v: Vec<(String, Json)> = Vec::new();
        v.push(entry("removed_accounts", names(&self.removed_accounts)));
        v.push(entry("failed_accounts", failed_value(&self.failed_accounts)));
        v.push(entry("residual", words(self.residual.as_str())));
        proof {
            assert(entry_models(v@) =~= self.json()->Object_0);
        }
        object(v)
    }
}

impl InstallResult {
    /// What every install reports.
    pub open spec fn always(self) -> Seq<(Seq<char>, JsonModel)> {
        seq![
            named("installed"@, JsonModel::Bool(self.installed)),
            named("reinstalled"@, JsonModel::Bool(self.reinstalled)),
            named("registered"@, JsonModel::Bool(self.registered)),
            named("started"@, JsonModel::Bool(self.started)),
            named("label"@, JsonModel::Text(self.label@)),
            named("display_name"@, JsonModel::Text(self.display_name@)),
            named("scope"@, JsonModel::Text(self.scope@)),
            named("program"@, JsonModel::Text(self.program@)),
            named("addr"@, JsonModel::Text(self.addr@)),
            named("upstream"@, JsonModel::Text(self.upstream@)),
            named("recovery_configured"@, JsonModel::Bool(self.recovery_configured)),
        ]
    }

    /// What an install reports where there is something to report of it: the name a person sees, the
    /// sweep of every account, and the removal from the other scope.
    pub open spec fn sometimes(self) -> Seq<(Seq<char>, JsonModel)> {
        (match self.display_name_verified {
            Some(b) => seq![named("display_name_verified"@, JsonModel::Bool(b))],
            None => Seq::empty(),
        }) + (match self.user_scope_sweep {
            Some(s) => seq![named("user_scope_sweep"@, s.json())],
            None => Seq::empty(),
        }) + (match self.migrated_from_scope {
            Some(m) => seq![named("migrated_from_scope"@, removal_json(m@))],
            None => Seq::empty(),
        })
    }

    /// The report of an install.
    pub open spec fn json(self) -> JsonModel {
        JsonModel::Object(self.always() + self.sometimes())
    }

    /// The report of an install.
    pub fn to_json(&self) -> (r: Json)
        ensures
            model(r) == self.json(),
    {
        let mut v: Vec<(String, Json)> = Vec::new();
        v.push(entry("installed", truth(self.installed)));
        v.push(entry("reinstalled", truth(self.reinstalled)));
        v.push(entry("registered", truth(self.registered)));
        v.push(entry("started", truth(self.started)));
        v.push(entry("label", words(self.label.as_str())));
        v.push(entry("display_name", words(self.display_name.as_str())));
        v.push(entry("scope", words(self.scope.as_str())));
        v.push(entry("program", words(self.program.as_str())));
        v.push(entry("addr", words(self.addr.as_str())));
        v.push(entry("upstream", words(self.upstream.as_str())));
        v.push(entry("recovery_configured", truth(self.recovery_configured)));
        proof {
            assert(entry_models(v@) =~= self.always());
        }
        if let Some(b) = &self.display_name_verified {
            v.push(entry("display_name_verified", truth(*b)));
        }
        if let Some(s) = &self.user_scope_sweep {
            v.push(entry("user_scope_sweep", s.to_json()));
        }
        if let Some(m) = &self.migrated_from_scope {
            v.push(entry("migrated_from_scope", removal_value(m)));
        }
        proof {
            assert(entry_models(v@) =~= self.always() + self.sometimes());
        }
        object(v)
    }
}

// ---- laws --------------------------------------------------------------------------------------

/// **Law: the report of an uninstall tells all of it.** Each field under its own name.
pub proof fn law_an_uninstall_is_told(r: UninstallResult)
    ensures
        tells(r.json(), "installed"@, JsonModel::Bool(r.installed)),
        tells(r.json(), "registered"@, JsonModel::Bool(r.registered)),
        tells(r.json(), "label"@, JsonModel::Text(r.label@)),
        tells(r.json(), "removed_scopes"@, name_list(text::views(r.removed_scopes@))),
        r.json()->Object_0.len() == 4,
{
    let f = r.json()->Object_0;
    assert(f[0] == ("installed"@, JsonModel::Bool(r.installed)));
    assert(f[1] == ("registered"@, JsonModel::Bool(r.registered)));
    assert(f[2] == ("label"@, JsonModel::Text(r.label@)));
    assert(f[3] == ("removed_scopes"@, name_list(text::views(r.removed_scopes@))));
}

/// **Law: the reports of a start, a stop and a status tell all of it.** Each field under its own name.
pub proof fn law_starts_stops_and_statuses_are_told(a: StartResult, o: StopResult, t: StatusResult)
    ensures
        tells(a.json(), "started"@, JsonModel::Bool(a.started)),
        tells(a.json(), "already_running"@, JsonModel::Bool(a.already_running)),
        tells(a.json(), "label"@, JsonModel::Text(a.label@)),
        tells(o.json(), "stopped"@, JsonModel::Bool(o.stopped)),
        tells(o.json(), "label"@, JsonModel::Text(o.label@)),
        tells(t.json(), "serving"@, JsonModel::Bool(t.serving)),
        tells(t.json(), "addr"@, JsonModel::Text(t.addr@)),
        tells(t.json(), "health_url"@, JsonModel::Text(t.health_url@)),
{
    let f = a.json()->Object_0;
    assert(f[0] == ("started"@, JsonModel::Bool(a.started)));
    assert(f[1] == ("already_running"@, JsonModel::Bool(a.already_running)));
    assert(f[2] == ("label"@, JsonModel::Text(a.label@)));
    let g = o.json()->Object_0;
    assert(g[0] == ("stopped"@, JsonModel::Bool(o.stopped)));
    assert(g[1] == ("label"@, JsonModel::Text(o.label@)));
    let h = t.json()->Object_0;
    assert(h[0] == ("serving"@, JsonModel::Bool(t.serving)));
    assert(h[1] == ("addr"@, JsonModel::Text(t.addr@)));
    assert(h[2] == ("health_url"@, JsonModel::Text(t.health_url@)));
}

/// **Law: the report of a removal tells all of it.** The error is null exactly where there was none.
pub proof fn law_a_removal_is_told(m: RemovalModel)
    ensures
        tells(removal_json(m), "scope"@, JsonModel::Text(m.scope.name())),
        tells(removal_json(m), "found"@, JsonModel::Bool(m.found)),
        tells(removal_json(m), "removed"@, JsonModel::Bool(m.removed)),
        tells(removal_json(m), "indeterminate"@, JsonModel::Bool(m.indeterminate)),
        m.error matches Some(e) ==> tells(removal_json(m), "error"@, JsonModel::Text(e)),
        m.error is None ==> tells(removal_json(m), "error"@, JsonModel::Null),
{
    let f = removal_json(m)->Object_0;
    assert(f[0] == ("scope"@, JsonModel::Text(m.scope.name())));
    assert(f[1] == ("found"@, JsonModel::Bool(m.found)));
    assert(f[2] == ("removed"@, JsonModel::Bool(m.removed)));
    assert(f[3] == ("indeterminate"@, JsonModel::Bool(m.indeterminate)));
    assert(f[4] == ("error"@, text_or_null(m.error)));
}

/// **Law: the report of a sweep tells all of it.** Each account that stayed is told with its own reason.
pub proof fn law_a_sweep_is_told(r: SweepResult, i: int)
    requires
        0 <= i < r.failed_accounts@.len(),
    ensures
        tells(r.json(), "removed_accounts"@, name_list(text::views(r.removed_accounts@))),
        tells(r.json(), "failed_accounts"@, failed_accounts(r.failed_accounts@)),
        tells(r.json(), "residual"@, JsonModel::Text(r.residual@)),
        failed_accounts(r.failed_accounts@) is List,
        failed_accounts(r.failed_accounts@)->List_0.len() == r.failed_accounts@.len(),
        ({
            let one = failed_accounts(r.failed_accounts@)->List_0[i];
            tells(one, "account"@, JsonModel::Text(r.failed_accounts@[i].0@)) && tells(
                one,
                "error"@,
                JsonModel::Text(r.failed_accounts@[i].1@),
            )
        }),
{
    let f = r.json()->Object_0;
    assert(f[0] == ("removed_accounts"@, name_list(text::views(r.removed_accounts@))));
    assert(f[1] == ("failed_accounts"@, failed_accounts(r.failed_accounts@)));
    assert(f[2] == ("residual"@, JsonModel::Text(r.residual@)));
    let one = failed_accounts(r.failed_accounts@)->List_0[i];
    assert(one == failed_account(r.failed_accounts@[i]));
    assert(one->Object_0[0] == ("account"@, JsonModel::Text(r.failed_accounts@[i].0@)));
    assert(one->Object_0[1] == ("error"@, JsonModel::Text(r.failed_accounts@[i].1@)));
}

/// **Law: the report of an install tells all of it.** Each field under its own name, and what there is
/// nothing to report of is left out.
pub proof fn law_an_install_is_told(r: InstallResult)
    ensures
        tells(r.json(), "installed"@, JsonModel::Bool(r.installed)),
        tells(r.json(), "reinstalled"@, JsonModel::Bool(r.reinstalled)),
        tells(r.json(), "registered"@, JsonModel::Bool(r.registered)),
        tells(r.json(), "started"@, JsonModel::Bool(r.started)),
        tells(r.json(), "label"@, JsonModel::Text(r.label@)),
        tells(r.json(), "display_name"@, JsonModel::Text(r.display_name@)),
        tells(r.json(), "scope"@, JsonModel::Text(r.scope@)),
        tells(r.json(), "program"@, JsonModel::Text(r.program@)),
        tells(r.json(), "addr"@, JsonModel::Text(r.addr@)),
        tells(r.json(), "upstream"@, JsonModel::Text(r.upstream@)),
        tells(r.json(), "recovery_configured"@, JsonModel::Bool(r.recovery_configured)),
        r.display_name_verified matches Some(b) ==> tells(
            r.json(),
            "display_name_verified"@,
            JsonModel::Bool(b),
        ),
        r.user_scope_sweep matches Some(s) ==> tells(r.json(), "user_scope_sweep"@, s.json()),
        r.migrated_from_scope matches Some(m) ==> tells(r.json(), "migrated_from_scope"@, removal_json(m@)),
        r.json()->Object_0.len() == 11 + (if r.display_name_verified is Some { 1int } else { 0 }) + (
        if r.user_scope_sweep is Some { 1int } else { 0 }) + (if r.migrated_from_scope is Some {
            1int
        } else {
            0
        }),
{
    let f = r.json()->Object_0;
    assert(f[0] == ("installed"@, JsonModel::Bool(r.installed)));
    assert(f[1] == ("reinstalled"@, JsonModel::Bool(r.reinstalled)));
    assert(f[2] == ("registered"@, JsonModel::Bool(r.registered)));
    assert(f[3] == ("started"@, JsonModel::Bool(r.started)));
    assert(f[4] == ("label"@, JsonModel::Text(r.label@)));
    assert(f[5] == ("display_name"@, JsonModel::Text(r.display_name@)));
    assert(f[6] == ("scope"@, JsonModel::Text(r.scope@)));
    assert(f[7] == ("program"@, JsonModel::Text(r.program@)));
    assert(f[8] == ("addr"@, JsonModel::Text(r.addr@)));
    assert(f[9] == ("upstream"@, JsonModel::Text(r.upstream@)));
    assert(f[10] == ("recovery_configured"@, JsonModel::Bool(r.recovery_configured)));
    let k: int = if r.display_name_verified is Some {
        1
    } else {
        0
    };
    let l: int = if r.user_scope_sweep is Some {
        1
    } else {
        0
    };
    if let Some(b) = r.display_name_verified {
        assert(f[11] == ("display_name_verified"@, JsonModel::Bool(b)));
    }
    if let Some(s) = r.user_scope_sweep {
        assert(f[11 + k] == ("user_scope_sweep"@, s.json()));
    }
    if let Some(m) = r.migrated_from_scope {
        assert(f[11 + k + l] == ("migrated_from_scope"@, removal_json(m@)));
    }
}

} // verus!
