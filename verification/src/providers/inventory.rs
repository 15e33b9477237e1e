//! Homebrew's outdated formulae and casks as inventory reports.
use super::managers::{BuiltinInstallManager, ManagerKind};
use super::ToolVersion;
use crate::command::{owned, plain_command};
use crate::reports::{InventoryReport, InventoryRuntime, ResourceScope, ToolStatus};
use crate::sorting::{stable_order_by_text, stably_sorted_by_text};
use crate::text::{all_space, char_rows, chars_of, string_from_chars};
use vstd::prelude::*;

verus! {

/// One item of `brew outdated --json=v2`.
#[derive(Debug, PartialEq, Eq)]
pub struct BrewItem {
    pub name: String,
    pub installed_versions: Vec<String>,
    pub current_version: Option<String>,
}

/// The document of `brew outdated --json=v2`: outdated formulae and casks.
#[derive(Debug, PartialEq, Eq)]
pub struct BrewOutdated {
    pub formulae: Vec<BrewItem>,
    pub casks: Vec<BrewItem>,
}

/// The single report of a Homebrew inventory that could not be read.
pub fn inventory_failure(detail: String) -> (r: InventoryReport)
    ensures
        r.id@ == "homebrew"@,
        r.name@ == "Homebrew"@,
        r.kind@ == "inventory"@,
        r.status == ToolStatus::Failed,
        r.detail matches Some(d) && d@ == detail@,
        r.current is None && r.latest is None && r.action is None,
        r.scope == ResourceScope::System,
        r.installation_source is None && r.source_locator is None && r.update_manager is None,
        r.changes@.len() == 0,
{
    InventoryReport {
        id: owned("homebrew"),
        name: owned("Homebrew"),
        kind: owned("inventory"),
        status: ToolStatus::Failed,
        current: None,
        latest: None,
        action: None,
        detail: Some(detail),
        scope: ResourceScope::System,
        installation_source: None,
        source_locator: None,
        update_manager: None,
        changes: Vec::new(),
        runtime: InventoryRuntime::default(),
    }
}

/// The items in report order before sorting: formulae, then casks, each with its kind.
pub open spec fn outdated_items(o: BrewOutdated) -> Seq<(Seq<char>, BrewItem)> {
    o.formulae@.map_values(|i: BrewItem| ("formula"@, i)) + o.casks@.map_values(
        |i: BrewItem| ("cask"@, i),
    )
}

/// The identifier of an item's report: `brew:<kind>:<name>`.
pub open spec fn item_id(kind: Seq<char>, item: BrewItem) -> Seq<char> {
    "brew:"@ + kind + ":"@ + item.name@
}

/// A version text that is not blank.
pub open spec fn usable(v: Seq<char>) -> Option<Seq<char>> {
    if all_space(v) {
        None
    } else {
        Some(v)
    }
}

/// Whether `r` reports the item: outdated, its current version the last installed one and its
/// latest version the current one (each where usable), with a Homebrew update action exactly
/// where there is a latest version and the name is not blank.
pub open spec fn reports_item(r: InventoryReport, kind: Seq<char>, item: BrewItem) -> bool {
    let installed = item.installed_versions@;
    let current = if installed.len() > 0 {
        usable(installed.last()@)
    } else {
        None
    };
    let latest = match item.current_version {
        Some(v) => usable(v@),
        None => None,
    };
    &&& r.id@ == item_id(kind, item)
    &&& r.name@ == item.name@
    &&& r.kind@ == kind
    &&& r.status == ToolStatus::Outdated
    &&& r.detail is None
    &&& (match current {
        Some(c) => r.current matches Some(v) && v.raw_view() == c && v.normalized_view() == Some(c),
        None => r.current is None,
    })
    &&& (match latest {
        Some(l) => r.latest matches Some(v) && v.raw_view() == l && v.normalized_view() == Some(l),
        None => r.latest is None,
    })
    &&& (match latest {
        Some(l) => if all_space(item.name@) {
            r.action is None
        } else {
            r.action matches Some(a) && a.manager@ == "homebrew"@ && a.expected_version
                == r.latest->0 && a.target_mode == super::TargetMode::Floating && plain_command(
                a.command,
                "brew"@,
                seq!["upgrade"@, "--"@ + kind, item.name@],
            )
        },
        None => r.action is None,
    })
    &&& r.scope == ResourceScope::System
    &&& r.installation_source is None && r.source_locator is None && r.update_manager is None
    &&& r.changes@.len() == 0
}

fn usable_version(v: &String) -> (r: Option<ToolVersion>)
    ensures
        match usable(v@) {
            Some(t) => r matches Some(x) && x.raw_view() == t && x.normalized_view() == Some(t),
            None => r is None,
        },
{
    match ToolVersion::exact(v.as_str()) {
        Ok(x) => Some(x),
        Err(_) => None,
    }
}

fn item_report(kind: &str, item: &BrewItem) -> (r: InventoryReport)
    requires
        kind@ == "formula"@ || kind@ == "cask"@,
    ensures
        reports_item(r, kind@, *item),
{
    let homebrew = BuiltinInstallManager { kind: ManagerKind::Homebrew };
    let current = if item.installed_versions.len() > 0 {
        usable_version(&item.installed_versions[item.installed_versions.len() - 1])
    } else {
        None
    };
    let latest = match &item.current_version {
        Some(v) => usable_version(v),
        None => None,
    };
    let action = match &latest {
        Some(l) => match homebrew.inventory_upgrade(kind, item.name.as_str(), l) {
            Ok(a) => Some(a),
            Err(_) => None,
        },
        None => None,
    };
    let id = crate::text::concat3("brew:", kind, ":");
    let id = crate::text::concat_str(id.as_str(), item.name.as_str());
    InventoryReport {
        id,
        name: item.name.clone(),
        kind: owned(kind),
        status: ToolStatus::Outdated,
        current,
        latest,
        action,
        detail: None,
        scope: ResourceScope::System,
        installation_source: None,
        source_locator: None,
        update_manager: None,
        changes: Vec::new(),
        runtime: InventoryRuntime::default(),
    }
}

/// The reports of Homebrew's outdated formulae and casks, sorted by identifier (ties keep
/// formulae before casks and document order).
pub fn outdated_reports(outdated: &BrewOutdated) -> (r: Vec<InventoryReport>)
    ensures
        ({
            let items = outdated_items(*outdated);
            let ids = items.map_values(|x: (Seq<char>, BrewItem)| item_id(x.0, x.1));
            exists|order: Seq<int>|
                stably_sorted_by_text(ids, order) && r@.len() == order.len() && forall|k: int|
                    0 <= k < order.len() ==> reports_item(
                        #[trigger] r@[k],
                        items[order[k]].0,
                        items[order[k]].1,
                    )
        }),
{
    let ghost items = outdated_items(*outdated);
    let nf = outdated.formulae.len();
    let mut ids: Vec<Vec<char>> = Vec::new();
    let mut k: usize = 0;
    while k < nf
        invariant
            nf == outdated.formulae@.len(),
            items == outdated_items(*outdated),
            k <= nf,
            char_rows(ids@) == items.subrange(0, k as int).map_values(
                |x: (Seq<char>, BrewItem)| item_id(x.0, x.1),
            ),
        decreases nf - k,
    {
        let id = crate::text::concat_str("brew:formula:", outdated.formulae[k].name.as_str());
        proof {
            reveal_strlit("brew:formula:");
            reveal_strlit("brew:");
            reveal_strlit("formula");
            reveal_strlit(":");
            assert(id@ == item_id(items[k as int].0, items[k as int].1));
        }
        let ghost before = char_rows(ids@);
        ids.push(chars_of(id.as_str()));
        proof {
            assert(char_rows(ids@) =~= before.push(id@));
            assert(items.subrange(0, k + 1).map_values(|x: (Seq<char>, BrewItem)| item_id(x.0, x.1))
                =~= items.subrange(0, k as int).map_values(
                |x: (Seq<char>, BrewItem)| item_id(x.0, x.1),
            ).push(item_id(items[k as int].0, items[k as int].1)));
        }
        k = k + 1;
    }
    let mut c: usize = 0;
    while c < outdated.casks.len()
        invariant
            nf == outdated.formulae@.len(),
            items == outdated_items(*outdated),
            c <= outdated.casks@.len(),
            ids@.len() == nf + c,
            char_rows(ids@) == items.subrange(0, nf + c).map_values(
                |x: (Seq<char>, BrewItem)| item_id(x.0, x.1),
            ),
        decreases outdated.casks.len() - c,
    {
        let id = crate::text::concat_str("brew:cask:", outdated.casks[c].name.as_str());
        proof {
            reveal_strlit("brew:cask:");
            reveal_strlit("brew:");
            reveal_strlit("cask");
            reveal_strlit(":");
            assert(id@ == item_id(items[nf + c].0, items[nf + c].1));
        }
        let ghost before = char_rows(ids@);
        ids.push(chars_of(id.as_str()));
        proof {
            assert(char_rows(ids@) =~= before.push(id@));
            assert(items.subrange(0, nf + c + 1).map_values(|x: (Seq<char>, BrewItem)| item_id(x.0, x.1))
                =~= items.subrange(0, nf + c).map_values(
                |x: (Seq<char>, BrewItem)| item_id(x.0, x.1),
            ).push(item_id(items[nf + c].0, items[nf + c].1)));
        }
        c = c + 1;
    }
    proof {
        assert(items.subrange(0, items.len() as int) =~= items);
    }
    let order = stable_order_by_text(&ids);
    let ghost om = order@.map_values(|i: usize| i as int);
    let mut out: Vec<InventoryReport> = Vec::new();
    let mut j: usize = 0;
    while j < order.len()
        invariant
            nf == outdated.formulae@.len(),
            items == outdated_items(*outdated),
            items.len() == ids@.len(),
            om == order@.map_values(|i: usize| i as int),
            stably_sorted_by_text(char_rows(ids@), om),
            j <= order@.len(),
            out@.len() == j,
            forall|m: int|
                0 <= m < j ==> reports_item(#[trigger] out@[m], items[om[m]].0, items[om[m]].1),
        decreases order.len() - j,
    {
        let x = order[j];
        assert(om[j as int] == x as int);
        assert(0 <= om[j as int] < ids@.len());
        let report = if x < nf {
            proof {
                reveal_strlit("formula");
            }
            item_report("formula", &outdated.formulae[x])
        } else {
            proof {
                reveal_strlit("cask");
            }
            item_report("cask", &outdated.casks[x - nf])
        };
        out.push(report);
        j = j + 1;
    }
    out
}

} // verus!
