//! The history database's rules: the shape of each table, the columns an older table must hold,
//! the statements that bring each table to the current schema, and the rows that are written.
//! The program around the library runs the statements against the database.
use crate::command::owned;
use crate::config::{holds, integer_string, integer_text, texts};
use crate::text::{concat3, concat_str, str_eq};
use vstd::prelude::*;

verus! {

/// The newest database schema this library knows.
pub const DATABASE_SCHEMA_VERSION: i64 = 3;

/// One row of the upgrade history.
#[derive(Debug)]
pub struct HistoryEntry {
    pub id: i64,
    pub created_at: String,
    pub operation: String,
    pub tool: String,
    pub old_version: Option<String>,
    pub new_version: Option<String>,
    pub installation_source: String,
    pub update_manager: String,
    pub resource_scope: String,
    pub scope_locator: Option<String>,
    pub status: String,
    pub summary: String,
}

/// One stored check snapshot.
#[derive(Debug)]
pub struct SnapshotEntry {
    pub id: i64,
    pub created_at: String,
    pub payload: String,
    pub payload_schema_version: u8,
}

/// What was last observed of an installed agent skill.
#[derive(Debug, Clone, PartialEq, Eq)]
pub struct SkillBaseline {
    pub receipt_fingerprint: String,
    pub content_revision: String,
}

/// A history row about to be written; the database adds its identifier and time.
#[derive(Debug)]
pub struct HistoryRecord {
    pub operation: String,
    pub tool: String,
    pub old_version: Option<String>,
    pub new_version: Option<String>,
    pub installation_source: String,
    pub update_manager: String,
    pub resource_scope: String,
    pub scope_locator: Option<String>,
    pub status: String,
    pub summary: String,
}

/// The text of an optional string slice, taken by view.
pub open spec fn opt_view(o: Option<&str>) -> Option<Seq<char>> {
    match o {
        Some(s) => Some(s@),
        None => None,
    }
}

/// The text of an optional string, taken by view.
pub open spec fn opt_string_view(o: Option<String>) -> Option<Seq<char>> {
    match o {
        Some(s) => Some(s@),
        None => None,
    }
}

fn owned_opt(o: Option<&str>) -> (r: Option<String>)
    ensures
        opt_string_view(r) == opt_view(o),
{
    match o {
        Some(s) => Some(owned(s)),
        None => None,
    }
}

impl HistoryRecord {
    /// A history row for a system-wide resource: its scope is `system` and it has no locator.
    pub fn system(
        operation: &str,
        tool: &str,
        old: Option<&str>,
        new: Option<&str>,
        installation_source: &str,
        update_manager: &str,
        status: &str,
        summary: &str,
    ) -> (r: HistoryRecord)
        ensures
            r.operation@ == operation@,
            r.tool@ == tool@,
            opt_string_view(r.old_version) == opt_view(old),
            opt_string_view(r.new_version) == opt_view(new),
            r.installation_source@ == installation_source@,
            r.update_manager@ == update_manager@,
            r.resource_scope@ == "system"@,
            r.scope_locator is None,
            r.status@ == status@,
            r.summary@ == summary@,
    {
        HistoryRecord::scoped(
            operation,
            tool,
            old,
            new,
            installation_source,
            update_manager,
            "system",
            None,
            status,
            summary,
        )
    }

    /// A history row for a resource in the given scope.
    pub fn scoped(
        operation: &str,
        tool: &str,
        old: Option<&str>,
        new: Option<&str>,
        installation_source: &str,
        update_manager: &str,
        resource_scope: &str,
        scope_locator: Option<&str>,
        status: &str,
        summary: &str,
    ) -> (r: HistoryRecord)
        ensures
            r.operation@ == operation@,
            r.tool@ == tool@,
            opt_string_view(r.old_version) == opt_view(old),
            opt_string_view(r.new_version) == opt_view(new),
            r.installation_source@ == installation_source@,
            r.update_manager@ == update_manager@,
            r.resource_scope@ == resource_scope@,
            opt_string_view(r.scope_locator) == opt_view(scope_locator),
            r.status@ == status@,
            r.summary@ == summary@,
    {
        HistoryRecord {
            operation: owned(operation),
            tool: owned(tool),
            old_version: owned_opt(old),
            new_version: owned_opt(new),
            installation_source: owned(installation_source),
            update_manager: owned(update_manager),
            resource_scope: owned(resource_scope),
            scope_locator: owned_opt(scope_locator),
            status: owned(status),
            summary: owned(summary),
        }
    }
}

/// Why the database cannot be opened or migrated.
#[derive(Debug)]
pub enum StoreError {
    /// The database was written by a newer Beacon.
    UnsupportedSchema(i64),
    /// The history table lacks a column that every version had.
    MissingHistoryColumn(String),
    /// The history table has neither ownership column.
    MissingOwnershipColumns,
    /// The history table has one of the two scope columns but not the other.
    IncompleteScopedColumns,
    /// The snapshots table lacks a column that every version had.
    MissingSnapshotColumn(String),
}

/// A store error as plain values.
pub enum StoreFault {
    UnsupportedSchema(int),
    MissingHistoryColumn(Seq<char>),
    MissingOwnershipColumns,
    IncompleteScopedColumns,
    MissingSnapshotColumn(Seq<char>),
}

impl View for StoreError {
    type V = StoreFault;

    open spec fn view(&self) -> StoreFault {
        match self {
            StoreError::UnsupportedSchema(v) => StoreFault::UnsupportedSchema(*v as int),
            StoreError::MissingHistoryColumn(c) => StoreFault::MissingHistoryColumn(c@),
            StoreError::MissingOwnershipColumns => StoreFault::MissingOwnershipColumns,
            StoreError::IncompleteScopedColumns => StoreFault::IncompleteScopedColumns,
            StoreError::MissingSnapshotColumn(c) => StoreFault::MissingSnapshotColumn(c@),
        }
    }
}

/// The message of a store error.
pub open spec fn store_fault_text(f: StoreFault) -> Seq<char> {
    match f {
        StoreFault::UnsupportedSchema(v) => "unsupported Beacon database schema version "@
            + integer_text(v),
        StoreFault::MissingHistoryColumn(c) => "cannot migrate history table: missing column "@
            + c,
        StoreFault::MissingOwnershipColumns =>
            "cannot migrate history table: missing manager ownership columns"@,
        StoreFault::IncompleteScopedColumns =>
            "cannot migrate history table: incomplete scoped history columns"@,
        StoreFault::MissingSnapshotColumn(c) => "cannot migrate snapshots table: missing column "@
            + c,
    }
}

impl StoreError {
    /// The message shown for this error.
    pub fn message(&self) -> (r: String)
        ensures
            r@ == store_fault_text(self@),
    {
        match self {
            StoreError::UnsupportedSchema(v) => {
                let n = integer_string(*v);
                concat_str("unsupported Beacon database schema version ", n.as_str())
            },
            StoreError::MissingHistoryColumn(c) => concat_str(
                "cannot migrate history table: missing column ",
                c.as_str(),
            ),
            StoreError::MissingOwnershipColumns => owned(
                "cannot migrate history table: missing manager ownership columns",
            ),
            StoreError::IncompleteScopedColumns => owned(
                "cannot migrate history table: incomplete scoped history columns",
            ),
            StoreError::MissingSnapshotColumn(c) => concat_str(
                "cannot migrate snapshots table: missing column ",
                c.as_str(),
            ),
        }
    }
}

/// Whether a database of the given schema version may be opened.
pub open spec fn schema_accepted(current: int) -> bool {
    current <= DATABASE_SCHEMA_VERSION
}

/// Refuses a database that a newer Beacon wrote.
pub fn check_schema_version(current: i64) -> (r: Result<(), StoreError>)
    ensures
        r is Ok <==> schema_accepted(current as int),
        r matches Err(e) ==> e@ == StoreFault::UnsupportedSchema(current as int),
{
    if current > DATABASE_SCHEMA_VERSION {
        Err(StoreError::UnsupportedSchema(current))
    } else {
        Ok(())
    }
}

/// The first of the required columns, in order, that the table does not hold.
pub open spec fn first_absent(required: Seq<Seq<char>>, columns: Seq<String>) -> Option<Seq<char>>
    decreases required.len(),
{
    if required.len() == 0 {
        None
    } else if !holds(columns, required[0]) {
        Some(required[0])
    } else {
        first_absent(required.drop_first(), columns)
    }
}

/// The columns every version of the history table had.
pub open spec fn history_required() -> Seq<Seq<char>> {
    seq![
        "id"@,
        "created_at"@,
        "operation"@,
        "tool"@,
        "old_version"@,
        "new_version"@,
        "status"@,
        "summary"@,
    ]
}

/// The columns every version of the snapshots table had.
pub open spec fn snapshots_required() -> Seq<Seq<char>> {
    seq!["id"@, "created_at"@, "payload"@]
}

/// What is wrong with the columns of an existing history table, if anything.
pub open spec fn history_columns_fault(columns: Seq<String>) -> Option<StoreFault> {
    match first_absent(history_required(), columns) {
        Some(c) => Some(StoreFault::MissingHistoryColumn(c)),
        None => if !holds(columns, "manager"@) && !holds(columns, "installation_source"@) {
            Some(StoreFault::MissingOwnershipColumns)
        } else {
            None
        },
    }
}

/// What is wrong with the columns of an existing snapshots table, if anything.
pub open spec fn snapshot_columns_fault(columns: Seq<String>) -> Option<StoreFault> {
    match first_absent(snapshots_required(), columns) {
        Some(c) => Some(StoreFault::MissingSnapshotColumn(c)),
        None => None,
    }
}

fn has_column(columns: &Vec<String>, name: &str) -> (r: bool)
    ensures
        r == holds(columns@, name@),
{
    let mut i: usize = 0;
    while i < columns.len()
        invariant
            i <= columns@.len(),
            forall|k: int| 0 <= k < i ==> columns@[k]@ != name@,
        decreases columns.len() - i,
    {
        if str_eq(columns[i].as_str(), name) {
            return true;
        }
        i = i + 1;
    }
    false
}

/// The first of `required` that `columns` lacks.
fn first_missing(columns: &Vec<String>, required: &Vec<&str>) -> (r: Option<String>)
    ensures
        opt_string_view(r) == first_absent(required@.map_values(|s: &str| s@), columns@),
{
    let ghost req = required@.map_values(|s: &str| s@);
    let mut i: usize = 0;
    assert(req.subrange(0, req.len() as int) =~= req);
    while i < required.len()
        invariant
            i <= required@.len(),
            req == required@.map_values(|s: &str| s@),
            first_absent(req, columns@) == first_absent(req.subrange(i as int, req.len() as int), columns@),
        decreases required.len() - i,
    {
        let ghost rest = req.subrange(i as int, req.len() as int);
        assert(rest[0] == required@[i as int]@);
        assert(rest.drop_first() =~= req.subrange(i + 1, req.len() as int));
        if !has_column(columns, required[i]) {
            return Some(owned(required[i]));
        }
        i = i + 1;
    }
    assert(req.subrange(i as int, req.len() as int) =~= Seq::<Seq<char>>::empty());
    None
}

/// Checks that an existing history table can be migrated.
pub fn require_history_columns(columns: &Vec<String>) -> (r: Result<(), StoreError>)
    ensures
        match (r, history_columns_fault(columns@)) {
            (Ok(_), None) => true,
            (Err(e), Some(f)) => e@ == f,
            _ => false,
        },
{
    let required: Vec<&str> = vec![
        "id",
        "created_at",
        "operation",
        "tool",
        "old_version",
        "new_version",
        "status",
        "summary",
    ];
    assert(required@.map_values(|s: &str| s@) =~= history_required());
    match first_missing(columns, &required) {
        Some(c) => Err(StoreError::MissingHistoryColumn(c)),
        None => {
            if !has_column(columns, "manager") && !has_column(columns, "installation_source") {
                Err(StoreError::MissingOwnershipColumns)
            } else {
                Ok(())
            }
        },
    }
}

/// Checks that an existing snapshots table can be migrated.
pub fn require_snapshot_columns(columns: &Vec<String>) -> (r: Result<(), StoreError>)
    ensures
        match (r, snapshot_columns_fault(columns@)) {
            (Ok(_), None) => true,
            (Err(e), Some(f)) => e@ == f,
            _ => false,
        },
{
    let required: Vec<&str> = vec!["id", "created_at", "payload"];
    assert(required@.map_values(|s: &str| s@) =~= snapshots_required());
    match first_missing(columns, &required) {
        Some(c) => Err(StoreError::MissingSnapshotColumn(c)),
        None => Ok(()),
    }
}

/// Where the migrated history takes a row's installation source from.
#[derive(Debug, Clone, Copy, PartialEq, Eq, Structural)]
pub enum OwnershipSource {
    /// The recorded source, or the old manager column where the source is `unknown`.
    Merged,
    /// The recorded source.
    InstallationSource,
    /// The old manager column.
    Manager,
}

/// What bringing the history table to its second shape takes.
#[derive(Debug, Clone, Copy, PartialEq, Eq, Structural)]
pub enum HistoryV2Step {
    /// There is no history table: create it.
    Create,
    /// The table has the ownership columns and no old manager column: nothing to do.
    Keep,
    /// Copy the rows into a table of the new shape.
    Rebuild { source: OwnershipSource, has_updater: bool },
}

/// What bringing the history table to its scoped shape takes.
#[derive(Debug, Clone, Copy, PartialEq, Eq, Structural)]
pub enum HistoryV3Step {
    /// Both scope columns are there: nothing to do.
    Keep,
    /// Copy the rows into a table with the scope columns; every old row is system-wide.
    Rebuild,
}

/// What bringing the snapshots table to its second shape takes.
#[derive(Debug, Clone, Copy, PartialEq, Eq, Structural)]
pub enum SnapshotStep {
    /// There is no snapshots table: create it.
    Create,
    /// The payload schema column is there: nothing to do.
    Keep,
    /// Copy the snapshots into a table with the payload schema column, marking them as the
    /// first payload schema.
    Rebuild,
}

/// The second history step for a table that exists or not, with the given columns.
pub open spec fn history_v2_plan(exists: bool, columns: Seq<String>) -> Result<
    HistoryV2Step,
    StoreFault,
> {
    if !exists {
        Ok(HistoryV2Step::Create)
    } else {
        match history_columns_fault(columns) {
            Some(f) => Err(f),
            None => {
                let manager = holds(columns, "manager"@);
                let source = holds(columns, "installation_source"@);
                let updater = holds(columns, "update_manager"@);
                if !manager && source && updater {
                    Ok(HistoryV2Step::Keep)
                } else {
                    Ok(
                        HistoryV2Step::Rebuild {
                            source: if source && manager {
                                OwnershipSource::Merged
                            } else if source {
                                OwnershipSource::InstallationSource
                            } else {
                                OwnershipSource::Manager
                            },
                            has_updater: updater,
                        },
                    )
                }
            },
        }
    }
}

/// The scoped history step for a table with the given columns.
pub open spec fn history_v3_plan(columns: Seq<String>) -> Result<HistoryV3Step, StoreFault> {
    match history_columns_fault(columns) {
        Some(f) => Err(f),
        None => {
            let scope = holds(columns, "resource_scope"@);
            let locator = holds(columns, "scope_locator"@);
            if scope && locator {
                Ok(HistoryV3Step::Keep)
            } else if scope || locator {
                Err(StoreFault::IncompleteScopedColumns)
            } else {
                Ok(HistoryV3Step::Rebuild)
            }
        },
    }
}

/// The snapshots step for a table that exists or not, with the given columns.
pub open spec fn snapshots_plan(exists: bool, columns: Seq<String>) -> Result<
    SnapshotStep,
    StoreFault,
> {
    if !exists {
        Ok(SnapshotStep::Create)
    } else {
        match snapshot_columns_fault(columns) {
            Some(f) => Err(f),
            None => if holds(columns, "payload_schema_version"@) {
                Ok(SnapshotStep::Keep)
            } else {
                Ok(SnapshotStep::Rebuild)
            },
        }
    }
}

/// Decides how the history table reaches its second shape.
pub fn plan_history_v2(exists: bool, columns: &Vec<String>) -> (r: Result<HistoryV2Step, StoreError>)
    ensures
        match (r, history_v2_plan(exists, columns@)) {
            (Ok(a), Ok(b)) => a == b,
            (Err(e), Err(f)) => e@ == f,
            _ => false,
        },
{
    if !exists {
        return Ok(HistoryV2Step::Create);
    }
    match require_history_columns(columns) {
        Err(e) => Err(e),
        Ok(()) => {
            let manager = has_column(columns, "manager");
            let source = has_column(columns, "installation_source");
            let updater = has_column(columns, "update_manager");
            if !manager && source && updater {
                Ok(HistoryV2Step::Keep)
            } else {
                let from = if source && manager {
                    OwnershipSource::Merged
                } else if source {
                    OwnershipSource::InstallationSource
                } else {
                    OwnershipSource::Manager
                };
                Ok(HistoryV2Step::Rebuild { source: from, has_updater: updater })
            }
        },
    }
}

/// Decides how the history table reaches its scoped shape.
pub fn plan_history_v3(columns: &Vec<String>) -> (r: Result<HistoryV3Step, StoreError>)
    ensures
        match (r, history_v3_plan(columns@)) {
            (Ok(a), Ok(b)) => a == b,
            (Err(e), Err(f)) => e@ == f,
            _ => false,
        },
{
    match require_history_columns(columns) {
        Err(e) => Err(e),
        Ok(()) => {
            let scope = has_column(columns, "resource_scope");
            let locator = has_column(columns, "scope_locator");
            if scope && locator {
                Ok(HistoryV3Step::Keep)
            } else if scope || locator {
                Err(StoreError::IncompleteScopedColumns)
            } else {
                Ok(HistoryV3Step::Rebuild)
            }
        },
    }
}

/// Decides how the snapshots table reaches its second shape.
pub fn plan_snapshots_v2(exists: bool, columns: &Vec<String>) -> (r: Result<SnapshotStep, StoreError>)
    ensures
        match (r, snapshots_plan(exists, columns@)) {
            (Ok(a), Ok(b)) => a == b,
            (Err(e), Err(f)) => e@ == f,
            _ => false,
        },
{
    if !exists {
        return Ok(SnapshotStep::Create);
    }
    match require_snapshot_columns(columns) {
        Err(e) => Err(e),
        Ok(()) => if has_column(columns, "payload_schema_version") {
            Ok(SnapshotStep::Keep)
        } else {
            Ok(SnapshotStep::Rebuild)
        },
    }
}

/// The statement that creates a history table of the second shape under the given name.
pub open spec fn history_v2_ddl_text(table: Seq<char>) -> Seq<char> {
    "CREATE TABLE "@ + table
        + " (id INTEGER PRIMARY KEY, created_at TEXT NOT NULL, operation TEXT NOT NULL, tool TEXT NOT NULL, old_version TEXT, new_version TEXT, installation_source TEXT NOT NULL DEFAULT 'unknown', update_manager TEXT NOT NULL DEFAULT 'unknown', status TEXT NOT NULL, summary TEXT NOT NULL)"@
}

/// The statement that creates a scoped history table under the given name.
pub open spec fn history_v3_ddl_text(table: Seq<char>) -> Seq<char> {
    "CREATE TABLE "@ + table
        + " (id INTEGER PRIMARY KEY, created_at TEXT NOT NULL, operation TEXT NOT NULL, tool TEXT NOT NULL, old_version TEXT, new_version TEXT, installation_source TEXT NOT NULL DEFAULT 'unknown', update_manager TEXT NOT NULL DEFAULT 'unknown', resource_scope TEXT NOT NULL DEFAULT 'system', scope_locator TEXT, status TEXT NOT NULL, summary TEXT NOT NULL)"@
}

/// The statement that creates a snapshots table of the second shape under the given name.
pub open spec fn snapshots_v2_ddl_text(table: Seq<char>) -> Seq<char> {
    "CREATE TABLE "@ + table
        + " (id INTEGER PRIMARY KEY, created_at TEXT NOT NULL, payload TEXT NOT NULL, payload_schema_version INTEGER NOT NULL DEFAULT 2)"@
}

/// Creates a history table of the second shape under the given name.
pub fn history_v2_ddl(table: &str) -> (r: String)
    ensures
        r@ == history_v2_ddl_text(table@),
{
    concat3(
        "CREATE TABLE ",
        table,
        " (id INTEGER PRIMARY KEY, created_at TEXT NOT NULL, operation TEXT NOT NULL, tool TEXT NOT NULL, old_version TEXT, new_version TEXT, installation_source TEXT NOT NULL DEFAULT 'unknown', update_manager TEXT NOT NULL DEFAULT 'unknown', status TEXT NOT NULL, summary TEXT NOT NULL)",
    )
}

/// Creates a scoped history table under the given name.
pub fn history_v3_ddl(table: &str) -> (r: String)
    ensures
        r@ == history_v3_ddl_text(table@),
{
    concat3(
        "CREATE TABLE ",
        table,
        " (id INTEGER PRIMARY KEY, created_at TEXT NOT NULL, operation TEXT NOT NULL, tool TEXT NOT NULL, old_version TEXT, new_version TEXT, installation_source TEXT NOT NULL DEFAULT 'unknown', update_manager TEXT NOT NULL DEFAULT 'unknown', resource_scope TEXT NOT NULL DEFAULT 'system', scope_locator TEXT, status TEXT NOT NULL, summary TEXT NOT NULL)",
    )
}

/// Creates a snapshots table of the second shape under the given name.
pub fn snapshots_v2_ddl(table: &str) -> (r: String)
    ensures
        r@ == snapshots_v2_ddl_text(table@),
{
    concat3(
        "CREATE TABLE ",
        table,
        " (id INTEGER PRIMARY KEY, created_at TEXT NOT NULL, payload TEXT NOT NULL, payload_schema_version INTEGER NOT NULL DEFAULT 2)",
    )
}

/// The expression a migrated row's installation source is read from.
pub open spec fn source_expr(s: OwnershipSource) -> Seq<char> {
    match s {
        OwnershipSource::Merged =>
            "CASE WHEN installation_source = 'unknown' THEN manager ELSE installation_source END"@,
        OwnershipSource::InstallationSource => "installation_source"@,
        OwnershipSource::Manager => "manager"@,
    }
}

/// The expression a migrated row's update manager is read from.
pub open spec fn updater_expr(has_updater: bool) -> Seq<char> {
    if has_updater {
        "update_manager"@
    } else {
        "'unknown'"@
    }
}

/// The statement that copies the old history rows into the table of the second shape.
pub open spec fn history_v2_copy_text(source: OwnershipSource, has_updater: bool) -> Seq<char> {
    "INSERT INTO history_v2_migration(id, created_at, operation, tool, old_version, new_version, installation_source, update_manager, status, summary) SELECT id, created_at, operation, tool, old_version, new_version, "@
        + source_expr(source) + ", "@ + updater_expr(has_updater)
        + ", status, summary FROM history"@
}

fn source_expression(s: OwnershipSource) -> (r: &'static str)
    ensures
        r@ == source_expr(s),
{
    match s {
        OwnershipSource::Merged =>
            "CASE WHEN installation_source = 'unknown' THEN manager ELSE installation_source END",
        OwnershipSource::InstallationSource => "installation_source",
        OwnershipSource::Manager => "manager",
    }
}

fn updater_expression(has_updater: bool) -> (r: &'static str)
    ensures
        r@ == updater_expr(has_updater),
{
    if has_updater {
        "update_manager"
    } else {
        "'unknown'"
    }
}

/// The statements that bring the history table to its second shape, in order.
pub open spec fn history_v2_sql(step: HistoryV2Step) -> Seq<Seq<char>> {
    match step {
        HistoryV2Step::Create => seq![history_v2_ddl_text("history"@)],
        HistoryV2Step::Keep => Seq::empty(),
        HistoryV2Step::Rebuild { source, has_updater } => seq![
            "DROP TABLE IF EXISTS history_v2_migration;"@,
            history_v2_ddl_text("history_v2_migration"@),
            history_v2_copy_text(source, has_updater),
            "DROP TABLE history; ALTER TABLE history_v2_migration RENAME TO history;"@,
        ],
    }
}

/// The statements that bring the history table to its scoped shape, in order.
pub open spec fn history_v3_sql(step: HistoryV3Step) -> Seq<Seq<char>> {
    match step {
        HistoryV3Step::Keep => Seq::empty(),
        HistoryV3Step::Rebuild => seq![
            "DROP TABLE IF EXISTS history_v3_migration;"@,
            history_v3_ddl_text("history_v3_migration"@),
            "INSERT INTO history_v3_migration(id, created_at, operation, tool, old_version, new_version, installation_source, update_manager, resource_scope, scope_locator, status, summary) SELECT id, created_at, operation, tool, old_version, new_version, installation_source, update_manager, 'system', NULL, status, summary FROM history; DROP TABLE history; ALTER TABLE history_v3_migration RENAME TO history;"@,
        ],
    }
}

/// The statements that bring the snapshots table to its second shape, in order.
pub open spec fn snapshots_v2_sql(step: SnapshotStep) -> Seq<Seq<char>> {
    match step {
        SnapshotStep::Create => seq![snapshots_v2_ddl_text("snapshots"@)],
        SnapshotStep::Keep => Seq::empty(),
        SnapshotStep::Rebuild => seq![
            "DROP TABLE IF EXISTS snapshots_v2_migration;"@,
            snapshots_v2_ddl_text("snapshots_v2_migration"@),
            "INSERT INTO snapshots_v2_migration(id, created_at, payload, payload_schema_version) SELECT id, created_at, payload, 1 FROM snapshots"@,
            "DROP TABLE snapshots; ALTER TABLE snapshots_v2_migration RENAME TO snapshots;"@,
        ],
    }
}

/// The texts of a list of statements.
pub open spec fn statement_texts(v: Seq<String>) -> Seq<Seq<char>> {
    v.map_values(|s: String| s@)
}

/// The statements for the second history step.
pub fn history_v2_statements(step: HistoryV2Step) -> (r: Vec<String>)
    ensures
        statement_texts(r@) == history_v2_sql(step),
{
    let mut out: Vec<String> = Vec::new();
    match step {
        HistoryV2Step::Create => {
            out.push(history_v2_ddl("history"));
        },
        HistoryV2Step::Keep => {},
        HistoryV2Step::Rebuild { source, has_updater } => {
            out.push(owned("DROP TABLE IF EXISTS history_v2_migration;"));
            out.push(history_v2_ddl("history_v2_migration"));
            let head = concat3(
                "INSERT INTO history_v2_migration(id, created_at, operation, tool, old_version, new_version, installation_source, update_manager, status, summary) SELECT id, created_at, operation, tool, old_version, new_version, ",
                source_expression(source),
                ", ",
            );
            out.push(
                concat3(
                    head.as_str(),
                    updater_expression(has_updater),
                    ", status, summary FROM history",
                ),
            );
            out.push(
                owned("DROP TABLE history; ALTER TABLE history_v2_migration RENAME TO history;"),
            );
        },
    }
    assert(statement_texts(out@) =~= history_v2_sql(step));
    out
}

/// The statements for the scoped history step.
pub fn history_v3_statements(step: HistoryV3Step) -> (r: Vec<String>)
    ensures
        statement_texts(r@) == history_v3_sql(step),
{
    let mut out: Vec<String> = Vec::new();
    match step {
        HistoryV3Step::Keep => {},
        HistoryV3Step::Rebuild => {
            out.push(owned("DROP TABLE IF EXISTS history_v3_migration;"));
            out.push(history_v3_ddl("history_v3_migration"));
            out.push(
                owned(
                    "INSERT INTO history_v3_migration(id, created_at, operation, tool, old_version, new_version, installation_source, update_manager, resource_scope, scope_locator, status, summary) SELECT id, created_at, operation, tool, old_version, new_version, installation_source, update_manager, 'system', NULL, status, summary FROM history; DROP TABLE history; ALTER TABLE history_v3_migration RENAME TO history;",
                ),
            );
        },
    }
    assert(statement_texts(out@) =~= history_v3_sql(step));
    out
}

/// The statements for the snapshots step.
pub fn snapshots_v2_statements(step: SnapshotStep) -> (r: Vec<String>)
    ensures
        statement_texts(r@) == snapshots_v2_sql(step),
{
    let mut out: Vec<String> = Vec::new();
    match step {
        SnapshotStep::Create => {
            out.push(snapshots_v2_ddl("snapshots"));
        },
        SnapshotStep::Keep => {},
        SnapshotStep::Rebuild => {
            out.push(owned("DROP TABLE IF EXISTS snapshots_v2_migration;"));
            out.push(snapshots_v2_ddl("snapshots_v2_migration"));
            out.push(
                owned(
                    "INSERT INTO snapshots_v2_migration(id, created_at, payload, payload_schema_version) SELECT id, created_at, payload, 1 FROM snapshots",
                ),
            );
            out.push(
                owned("DROP TABLE snapshots; ALTER TABLE snapshots_v2_migration RENAME TO snapshots;"),
            );
        },
    }
    assert(statement_texts(out@) =~= snapshots_v2_sql(step));
    out
}

/// The statement that creates the skill baseline table where it is missing.
pub open spec fn skill_baselines_ddl_text() -> Seq<char> {
    "CREATE TABLE IF NOT EXISTS skill_baselines (resource_scope TEXT NOT NULL, scope_locator TEXT NOT NULL DEFAULT '', skill_name TEXT NOT NULL, receipt_fingerprint TEXT NOT NULL, content_revision TEXT NOT NULL, observed_at TEXT NOT NULL, PRIMARY KEY(resource_scope, scope_locator, skill_name));"@
}

/// Creates the skill baseline table where it is missing.
pub fn skill_baselines_ddl() -> (r: String)
    ensures
        r@ == skill_baselines_ddl_text(),
{
    owned(
        "CREATE TABLE IF NOT EXISTS skill_baselines (resource_scope TEXT NOT NULL, scope_locator TEXT NOT NULL DEFAULT '', skill_name TEXT NOT NULL, receipt_fingerprint TEXT NOT NULL, content_revision TEXT NOT NULL, observed_at TEXT NOT NULL, PRIMARY KEY(resource_scope, scope_locator, skill_name));",
    )
}

/// The columns of the history table in its second shape.
pub open spec fn history_v2_columns() -> Seq<Seq<char>> {
    seq![
        "id"@,
        "created_at"@,
        "operation"@,
        "tool"@,
        "old_version"@,
        "new_version"@,
        "installation_source"@,
        "update_manager"@,
        "status"@,
        "summary"@,
    ]
}

/// The columns of the history table in its scoped shape.
pub open spec fn history_v3_columns() -> Seq<Seq<char>> {
    seq![
        "id"@,
        "created_at"@,
        "operation"@,
        "tool"@,
        "old_version"@,
        "new_version"@,
        "installation_source"@,
        "update_manager"@,
        "resource_scope"@,
        "scope_locator"@,
        "status"@,
        "summary"@,
    ]
}

/// The columns of the snapshots table in its second shape.
pub open spec fn snapshots_v2_columns() -> Seq<Seq<char>> {
    seq!["id"@, "created_at"@, "payload"@, "payload_schema_version"@]
}

proof fn lemma_holds_at(columns: Seq<String>, k: int, name: Seq<char>)
    requires
        0 <= k < columns.len(),
        texts(columns)[k] == name,
    ensures
        holds(columns, name),
{
    assert(columns[k]@ == name);
}

proof fn lemma_none_absent(required: Seq<Seq<char>>, columns: Seq<String>)
    requires
        forall|i: int| 0 <= i < required.len() ==> holds(columns, #[trigger] required[i]),
    ensures
        first_absent(required, columns) is None,
    decreases required.len(),
{
    if required.len() > 0 {
        assert(holds(columns, required[0]));
        assert forall|i: int| 0 <= i < required.drop_first().len() implies holds(
            columns,
            #[trigger] required.drop_first()[i],
        ) by {
            assert(required.drop_first()[i] == required[i + 1]);
        }
        lemma_none_absent(required.drop_first(), columns);
    }
}

proof fn lemma_absent_name(columns: Seq<String>, names: Seq<Seq<char>>, name: Seq<char>)
    requires
        texts(columns) == names,
        forall|i: int| 0 <= i < names.len() ==> #[trigger] names[i] != name,
    ensures
        !holds(columns, name),
{
    assert forall|k: int| 0 <= k < columns.len() implies #[trigger] columns[k]@ != name by {
        assert(texts(columns)[k] == names[k]);
    }
}

/// A history table of the second shape needs no second-shape migration, and its scoped
/// migration copies it rather than failing.
pub proof fn law_second_history_shape_moves_on(columns: Seq<String>)
    requires
        texts(columns) == history_v2_columns(),
    ensures
        history_v2_plan(true, columns) == Ok::<HistoryV2Step, StoreFault>(HistoryV2Step::Keep),
        history_v3_plan(columns) == Ok::<HistoryV3Step, StoreFault>(HistoryV3Step::Rebuild),
{
    reveal_strlit("id");
    reveal_strlit("created_at");
    reveal_strlit("operation");
    reveal_strlit("tool");
    reveal_strlit("old_version");
    reveal_strlit("new_version");
    reveal_strlit("installation_source");
    reveal_strlit("update_manager");
    reveal_strlit("status");
    reveal_strlit("summary");
    reveal_strlit("manager");
    reveal_strlit("resource_scope");
    reveal_strlit("scope_locator");
    let names = history_v2_columns();
    assert(columns.len() == names.len());
    lemma_holds_at(columns, 0, "id"@);
    lemma_holds_at(columns, 1, "created_at"@);
    lemma_holds_at(columns, 2, "operation"@);
    lemma_holds_at(columns, 3, "tool"@);
    lemma_holds_at(columns, 4, "old_version"@);
    lemma_holds_at(columns, 5, "new_version"@);
    lemma_holds_at(columns, 6, "installation_source"@);
    lemma_holds_at(columns, 7, "update_manager"@);
    lemma_holds_at(columns, 8, "status"@);
    lemma_holds_at(columns, 9, "summary"@);
    lemma_none_absent(history_required(), columns);
    assert(names[0].len() != "manager"@.len() || names[0][0] != "manager"@[0] || names[0][1] != "manager"@[1]);
    assert(names[1].len() != "manager"@.len() || names[1][0] != "manager"@[0] || names[1][1] != "manager"@[1]);
    assert(names[2].len() != "manager"@.len() || names[2][0] != "manager"@[0] || names[2][1] != "manager"@[1]);
    assert(names[3].len() != "manager"@.len() || names[3][0] != "manager"@[0] || names[3][1] != "manager"@[1]);
    assert(names[4].len() != "manager"@.len() || names[4][0] != "manager"@[0] || names[4][1] != "manager"@[1]);
    assert(names[5].len() != "manager"@.len() || names[5][0] != "manager"@[0] || names[5][1] != "manager"@[1]);
    assert(names[6].len() != "manager"@.len() || names[6][0] != "manager"@[0] || names[6][1] != "manager"@[1]);
    assert(names[7].len() != "manager"@.len() || names[7][0] != "manager"@[0] || names[7][1] != "manager"@[1]);
    assert(names[8].len() != "manager"@.len() || names[8][0] != "manager"@[0] || names[8][1] != "manager"@[1]);
    assert(names[9].len() != "manager"@.len() || names[9][0] != "manager"@[0] || names[9][1] != "manager"@[1]);
    lemma_absent_name(columns, names, "manager"@);
    assert(names[0].len() != "resource_scope"@.len() || names[0][0] != "resource_scope"@[0] || names[0][1] != "resource_scope"@[1]);
    assert(names[1].len() != "resource_scope"@.len() || names[1][0] != "resource_scope"@[0] || names[1][1] != "resource_scope"@[1]);
    assert(names[2].len() != "resource_scope"@.len() || names[2][0] != "resource_scope"@[0] || names[2][1] != "resource_scope"@[1]);
    assert(names[3].len() != "resource_scope"@.len() || names[3][0] != "resource_scope"@[0] || names[3][1] != "resource_scope"@[1]);
    assert(names[4].len() != "resource_scope"@.len() || names[4][0] != "resource_scope"@[0] || names[4][1] != "resource_scope"@[1]);
    assert(names[5].len() != "resource_scope"@.len() || names[5][0] != "resource_scope"@[0] || names[5][1] != "resource_scope"@[1]);
    assert(names[6].len() != "resource_scope"@.len() || names[6][0] != "resource_scope"@[0] || names[6][1] != "resource_scope"@[1]);
    assert(names[7].len() != "resource_scope"@.len() || names[7][0] != "resource_scope"@[0] || names[7][1] != "resource_scope"@[1]);
    assert(names[8].len() != "resource_scope"@.len() || names[8][0] != "resource_scope"@[0] || names[8][1] != "resource_scope"@[1]);
    assert(names[9].len() != "resource_scope"@.len() || names[9][0] != "resource_scope"@[0] || names[9][1] != "resource_scope"@[1]);
    lemma_absent_name(columns, names, "resource_scope"@);
    lemma_absent_name(columns, names, "scope_locator"@);
}

/// Tables of the current shapes need no migration: opening a migrated database again leaves
/// its tables as they are.
pub proof fn law_current_tables_are_kept(history: Seq<String>, snapshots: Seq<String>)
    requires
        texts(history) == history_v3_columns(),
        texts(snapshots) == snapshots_v2_columns(),
    ensures
        history_v2_plan(true, history) == Ok::<HistoryV2Step, StoreFault>(HistoryV2Step::Keep),
        history_v3_plan(history) == Ok::<HistoryV3Step, StoreFault>(HistoryV3Step::Keep),
        snapshots_plan(true, snapshots) == Ok::<SnapshotStep, StoreFault>(SnapshotStep::Keep),
{
    reveal_strlit("id");
    reveal_strlit("created_at");
    reveal_strlit("operation");
    reveal_strlit("tool");
    reveal_strlit("old_version");
    reveal_strlit("new_version");
    reveal_strlit("installation_source");
    reveal_strlit("update_manager");
    reveal_strlit("resource_scope");
    reveal_strlit("scope_locator");
    reveal_strlit("status");
    reveal_strlit("summary");
    reveal_strlit("manager");
    let names = history_v3_columns();
    assert(history.len() == names.len());
    lemma_holds_at(history, 0, "id"@);
    lemma_holds_at(history, 1, "created_at"@);
    lemma_holds_at(history, 2, "operation"@);
    lemma_holds_at(history, 3, "tool"@);
    lemma_holds_at(history, 4, "old_version"@);
    lemma_holds_at(history, 5, "new_version"@);
    lemma_holds_at(history, 6, "installation_source"@);
    lemma_holds_at(history, 7, "update_manager"@);
    lemma_holds_at(history, 8, "resource_scope"@);
    lemma_holds_at(history, 9, "scope_locator"@);
    lemma_holds_at(history, 10, "status"@);
    lemma_holds_at(history, 11, "summary"@);
    lemma_none_absent(history_required(), history);
    assert(names[0].len() != "manager"@.len() || names[0][0] != "manager"@[0] || names[0][1] != "manager"@[1]);
    assert(names[1].len() != "manager"@.len() || names[1][0] != "manager"@[0] || names[1][1] != "manager"@[1]);
    assert(names[2].len() != "manager"@.len() || names[2][0] != "manager"@[0] || names[2][1] != "manager"@[1]);
    assert(names[3].len() != "manager"@.len() || names[3][0] != "manager"@[0] || names[3][1] != "manager"@[1]);
    assert(names[4].len() != "manager"@.len() || names[4][0] != "manager"@[0] || names[4][1] != "manager"@[1]);
    assert(names[5].len() != "manager"@.len() || names[5][0] != "manager"@[0] || names[5][1] != "manager"@[1]);
    assert(names[6].len() != "manager"@.len() || names[6][0] != "manager"@[0] || names[6][1] != "manager"@[1]);
    assert(names[7].len() != "manager"@.len() || names[7][0] != "manager"@[0] || names[7][1] != "manager"@[1]);
    assert(names[8].len() != "manager"@.len() || names[8][0] != "manager"@[0] || names[8][1] != "manager"@[1]);
    assert(names[9].len() != "manager"@.len() || names[9][0] != "manager"@[0] || names[9][1] != "manager"@[1]);
    assert(names[10].len() != "manager"@.len() || names[10][0] != "manager"@[0] || names[10][1] != "manager"@[1]);
    assert(names[11].len() != "manager"@.len() || names[11][0] != "manager"@[0] || names[11][1] != "manager"@[1]);
    lemma_absent_name(history, names, "manager"@);
    let snap = snapshots_v2_columns();
    assert(snapshots.len() == snap.len());
    lemma_holds_at(snapshots, 0, "id"@);
    lemma_holds_at(snapshots, 1, "created_at"@);
    lemma_holds_at(snapshots, 2, "payload"@);
    lemma_holds_at(snapshots, 3, "payload_schema_version"@);
    lemma_none_absent(snapshots_required(), snapshots);
}

} // verus!
