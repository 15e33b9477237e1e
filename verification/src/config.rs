//! Beacon's configuration: its defaults, which tools and inventories it selects, how a loaded
//! file is accepted, how older files are migrated, and how settings are changed.
use crate::command::owned;
use crate::providers::adapters::{tool_name, tool_order};
use crate::text::{chars_of, str_eq, string_from_chars};
use vstd::prelude::*;

verus! {

/// The user's configuration.
#[derive(Debug, PartialEq, Eq)]
pub struct Config {
    pub schema_version: u8,
    pub enabled_tools: Vec<String>,
    pub disabled_tools: Vec<String>,
    pub enabled_inventories: Vec<String>,
    pub disabled_inventories: Vec<String>,
    pub tool_catalog_version: u32,
    pub inventory_catalog_version: u32,
    pub history_limit: usize,
    pub command_timeout_seconds: u64,
}

/// The catalog version of the built-in tools.
pub const TOOL_CATALOG_VERSION: u32 = 1;

/// The catalog version of the built-in inventories.
pub const INVENTORY_CATALOG_VERSION: u32 = 1;

/// The schema version a loaded configuration must have.
pub const CURRENT_SCHEMA_VERSION: u8 = 4;

/// The identifiers of the built-in tools.
pub open spec fn builtin_tool_ids() -> Seq<Seq<char>> {
    tool_order().map_values(|k| tool_name(k))
}

/// The catalog version that introduced a tool: 1 for every built-in tool and for any other.
pub open spec fn tool_entry_version(id: Seq<char>) -> u32 {
    TOOL_CATALOG_VERSION
}

/// The catalog version that introduced an inventory: 0 for Homebrew, 1 for skills and any
/// other.
pub open spec fn inventory_entry_version(id: Seq<char>) -> u32 {
    if id == "homebrew"@ {
        0
    } else {
        INVENTORY_CATALOG_VERSION
    }
}

/// The catalog version that introduced a tool.
pub fn tool_catalog_entry_version(id: &str) -> (r: u32)
    ensures
        r == tool_entry_version(id@),
{
    TOOL_CATALOG_VERSION
}

/// The catalog version that introduced an inventory.
pub fn inventory_catalog_entry_version(id: &str) -> (r: u32)
    ensures
        r == inventory_entry_version(id@),
{
    if str_eq(id, "homebrew") {
        0
    } else if str_eq(id, "skills") {
        1
    } else {
        INVENTORY_CATALOG_VERSION
    }
}

fn builtin_tools() -> (r: Vec<String>)
    ensures
        r@.map_values(|s: String| s@) == builtin_tool_ids(),
{
    let all = crate::providers::adapters::tool_registry();
    let mut out: Vec<String> = Vec::new();
    let mut k: usize = 0;
    while k < all.len()
        invariant
            all@.len() == tool_order().len(),
            forall|j: int| 0 <= j < all@.len() ==> (#[trigger] all@[j]).kind == tool_order()[j],
            k <= all@.len(),
            out@.map_values(|s: String| s@) == builtin_tool_ids().subrange(0, k as int),
        decreases all.len() - k,
    {
        let ghost before = out@;
        let name = owned(all[k].id_text());
        let ghost nv = name@;
        out.push(name);
        proof {
            assert(out@ == before.push(name));
            assert(out@.map_values(|s: String| s@) =~= before.map_values(|s: String| s@).push(nv));
            assert(builtin_tool_ids()[k as int] == tool_name(tool_order()[k as int]));
            assert(builtin_tool_ids().subrange(0, k + 1) =~= builtin_tool_ids().subrange(0, k as int).push(nv));
        }
        k = k + 1;
    }
    proof {
        assert(builtin_tool_ids().subrange(0, tool_order().len() as int) =~= builtin_tool_ids());
    }
    out
}

/// The first-release settings: every built-in tool and the Homebrew inventory enabled, nothing
/// disabled, catalogs not yet initialized, a history of 500 entries and a two-minute command
/// timeout, at schema version 2.
pub open spec fn default_settings(r: Config) -> bool {
    &&& r.schema_version == 2
    &&& r.enabled_tools@.map_values(|s: String| s@) == builtin_tool_ids()
    &&& r.disabled_tools@.len() == 0
    &&& r.enabled_inventories@.map_values(|s: String| s@) == seq!["homebrew"@]
    &&& r.disabled_inventories@.len() == 0
    &&& r.tool_catalog_version == 0
    &&& r.inventory_catalog_version == 0
    &&& r.history_limit == 500
    &&& r.command_timeout_seconds == 120
}

impl Default for Config {
    /// The first-release policy: every built-in tool and the Homebrew inventory enabled, a
    /// history of 500 entries and a two-minute command timeout.
    fn default() -> (r: Config)
        ensures
            default_settings(r),
    {
        let mut inventories: Vec<String> = Vec::new();
        inventories.push(owned("homebrew"));
        proof {
            assert(inventories@.map_values(|s: String| s@) =~= seq!["homebrew"@]);
        }
        Config {
            schema_version: 2,
            enabled_tools: builtin_tools(),
            disabled_tools: Vec::new(),
            enabled_inventories: inventories,
            disabled_inventories: Vec::new(),
            tool_catalog_version: 0,
            inventory_catalog_version: 0,
            history_limit: 500,
            command_timeout_seconds: 120,
        }
    }
}

/// Why a configuration was refused.
#[derive(Debug, Clone, PartialEq, Eq)]
pub enum ConfigError {
    /// The file is not valid TOML.
    Invalid,
    /// The file has a newer schema than this Beacon knows.
    Unsupported(i64),
    /// The file has an older schema and must be migrated first.
    RequiresMigration(i64),
    /// A setting key that `config set` does not know.
    UnknownKey(String),
    /// A numeric setting that is not a positive integer.
    NotAPositiveInteger(String),
    /// A numeric setting of zero.
    ZeroSetting,
}

/// The decimal digits of a natural number.
pub open spec fn decimal_text(n: nat) -> Seq<char>
    decreases n,
{
    if n < 10 {
        seq![digit_char(n)]
    } else {
        decimal_text(n / 10).push(digit_char(n % 10))
    }
}

/// The character of a decimal digit.
pub open spec fn digit_char(d: nat) -> char {
    if d == 0 {
        '0'
    } else if d == 1 {
        '1'
    } else if d == 2 {
        '2'
    } else if d == 3 {
        '3'
    } else if d == 4 {
        '4'
    } else if d == 5 {
        '5'
    } else if d == 6 {
        '6'
    } else if d == 7 {
        '7'
    } else if d == 8 {
        '8'
    } else {
        '9'
    }
}

/// The text of an integer, with a minus sign where it is negative.
pub open spec fn integer_text(n: int) -> Seq<char> {
    if n < 0 {
        seq!['-'] + decimal_text((-n) as nat)
    } else {
        decimal_text(n as nat)
    }
}

fn digit(d: u64) -> (r: char)
    requires
        d < 10,
    ensures
        r == digit_char(d as nat),
{
    if d == 0 {
        '0'
    } else if d == 1 {
        '1'
    } else if d == 2 {
        '2'
    } else if d == 3 {
        '3'
    } else if d == 4 {
        '4'
    } else if d == 5 {
        '5'
    } else if d == 6 {
        '6'
    } else if d == 7 {
        '7'
    } else if d == 8 {
        '8'
    } else {
        '9'
    }
}

pub(crate) fn decimal(n: u64) -> (r: Vec<char>)
    ensures
        r@ == decimal_text(n as nat),
    decreases n,
{
    if n < 10 {
        let mut out = Vec::new();
        out.push(digit(n));
        proof {
            assert(out@ =~= seq![digit_char(n as nat)]);
        }
        out
    } else {
        let mut out = decimal(n / 10);
        out.push(digit(n % 10));
        out
    }
}

/// The text of an integer.
pub fn integer_string(n: i64) -> (r: String)
    ensures
        r@ == integer_text(n as int),
{
    if n < 0 {
        let magnitude: u64 = if n == i64::MIN {
            9223372036854775808u64
        } else {
            (-n) as u64
        };
        let mut out: Vec<char> = Vec::new();
        out.push('-');
        crate::text::push_all(&mut out, &decimal(magnitude));
        proof {
            assert(out@ =~= seq!['-'] + decimal_text((-(n as int)) as nat));
        }
        string_from_chars(&out)
    } else {
        string_from_chars(&decimal(n as u64))
    }
}

/// The message of a configuration error.
pub open spec fn config_error_text(e: ConfigError) -> Seq<char> {
    match e {
        ConfigError::Invalid => "invalid Beacon config"@,
        ConfigError::Unsupported(v) => "unsupported Beacon config schema version "@ + integer_text(
            v as int,
        ),
        ConfigError::RequiresMigration(v) => "Beacon config schema version "@ + integer_text(
            v as int,
        ) + " requires migration"@,
        ConfigError::UnknownKey(k) => "unknown config key `"@ + k@ + "`"@,
        ConfigError::NotAPositiveInteger(k) => k@ + " must be a positive integer"@,
        ConfigError::ZeroSetting => "numeric settings must be greater than zero"@,
    }
}

impl ConfigError {
    /// The message shown for this error.
    pub fn message(&self) -> (r: String)
        ensures
            r@ == config_error_text(*self),
    {
        match self {
            ConfigError::Invalid => owned("invalid Beacon config"),
            ConfigError::Unsupported(v) => crate::text::concat_str(
                "unsupported Beacon config schema version ",
                integer_string(*v).as_str(),
            ),
            ConfigError::RequiresMigration(v) => crate::text::concat3(
                "Beacon config schema version ",
                integer_string(*v).as_str(),
                " requires migration",
            ),
            ConfigError::UnknownKey(k) => crate::text::concat3("unknown config key `", k.as_str(), "`"),
            ConfigError::NotAPositiveInteger(k) => crate::text::concat_str(
                k.as_str(),
                " must be a positive integer",
            ),
            ConfigError::ZeroSetting => owned("numeric settings must be greater than zero"),
        }
    }
}

/// What loading a parsed configuration gives: the configuration where its schema is current,
/// else an error saying whether it is too new or must be migrated.
pub open spec fn load_outcome(version: u8) -> Result<(), ConfigError> {
    if version == 4 {
        Ok(())
    } else if version > 4 {
        Err(ConfigError::Unsupported(version as i64))
    } else {
        Err(ConfigError::RequiresMigration(version as i64))
    }
}

/// Accepts a parsed configuration whose schema is current.
pub fn accept_loaded(config: Config) -> (r: Result<Config, ConfigError>)
    ensures
        match load_outcome(config.schema_version) {
            Ok(_) => r == Ok::<Config, ConfigError>(config),
            Err(e) => r == Err::<Config, ConfigError>(e),
        },
{
    if config.schema_version == 4 {
        Ok(config)
    } else if config.schema_version > 4 {
        Err(ConfigError::Unsupported(config.schema_version as i64))
    } else {
        Err(ConfigError::RequiresMigration(config.schema_version as i64))
    }
}

/// The configuration that loading gives: the first-release settings where there is no
/// configuration file, else the parsed file where its schema is current, and otherwise why it
/// is refused.
pub fn loaded_config(parsed: Option<Config>) -> (r: Result<Config, ConfigError>)
    ensures
        parsed is None ==> (r matches Ok(c) && default_settings(c)),
        parsed matches Some(c) ==> match load_outcome(c.schema_version) {
            Ok(_) => r == Ok::<Config, ConfigError>(c),
            Err(e) => r == Err::<Config, ConfigError>(e),
        },
{
    match parsed {
        None => Ok(Config::default()),
        Some(c) => accept_loaded(c),
    }
}

/// Whether a list of texts holds `id`.
pub open spec fn holds(list: Seq<String>, id: Seq<char>) -> bool {
    exists|i: int| 0 <= i < list.len() && list[i]@ == id
}

fn contains_text(list: &Vec<String>, id: &String) -> (r: bool)
    ensures
        r == holds(list@, id@),
{
    let mut i: usize = 0;
    while i < list.len()
        invariant
            i <= list@.len(),
            forall|k: int| 0 <= k < i ==> list@[k]@ != id@,
        decreases list.len() - i,
    {
        if str_eq(list[i].as_str(), id.as_str()) {
            return true;
        }
        i = i + 1;
    }
    false
}

/// The texts of a list.
pub open spec fn texts(list: Seq<String>) -> Seq<Seq<char>> {
    list.map_values(|s: String| s@)
}

/// The available entries not in `blocked`, in order.
pub open spec fn unblocked(available: Seq<String>, blocked: Seq<String>, n: int) -> Seq<Seq<char>>
    decreases n,
{
    if n <= 0 {
        Seq::empty()
    } else if holds(blocked, available[n - 1]@) {
        unblocked(available, blocked, n - 1)
    } else {
        unblocked(available, blocked, n - 1).push(available[n - 1]@)
    }
}

/// The enabled list after adding, in order, each available entry introduced after `since`
/// that is neither disabled nor already enabled.
pub open spec fn with_new_entries(
    enabled: Seq<Seq<char>>,
    available: Seq<String>,
    disabled: Seq<String>,
    since: u32,
    inventory: bool,
    n: int,
) -> Seq<Seq<char>>
    decreases n,
{
    if n <= 0 {
        enabled
    } else {
        let prev = with_new_entries(enabled, available, disabled, since, inventory, n - 1);
        let id = available[n - 1]@;
        let introduced = if inventory {
            inventory_entry_version(id)
        } else {
            tool_entry_version(id)
        };
        if introduced > since && !holds(disabled, id) && !prev.contains(id) {
            prev.push(id)
        } else {
            prev
        }
    }
}

/// The tool selection after catalog initialization.
pub open spec fn initialized_tools(c: Config, available: Seq<String>) -> Seq<Seq<char>> {
    if c.tool_catalog_version >= TOOL_CATALOG_VERSION {
        texts(c.enabled_tools@)
    } else if c.tool_catalog_version == 0 {
        unblocked(available, c.disabled_tools@, available.len() as int)
    } else {
        with_new_entries(
            texts(c.enabled_tools@),
            available,
            c.disabled_tools@,
            c.tool_catalog_version,
            false,
            available.len() as int,
        )
    }
}

/// The inventory selection after catalog initialization.
pub open spec fn initialized_inventories(c: Config, available: Seq<String>) -> Seq<Seq<char>> {
    if c.inventory_catalog_version >= INVENTORY_CATALOG_VERSION {
        texts(c.enabled_inventories@)
    } else if c.inventory_catalog_version == 0 && c.enabled_inventories@.len() == 0
        && c.disabled_inventories@.len() == 0 {
        texts(available)
    } else {
        with_new_entries(
            texts(c.enabled_inventories@),
            available,
            c.disabled_inventories@,
            c.inventory_catalog_version,
            true,
            available.len() as int,
        )
    }
}

fn copy_texts(list: &Vec<String>) -> (r: Vec<String>)
    ensures
        texts(r@) == texts(list@),
{
    let mut out: Vec<String> = Vec::new();
    let mut i: usize = 0;
    while i < list.len()
        invariant
            i <= list@.len(),
            texts(out@) == texts(list@).subrange(0, i as int),
        decreases list.len() - i,
    {
        let ghost before = out@;
        let item = list[i].clone();
        out.push(item);
        proof {
            assert(out@ == before.push(list@[i as int]));
            assert(texts(out@) =~= texts(before).push(list@[i as int]@));
            assert(texts(list@).subrange(0, i + 1) =~= texts(list@).subrange(0, i as int).push(list@[i as int]@));
        }
        i = i + 1;
    }
    assert(texts(list@).subrange(0, list@.len() as int) =~= texts(list@));
    out
}

fn holds_text(list: &Vec<String>, id: &String) -> (r: bool)
    ensures
        r == texts(list@).contains(id@),
{
    let found = contains_text(list, id);
    proof {
        if found {
            let i = choose|i: int| 0 <= i < list@.len() && list@[i]@ == id@;
            assert(texts(list@)[i] == id@);
        }
        if texts(list@).contains(id@) {
            let i = choose|i: int| 0 <= i < texts(list@).len() && texts(list@)[i] == id@;
            assert(list@[i]@ == id@);
        }
    }
    found
}

fn add_new_entries(
    enabled: &mut Vec<String>,
    available: &Vec<String>,
    disabled: &Vec<String>,
    since: u32,
    inventory: bool,
)
    ensures
        texts(final(enabled)@) == with_new_entries(
            texts(old(enabled)@),
            available@,
            disabled@,
            since,
            inventory,
            available@.len() as int,
        ),
{
    let ghost start = texts(enabled@);
    let mut i: usize = 0;
    while i < available.len()
        invariant
            i <= available@.len(),
            texts(enabled@) == with_new_entries(start, available@, disabled@, since, inventory, i as int),
        decreases available.len() - i,
    {
        let id = &available[i];
        let introduced = if inventory {
            inventory_catalog_entry_version(id.as_str())
        } else {
            tool_catalog_entry_version(id.as_str())
        };
        if introduced > since && !contains_text(disabled, id) && !holds_text(enabled, id) {
            let ghost before = texts(enabled@);
            enabled.push(id.clone());
            proof {
                assert(texts(enabled@) =~= before.push(id@));
            }
        }
        i = i + 1;
    }
}

fn unblocked_entries(available: &Vec<String>, blocked: &Vec<String>) -> (r: Vec<String>)
    ensures
        texts(r@) == unblocked(available@, blocked@, available@.len() as int),
{
    let mut out: Vec<String> = Vec::new();
    let mut i: usize = 0;
    while i < available.len()
        invariant
            i <= available@.len(),
            texts(out@) == unblocked(available@, blocked@, i as int),
        decreases available.len() - i,
    {
        if !contains_text(blocked, &available[i]) {
            let ghost before = texts(out@);
            out.push(available[i].clone());
            proof {
                assert(texts(out@) =~= before.push(available@[i as int]@));
            }
        }
        i = i + 1;
    }
    out
}

/// Brings the tool and inventory selections up to the current catalogs: a fresh selection
/// takes every available entry that is not disabled (every available inventory where none is
/// chosen yet); an older one adds only entries introduced since, unless disabled or already
/// enabled. Returns whether anything changed.
pub fn initialize_catalog(config: &mut Config, available_tools: &Vec<String>, available_inventories: &Vec<
    String,
>) -> (changed: bool)
    ensures
        texts(final(config).enabled_tools@) == initialized_tools(*old(config), available_tools@),
        texts(final(config).enabled_inventories@) == initialized_inventories(
            *old(config),
            available_inventories@,
        ),
        final(config).tool_catalog_version == (if old(config).tool_catalog_version
            < TOOL_CATALOG_VERSION {
            TOOL_CATALOG_VERSION
        } else {
            old(config).tool_catalog_version
        }),
        final(config).inventory_catalog_version == (if old(config).inventory_catalog_version
            < INVENTORY_CATALOG_VERSION {
            INVENTORY_CATALOG_VERSION
        } else {
            old(config).inventory_catalog_version
        }),
        final(config).schema_version == old(config).schema_version,
        final(config).disabled_tools == old(config).disabled_tools,
        final(config).disabled_inventories == old(config).disabled_inventories,
        final(config).history_limit == old(config).history_limit,
        final(config).command_timeout_seconds == old(config).command_timeout_seconds,
        changed == (old(config).tool_catalog_version < TOOL_CATALOG_VERSION
            || old(config).inventory_catalog_version < INVENTORY_CATALOG_VERSION),
{
    let mut changed = false;
    if config.tool_catalog_version < TOOL_CATALOG_VERSION {
        if config.tool_catalog_version == 0 {
            config.enabled_tools = unblocked_entries(available_tools, &config.disabled_tools);
        } else {
            let mut enabled = copy_texts(&config.enabled_tools);
            add_new_entries(
                &mut enabled,
                available_tools,
                &config.disabled_tools,
                config.tool_catalog_version,
                false,
            );
            config.enabled_tools = enabled;
        }
        config.tool_catalog_version = TOOL_CATALOG_VERSION;
        changed = true;
    }
    if config.inventory_catalog_version < INVENTORY_CATALOG_VERSION {
        if config.inventory_catalog_version == 0 && config.enabled_inventories.len() == 0
            && config.disabled_inventories.len() == 0 {
            config.enabled_inventories = copy_texts(available_inventories);
        } else {
            let mut enabled = copy_texts(&config.enabled_inventories);
            add_new_entries(
                &mut enabled,
                available_inventories,
                &config.disabled_inventories,
                config.inventory_catalog_version,
                true,
            );
            config.enabled_inventories = enabled;
        }
        config.inventory_catalog_version = INVENTORY_CATALOG_VERSION;
        changed = true;
    }
    changed
}


/// Catalog initialization never enables an entry the user disabled that was not already
/// enabled: a disabled tool or inventory stays out of the selection.
pub proof fn law_disabled_entries_stay_disabled(c: Config, tools: Seq<String>, inventories: Seq<String>, id: Seq<char>)
    ensures
        holds(c.disabled_tools@, id) && !texts(c.enabled_tools@).contains(id)
            ==> !initialized_tools(c, tools).contains(id),
        holds(c.disabled_inventories@, id) && !texts(c.enabled_inventories@).contains(id)
            ==> !initialized_inventories(c, inventories).contains(id),
{
    if holds(c.disabled_tools@, id) && !texts(c.enabled_tools@).contains(id) {
        if c.tool_catalog_version == 0 {
            lemma_unblocked_excludes(tools, c.disabled_tools@, id, tools.len() as int);
        } else if c.tool_catalog_version < TOOL_CATALOG_VERSION {
            lemma_new_entries_exclude(texts(c.enabled_tools@), tools, c.disabled_tools@, c.tool_catalog_version, false, id, tools.len() as int);
        }
    }
    if holds(c.disabled_inventories@, id) && !texts(c.enabled_inventories@).contains(id) {
        if c.inventory_catalog_version < INVENTORY_CATALOG_VERSION {
            if !(c.inventory_catalog_version == 0 && c.enabled_inventories@.len() == 0
                && c.disabled_inventories@.len() == 0) {
                lemma_new_entries_exclude(texts(c.enabled_inventories@), inventories, c.disabled_inventories@, c.inventory_catalog_version, true, id, inventories.len() as int);
            }
        }
    }
}

proof fn lemma_unblocked_excludes(available: Seq<String>, blocked: Seq<String>, id: Seq<char>, n: int)
    requires
        holds(blocked, id),
        n <= available.len(),
    ensures
        !unblocked(available, blocked, n).contains(id),
    decreases n,
{
    if n > 0 {
        lemma_unblocked_excludes(available, blocked, id, n - 1);
        crate::sorting::lemma_push_contains(unblocked(available, blocked, n - 1), available[n - 1]@, id);
    }
}

proof fn lemma_new_entries_exclude(
    enabled: Seq<Seq<char>>,
    available: Seq<String>,
    disabled: Seq<String>,
    since: u32,
    inventory: bool,
    id: Seq<char>,
    n: int,
)
    requires
        holds(disabled, id),
        !enabled.contains(id),
        n <= available.len(),
    ensures
        !with_new_entries(enabled, available, disabled, since, inventory, n).contains(id),
    decreases n,
{
    if n > 0 {
        lemma_new_entries_exclude(enabled, available, disabled, since, inventory, id, n - 1);
        crate::sorting::lemma_push_contains(
            with_new_entries(enabled, available, disabled, since, inventory, n - 1),
            available[n - 1]@,
            id,
        );
    }
}

/// Catalog initialization keeps every choice already made once a catalog was initialized:
/// the earlier selection is a prefix of the new one.
pub proof fn law_existing_choices_are_kept(c: Config, tools: Seq<String>, inventories: Seq<String>)
    ensures
        c.tool_catalog_version != 0 ==> initialized_tools(c, tools).subrange(
            0,
            c.enabled_tools@.len() as int,
        ) == texts(c.enabled_tools@),
        c.inventory_catalog_version != 0 ==> initialized_inventories(c, inventories).subrange(
            0,
            c.enabled_inventories@.len() as int,
        ) == texts(c.enabled_inventories@),
{
    lemma_new_entries_extend(texts(c.enabled_tools@), tools, c.disabled_tools@, c.tool_catalog_version, false, tools.len() as int);
    lemma_new_entries_extend(texts(c.enabled_inventories@), inventories, c.disabled_inventories@, c.inventory_catalog_version, true, inventories.len() as int);
    assert(texts(c.enabled_tools@).subrange(0, c.enabled_tools@.len() as int) =~= texts(c.enabled_tools@));
    assert(texts(c.enabled_inventories@).subrange(0, c.enabled_inventories@.len() as int) =~= texts(c.enabled_inventories@));
}

proof fn lemma_new_entries_extend(
    enabled: Seq<Seq<char>>,
    available: Seq<String>,
    disabled: Seq<String>,
    since: u32,
    inventory: bool,
    n: int,
)
    requires
        n <= available.len(),
    ensures
        with_new_entries(enabled, available, disabled, since, inventory, n).len() >= enabled.len(),
        with_new_entries(enabled, available, disabled, since, inventory, n).subrange(
            0,
            enabled.len() as int,
        ) == enabled,
    decreases n,
{
    if n > 0 {
        lemma_new_entries_extend(enabled, available, disabled, since, inventory, n - 1);
        let prev = with_new_entries(enabled, available, disabled, since, inventory, n - 1);
        assert(prev.push(available[n - 1]@).subrange(0, enabled.len() as int) =~= prev.subrange(
            0,
            enabled.len() as int,
        ));
    } else {
        assert(enabled.subrange(0, enabled.len() as int) =~= enabled);
    }
}

/// Catalog initialization is idempotent: once both catalogs are current, initializing again
/// changes neither selection.
pub proof fn law_initialization_is_idempotent(c: Config, tools: Seq<String>, inventories: Seq<String>)
    requires
        c.tool_catalog_version >= TOOL_CATALOG_VERSION,
        c.inventory_catalog_version >= INVENTORY_CATALOG_VERSION,
    ensures
        initialized_tools(c, tools) == texts(c.enabled_tools@),
        initialized_inventories(c, inventories) == texts(c.enabled_inventories@),
{
}


/// A value written into a TOML document.
#[derive(Debug, PartialEq, Eq)]
pub enum TomlValue {
    Integer(i64),
    Strings(Vec<String>),
    Removed,
}

/// One change to a TOML document: a key and what it becomes.
#[derive(Debug, PartialEq, Eq)]
pub struct TomlEdit {
    pub key: String,
    pub value: TomlValue,
}

/// A value written into a TOML document, as plain values.
pub enum TomlValueView {
    Integer(int),
    Strings(Seq<Seq<char>>),
    Removed,
}

/// The plain values of a list of edits.
pub open spec fn edit_views(edits: Seq<TomlEdit>) -> Seq<(Seq<char>, TomlValueView)> {
    edits.map_values(
        |e: TomlEdit|
            (
                e.key@,
                match e.value {
                    TomlValue::Integer(v) => TomlValueView::Integer(v as int),
                    TomlValue::Strings(v) => TomlValueView::Strings(texts(v@)),
                    TomlValue::Removed => TomlValueView::Removed,
                },
            ),
    )
}

/// Whether `toml_edit` parses the text as a document.
pub uninterp spec fn toml_parses(source: Seq<char>) -> bool;

/// The integer `toml_edit` reads at a top-level key of the text, if any.
pub uninterp spec fn toml_integer(source: Seq<char>, key: Seq<char>) -> Option<int>;

/// The array `toml_edit` reads at a top-level key of the text, each item as a string where it
/// is one.
pub uninterp spec fn toml_string_array(source: Seq<char>, key: Seq<char>) -> Option<
    Seq<Option<Seq<char>>>,
>;

/// The text `toml_edit` writes after applying the edits, in order, to the parsed document.
pub uninterp spec fn toml_edited(source: Seq<char>, edits: Seq<(Seq<char>, TomlValueView)>) -> Seq<
    char,
>;

/// `str::parse::<toml_edit::DocumentMut>`, whether it succeeds. Only the name is claimed.
#[verifier::external_body]
fn document_parses(source: &str) -> (r: bool)
    ensures
        r == toml_parses(source@),
{
    source.parse::<toml_edit::DocumentMut>().is_ok()
}

/// The top-level item at `key` of the parsed document, read with `Item::as_integer`.
#[verifier::external_body]
fn document_integer(source: &str, key: &str) -> (r: Option<i64>)
    ensures
        match r {
            Some(v) => toml_integer(source@, key@) == Some(v as int),
            None => toml_integer(source@, key@) is None,
        },
{
    let document = source.parse::<toml_edit::DocumentMut>().ok()?;
    document.get(key).and_then(|item| item.as_integer())
}

/// The top-level item at `key` of the parsed document, read with `Item::as_array` and each
/// value with `Value::as_str`.
#[verifier::external_body]
fn document_strings(source: &str, key: &str) -> (r: Option<Vec<Option<String>>>)
    ensures
        match r {
            Some(v) => toml_string_array(source@, key@) == Some(
                v@.map_values(
                    |x: Option<String>|
                        match x {
                            Some(s) => Some(s@),
                            None => None,
                        },
                ),
            ),
            None => toml_string_array(source@, key@) is None,
        },
{
    let document = source.parse::<toml_edit::DocumentMut>().ok()?;
    let array = document.get(key).and_then(|item| item.as_array())?;
    Some(array.iter().map(|value| value.as_str().map(String::from)).collect())
}

/// The parsed document after the edits (each an assignment with `toml_edit::value`, or
/// `Table::remove`), written with `Display`; nothing where the text does not parse.
#[verifier::external_body]
fn edit_document(source: &str, edits: &Vec<TomlEdit>) -> (r: Option<String>)
    ensures
        r is Some <==> toml_parses(source@),
        r matches Some(t) ==> t@ == toml_edited(source@, edit_views(edits@)),
{
    let mut document = source.parse::<toml_edit::DocumentMut>().ok()?;
    for edit in edits {
        match &edit.value {
            TomlValue::Integer(v) => document[edit.key.as_str()] = toml_edit::value(*v),
            TomlValue::Strings(items) => {
                let array: toml_edit::Array = items.iter().map(String::as_str).collect();
                document[edit.key.as_str()] = toml_edit::value(array);
            },
            TomlValue::Removed => {
                document.remove(edit.key.as_str());
            },
        }
    }
    Some(document.to_string())
}

/// A migration to write: the backup file name, whether the backup is to be written (it is
/// not where it exists already), and the migrated text.
#[derive(Debug, PartialEq, Eq)]
pub struct Migration {
    pub backup_name: String,
    pub write_backup: bool,
    pub text: String,
}

/// The schema version a configuration text declares; 1 where it declares none.
pub open spec fn declared_schema(source: Seq<char>) -> int {
    match toml_integer(source, "schema_version"@) {
        Some(v) => v,
        None => 1,
    }
}

/// The strings of an array, without its non-string items.
pub open spec fn strings_of(items: Seq<Option<Seq<char>>>, n: int) -> Seq<Seq<char>>
    decreases n,
{
    if n <= 0 {
        Seq::empty()
    } else {
        match items[n - 1] {
            Some(s) => strings_of(items, n - 1).push(s),
            None => strings_of(items, n - 1),
        }
    }
}

/// The tools a version 1 configuration keeps (its `enabled_tools` without `homebrew`, or the
/// first-release defaults where it lists none), and whether Homebrew was enabled.
pub open spec fn v1_selection(source: Seq<char>) -> (Seq<Seq<char>>, bool) {
    match toml_string_array(source, "enabled_tools"@) {
        Some(items) => {
            let listed = strings_of(items, items.len() as int);
            (listed.filter(|t: Seq<char>| t != "homebrew"@), listed.contains("homebrew"@))
        },
        None => (builtin_tool_ids(), true),
    }
}

/// The edits that migrate a version 1 configuration to version 2.
pub open spec fn v1_edits(source: Seq<char>) -> Seq<(Seq<char>, TomlValueView)> {
    let (tools, homebrew) = v1_selection(source);
    seq![
        ("schema_version"@, TomlValueView::Integer(2)),
        ("enabled_tools"@, TomlValueView::Strings(tools)),
        ("enabled_inventories"@, TomlValueView::Strings(if homebrew {
            seq!["homebrew"@]
        } else {
            Seq::empty()
        })),
        ("preferred_install_manager"@, TomlValueView::Removed),
    ]
}

/// Whether a version 2 configuration enables the Homebrew inventory.
pub open spec fn v2_homebrew_enabled(source: Seq<char>) -> bool {
    match toml_string_array(source, "enabled_inventories"@) {
        Some(items) => items.contains(Some("homebrew"@)),
        None => false,
    }
}

/// The edits that migrate a version 2 configuration to version 3.
pub open spec fn v2_edits(source: Seq<char>) -> Seq<(Seq<char>, TomlValueView)> {
    seq![
        ("schema_version"@, TomlValueView::Integer(3)),
        ("disabled_tools"@, TomlValueView::Strings(Seq::empty())),
        ("disabled_inventories"@, TomlValueView::Strings(if v2_homebrew_enabled(source) {
            Seq::empty()
        } else {
            seq!["homebrew"@]
        })),
        ("tool_catalog_version"@, TomlValueView::Integer(0)),
    ]
}

/// The edits that migrate a version 3 configuration to version 4.
pub open spec fn v3_edits() -> Seq<(Seq<char>, TomlValueView)> {
    seq![
        ("schema_version"@, TomlValueView::Integer(4)),
        ("inventory_catalog_version"@, TomlValueView::Integer(0)),
    ]
}

/// What migrating from `from` to the next schema owes: refused where the text is not TOML or
/// declares a schema newer than 4; nothing to do where it declares another schema than `from`
/// (for version 1, any schema from 2 on); else the backup name and the edited text.
pub open spec fn migration_outcome(source: Seq<char>, from: int) -> Result<Option<Seq<char>>, ConfigError> {
    if !toml_parses(source) {
        Err(ConfigError::Invalid)
    } else if declared_schema(source) > 4 {
        Err(ConfigError::Unsupported(declared_schema(source) as i64))
    } else if (from == 1 && declared_schema(source) >= 2) || (from != 1 && declared_schema(source)
        != from) {
        Ok(None)
    } else {
        Ok(
            Some(
                toml_edited(
                    source,
                    if from == 1 {
                        v1_edits(source)
                    } else if from == 2 {
                        v2_edits(source)
                    } else {
                        v3_edits()
                    },
                ),
            ),
        )
    }
}

fn key_edit(key: &str, value: TomlValue) -> (r: TomlEdit)
    ensures
        r.key@ == key@,
        r.value == value,
{
    TomlEdit { key: owned(key), value }
}

fn owned_list(items: &Vec<Vec<char>>) -> (r: Vec<String>)
    ensures
        texts(r@) == crate::text::char_rows(items@),
{
    let mut out: Vec<String> = Vec::new();
    let mut i: usize = 0;
    while i < items.len()
        invariant
            i <= items@.len(),
            texts(out@) == crate::text::char_rows(items@).subrange(0, i as int),
        decreases items.len() - i,
    {
        let ghost before = out@;
        let item = string_from_chars(&items[i]);
        let ghost iv = item@;
        out.push(item);
        proof {
            assert(texts(out@) =~= texts(before).push(iv));
            assert(crate::text::char_rows(items@).subrange(0, i + 1) =~= crate::text::char_rows(items@).subrange(0, i as int).push(items@[i as int]@));
        }
        i = i + 1;
    }
    assert(crate::text::char_rows(items@).subrange(0, items@.len() as int) =~= crate::text::char_rows(items@));
    out
}

fn declared_version(source: &str) -> (r: i64)
    ensures
        r as int == declared_schema(source@),
{
    match document_integer(source, "schema_version") {
        Some(v) => v,
        None => 1,
    }
}

fn migration_result(source: &str, edits: &Vec<TomlEdit>, backup: &str, backup_exists: bool) -> (r:
    Result<Option<Migration>, ConfigError>)
    requires
        toml_parses(source@),
    ensures
        r matches Ok(Some(m)) && m.text@ == toml_edited(source@, edit_views(edits@))
            && m.backup_name@ == backup@ && m.write_backup == !backup_exists,
{
    match edit_document(source, edits) {
        Some(text) => Ok(Some(Migration { backup_name: owned(backup), write_backup: !backup_exists, text })),
        None => {
            proof {
                assert(false);
            }
            Err(ConfigError::Invalid)
        },
    }
}

/// Migrates a version 1 configuration to version 2: the tools it enabled except `homebrew`
/// (the first-release defaults where it lists none), the Homebrew inventory where it enabled
/// `homebrew` (or listed no tools), and `preferred_install_manager` removed; comments and
/// unknown keys are kept. The backup is `config.toml.v1.bak`.
pub fn migrate_v1(source: &str, backup_exists: bool) -> (r: Result<Option<Migration>, ConfigError>)
    ensures
        match migration_outcome(source@, 1) {
            Err(e) => r == Err::<Option<Migration>, ConfigError>(e),
            Ok(None) => r matches Ok(None),
            Ok(Some(t)) => r matches Ok(Some(m)) && m.text@ == t && m.backup_name@
                == "config.toml.v1.bak"@ && m.write_backup == !backup_exists,
        },
{
    if !document_parses(source) {
        return Err(ConfigError::Invalid);
    }
    let version = declared_version(source);
    if version > 4 {
        return Err(ConfigError::Unsupported(version));
    }
    if version >= 2 {
        return Ok(None);
    }
    let mut tools: Vec<Vec<char>> = Vec::new();
    let mut homebrew = false;
    let ghost selection = v1_selection(source@);
    match document_strings(source, "enabled_tools") {
        Some(items) => {
            let ghost iv = items@.map_values(|x: Option<String>| match x {
                Some(s) => Some(s@),
                None => None,
            });
            let ghost listed = strings_of(iv, iv.len() as int);
            let mut i: usize = 0;
            while i < items.len()
                invariant
                    iv == items@.map_values(|x: Option<String>| match x {
                        Some(s) => Some(s@),
                        None => None,
                    }),
                    i <= items@.len(),
                    crate::text::char_rows(tools@) == strings_of(iv, i as int).filter(
                        |t: Seq<char>| t != "homebrew"@,
                    ),
                    homebrew == strings_of(iv, i as int).contains("homebrew"@),
                decreases items.len() - i,
            {
                let ghost prev = strings_of(iv, i as int);
                match &items[i] {
                    Some(t) => {
                        let ghost before = crate::text::char_rows(tools@);
                        proof {
                            assert(iv[i as int] == Some(t@));
                            assert(strings_of(iv, i + 1) == prev.push(t@));
                            crate::sorting::lemma_push_contains(prev, t@, "homebrew"@);
                            assert(prev.push(t@).filter(|x: Seq<char>| x != "homebrew"@) == (if t@
                                != "homebrew"@ {
                                prev.filter(|x: Seq<char>| x != "homebrew"@).push(t@)
                            } else {
                                prev.filter(|x: Seq<char>| x != "homebrew"@)
                            })) by {
                                reveal(Seq::<Seq<char>>::filter);
                                assert(prev.push(t@).drop_last() =~= prev);
                            }
                        }
                        if str_eq(t.as_str(), "homebrew") {
                            homebrew = true;
                        } else {
                            tools.push(chars_of(t.as_str()));
                            proof {
                                assert(crate::text::char_rows(tools@) =~= before.push(t@));
                            }
                        }
                    },
                    None => {
                        proof {
                            assert(iv[i as int] is None);
                        }
                    },
                }
                i = i + 1;
            }
        },
        None => {
            homebrew = true;
            let builtin = builtin_tools();
            let mut i: usize = 0;
            while i < builtin.len()
                invariant
                    texts(builtin@) == builtin_tool_ids(),
                    i <= builtin@.len(),
                    crate::text::char_rows(tools@) == builtin_tool_ids().subrange(0, i as int),
                decreases builtin.len() - i,
            {
                let ghost before = tools@;
                let item = chars_of(builtin[i].as_str());
                let ghost iv = item@;
                tools.push(item);
                proof {
                    assert(crate::text::char_rows(tools@) =~= crate::text::char_rows(before).push(iv));
                    assert(texts(builtin@)[i as int] == iv);
                    assert(builtin_tool_ids().subrange(0, i + 1) =~= builtin_tool_ids().subrange(0, i as int).push(iv));
                }
                i = i + 1;
            }
            proof {
                assert(builtin_tool_ids().subrange(0, builtin@.len() as int) =~= builtin_tool_ids());
            }
        },
    }
    let mut inventories: Vec<String> = Vec::new();
    if homebrew {
        inventories.push(owned("homebrew"));
    }
    let tool_list = owned_list(&tools);
    let mut edits: Vec<TomlEdit> = Vec::new();
    edits.push(key_edit("schema_version", TomlValue::Integer(2)));
    edits.push(key_edit("enabled_tools", TomlValue::Strings(tool_list)));
    let ghost inv_texts = texts(inventories@);
    edits.push(key_edit("enabled_inventories", TomlValue::Strings(inventories)));
    edits.push(key_edit("preferred_install_manager", TomlValue::Removed));
    proof {
        assert(inv_texts =~= (if selection.1 {
            seq!["homebrew"@]
        } else {
            Seq::<Seq<char>>::empty()
        }));
        assert(edit_views(edits@) =~= v1_edits(source@));
    }
    migration_result(source, &edits, "config.toml.v1.bak", backup_exists)
}

/// Migrates a version 2 configuration to version 3: no disabled tools, the Homebrew inventory
/// disabled where it was not enabled, and the tool catalog to be initialized; the backup is
/// `config.toml.v2.bak`.
pub fn migrate_v2(source: &str, backup_exists: bool) -> (r: Result<Option<Migration>, ConfigError>)
    ensures
        match migration_outcome(source@, 2) {
            Err(e) => r == Err::<Option<Migration>, ConfigError>(e),
            Ok(None) => r matches Ok(None),
            Ok(Some(t)) => r matches Ok(Some(m)) && m.text@ == t && m.backup_name@
                == "config.toml.v2.bak"@ && m.write_backup == !backup_exists,
        },
{
    if !document_parses(source) {
        return Err(ConfigError::Invalid);
    }
    let version = declared_version(source);
    if version > 4 {
        return Err(ConfigError::Unsupported(version));
    }
    if version != 2 {
        return Ok(None);
    }
    let mut homebrew_enabled = false;
    match document_strings(source, "enabled_inventories") {
        Some(items) => {
            let ghost iv = items@.map_values(|x: Option<String>| match x {
                Some(s) => Some(s@),
                None => None,
            });
            let mut i: usize = 0;
            while i < items.len()
                invariant
                    iv == items@.map_values(|x: Option<String>| match x {
                        Some(s) => Some(s@),
                        None => None,
                    }),
                    i <= items@.len(),
                    homebrew_enabled == iv.subrange(0, i as int).contains(Some("homebrew"@)),
                decreases items.len() - i,
            {
                let ghost prev = iv.subrange(0, i as int);
                proof {
                    assert(iv.subrange(0, i + 1) =~= prev.push(iv[i as int]));
                    crate::sorting::lemma_push_contains(prev, iv[i as int], Some("homebrew"@));
                }
                match &items[i] {
                    Some(t) => {
                        if str_eq(t.as_str(), "homebrew") {
                            homebrew_enabled = true;
                        }
                    },
                    None => {},
                }
                i = i + 1;
            }
            proof {
                assert(iv.subrange(0, iv.len() as int) =~= iv);
            }
        },
        None => {},
    }
    let mut disabled_inventories: Vec<String> = Vec::new();
    if !homebrew_enabled {
        disabled_inventories.push(owned("homebrew"));
    }
    let mut edits: Vec<TomlEdit> = Vec::new();
    edits.push(key_edit("schema_version", TomlValue::Integer(3)));
    let no_tools: Vec<String> = Vec::new();
    proof {
        assert(texts(no_tools@) =~= Seq::<Seq<char>>::empty());
    }
    edits.push(key_edit("disabled_tools", TomlValue::Strings(no_tools)));
    let ghost dis = texts(disabled_inventories@);
    edits.push(key_edit("disabled_inventories", TomlValue::Strings(disabled_inventories)));
    edits.push(key_edit("tool_catalog_version", TomlValue::Integer(0)));
    proof {
        assert(dis =~= (if v2_homebrew_enabled(source@) {
            Seq::<Seq<char>>::empty()
        } else {
            seq!["homebrew"@]
        }));
        assert(edit_views(edits@) =~= v2_edits(source@));
    }
    migration_result(source, &edits, "config.toml.v2.bak", backup_exists)
}

/// Migrates a version 3 configuration to version 4: the inventory catalog to be initialized;
/// the backup is `config.toml.v3.bak`.
pub fn migrate_v3(source: &str, backup_exists: bool) -> (r: Result<Option<Migration>, ConfigError>)
    ensures
        match migration_outcome(source@, 3) {
            Err(e) => r == Err::<Option<Migration>, ConfigError>(e),
            Ok(None) => r matches Ok(None),
            Ok(Some(t)) => r matches Ok(Some(m)) && m.text@ == t && m.backup_name@
                == "config.toml.v3.bak"@ && m.write_backup == !backup_exists,
        },
{
    if !document_parses(source) {
        return Err(ConfigError::Invalid);
    }
    let version = declared_version(source);
    if version > 4 {
        return Err(ConfigError::Unsupported(version));
    }
    if version != 3 {
        return Ok(None);
    }
    let mut edits: Vec<TomlEdit> = Vec::new();
    edits.push(key_edit("schema_version", TomlValue::Integer(4)));
    edits.push(key_edit("inventory_catalog_version", TomlValue::Integer(0)));
    proof {
        assert(edit_views(edits@) =~= v3_edits());
    }
    migration_result(source, &edits, "config.toml.v3.bak", backup_exists)
}

/// The edits that write every setting of a configuration into an existing file.
pub open spec fn save_edits(c: Config) -> Seq<(Seq<char>, TomlValueView)> {
    seq![
        ("schema_version"@, TomlValueView::Integer(c.schema_version as int)),
        ("enabled_tools"@, TomlValueView::Strings(texts(c.enabled_tools@))),
        ("disabled_tools"@, TomlValueView::Strings(texts(c.disabled_tools@))),
        ("enabled_inventories"@, TomlValueView::Strings(texts(c.enabled_inventories@))),
        ("disabled_inventories"@, TomlValueView::Strings(texts(c.disabled_inventories@))),
        ("tool_catalog_version"@, TomlValueView::Integer(c.tool_catalog_version as int)),
        ("inventory_catalog_version"@, TomlValueView::Integer(c.inventory_catalog_version as int)),
        ("history_limit"@, TomlValueView::Integer(c.history_limit as int)),
        ("command_timeout_seconds"@, TomlValueView::Integer(c.command_timeout_seconds as int)),
    ]
}

/// The text of an existing configuration file with every setting of `config` written into
/// it, keeping comments and unknown keys; refused where the file is not TOML. Settings too
/// large for a TOML integer are refused as well.
pub fn saved_text(existing: &str, config: &Config) -> (r: Result<String, ConfigError>)
    requires
        config.history_limit <= i64::MAX,
        config.command_timeout_seconds <= i64::MAX,
    ensures
        toml_parses(existing@) ==> (r matches Ok(t) && t@ == toml_edited(existing@, save_edits(*config))),
        !toml_parses(existing@) ==> r == Err::<String, ConfigError>(ConfigError::Invalid),
{
    let mut edits: Vec<TomlEdit> = Vec::new();
    edits.push(key_edit("schema_version", TomlValue::Integer(config.schema_version as i64)));
    edits.push(key_edit("enabled_tools", TomlValue::Strings(copy_texts(&config.enabled_tools))));
    edits.push(key_edit("disabled_tools", TomlValue::Strings(copy_texts(&config.disabled_tools))));
    edits.push(key_edit("enabled_inventories", TomlValue::Strings(copy_texts(&config.enabled_inventories))));
    edits.push(key_edit("disabled_inventories", TomlValue::Strings(copy_texts(&config.disabled_inventories))));
    edits.push(key_edit("tool_catalog_version", TomlValue::Integer(config.tool_catalog_version as i64)));
    edits.push(key_edit("inventory_catalog_version", TomlValue::Integer(config.inventory_catalog_version as i64)));
    edits.push(key_edit("history_limit", TomlValue::Integer(config.history_limit as i64)));
    edits.push(key_edit("command_timeout_seconds", TomlValue::Integer(config.command_timeout_seconds as i64)));
    proof {
        assert(edit_views(edits@) =~= save_edits(*config));
    }
    match edit_document(existing, &edits) {
        Some(t) => Ok(t),
        None => Err(ConfigError::Invalid),
    }
}

/// The digits of an unsigned decimal text: without an optional leading `+`.
pub open spec fn unsigned_digits(s: Seq<char>) -> Seq<char> {
    if s.len() > 0 && s[0] == '+' {
        s.drop_first()
    } else {
        s
    }
}

/// Whether a text is one or more ASCII digits.
pub open spec fn all_digits(d: Seq<char>) -> bool {
    d.len() > 0 && forall|i: int| 0 <= i < d.len() ==> '0' <= #[trigger] d[i] <= '9'
}

/// The value of a decimal text as `str::parse` reads an unsigned integer: an optional `+`, then
/// one or more ASCII digits.
pub open spec fn decimal_value(s: Seq<char>) -> Option<int> {
    if all_digits(unsigned_digits(s)) {
        Some(digits_value(unsigned_digits(s)))
    } else {
        None
    }
}

/// The value of a sequence of decimal digits.
pub open spec fn digits_value(d: Seq<char>) -> int
    decreases d.len(),
{
    if d.len() == 0 {
        0
    } else {
        digits_value(d.drop_last()) * 10 + (d.last() as int - '0' as int)
    }
}

/// Reads an unsigned decimal integer as `str::parse::<u64>` does: nothing where the text is not
/// a decimal number or the value exceeds the bound.
pub fn parse_unsigned(text: &str, bound: u64) -> (r: Option<u64>)
    ensures
        match decimal_value(text@) {
            Some(v) => if v <= bound {
                r == Some(v as u64)
            } else {
                r is None
            },
            None => r is None,
        },
        r matches Some(x) ==> x <= bound && decimal_value(text@) == Some(x as int),
{
    let chars = chars_of(text);
    let mut start: usize = 0;
    if chars.len() > 0 && chars[0] == '+' {
        start = 1;
    }
    let ghost digits = unsigned_digits(chars@);
    proof {
        assert(digits =~= chars@.subrange(start as int, chars@.len() as int));
    }
    if start == chars.len() {
        return None;
    }
    let mut value: u64 = 0;
    let mut i = start;
    let mut overflow = false;
    while i < chars.len()
        invariant
            chars@ == text@,
            digits == chars@.subrange(start as int, chars@.len() as int),
            start <= i <= chars@.len(),
            start == 0 || start == 1,
            start == 1 <==> (chars@.len() > 0 && chars@[0] == '+'),
            digits == unsigned_digits(chars@),
            forall|k: int| start <= k < i ==> '0' <= #[trigger] chars@[k] <= '9',
            !overflow ==> value as int == digits_value(chars@.subrange(start as int, i as int)),
            !overflow ==> value <= bound,
            overflow ==> digits_value(chars@.subrange(start as int, i as int)) > bound,
        decreases chars.len() - i,
    {
        let c = chars[i];
        if !('0' <= c && c <= '9') {
            proof {
                assert(digits[i - start] == c);
                assert(!('0' <= digits[i - start] && digits[i - start] <= '9'));
                assert(!all_digits(digits));
            }
            return None;
        }
        let d = (c as u32 - '0' as u32) as u64;
        proof {
            let prefix = chars@.subrange(start as int, i + 1);
            assert(prefix.drop_last() =~= chars@.subrange(start as int, i as int));
            assert(prefix.last() == c);
            lemma_digits_value_non_negative(chars@.subrange(start as int, i as int));
        }
        if !overflow {
            let next: u128 = (value as u128) * 10 + (d as u128);
            if next > bound as u128 {
                overflow = true;
            } else {
                value = next as u64;
            }
        }
        i = i + 1;
    }
    proof {
        assert(chars@.subrange(start as int, chars@.len() as int) == digits);
    }
    if overflow {
        None
    } else {
        Some(value)
    }
}

proof fn lemma_digits_value_non_negative(d: Seq<char>)
    requires
        forall|i: int| 0 <= i < d.len() ==> '0' <= #[trigger] d[i] <= '9',
    ensures
        digits_value(d) >= 0,
    decreases d.len(),
{
    if d.len() > 0 {
        lemma_digits_value_non_negative(d.drop_last());
    }
}

/// What `config set` does to a configuration: `history_limit` and `command_timeout_seconds`
/// take an unsigned integer, and the result is refused where a numeric setting is then zero;
/// any other key is refused. On success, the two numeric settings afterwards; on refusal, the
/// message.
pub open spec fn set_outcome(c: Config, key: Seq<char>, value: Seq<char>) -> Result<(usize, u64), Seq<char>> {
    if key == "history_limit"@ {
        match decimal_value(value) {
            Some(v) => if v <= usize::MAX {
                if v == 0 || c.command_timeout_seconds == 0 {
                    Err("numeric settings must be greater than zero"@)
                } else {
                    Ok((v as usize, c.command_timeout_seconds))
                }
            } else {
                Err("history_limit"@ + " must be a positive integer"@)
            },
            None => Err("history_limit"@ + " must be a positive integer"@),
        }
    } else if key == "command_timeout_seconds"@ {
        match decimal_value(value) {
            Some(v) => if v <= u64::MAX {
                if c.history_limit == 0 || v == 0 {
                    Err("numeric settings must be greater than zero"@)
                } else {
                    Ok((c.history_limit, v as u64))
                }
            } else {
                Err("command_timeout_seconds"@ + " must be a positive integer"@)
            },
            None => Err("command_timeout_seconds"@ + " must be a positive integer"@),
        }
    } else {
        Err("unknown config key `"@ + key + "`"@)
    }
}

/// Changes one scalar setting. Where the value is accepted as a number but a numeric setting
/// is then zero, the setting is still written and the zero is reported, as the command does.
pub fn set_config(config: &mut Config, key: &str, value: &str) -> (r: Result<(), ConfigError>)
    ensures
        match set_outcome(*old(config), key@, value@) {
            Ok((h, t)) => r is Ok && final(config).history_limit == h
                && final(config).command_timeout_seconds == t,
            Err(m) => r matches Err(e) && config_error_text(e) == m,
        },
        final(config).schema_version == old(config).schema_version,
        final(config).enabled_tools == old(config).enabled_tools,
        final(config).disabled_tools == old(config).disabled_tools,
        final(config).enabled_inventories == old(config).enabled_inventories,
        final(config).disabled_inventories == old(config).disabled_inventories,
        final(config).tool_catalog_version == old(config).tool_catalog_version,
        final(config).inventory_catalog_version == old(config).inventory_catalog_version,
{
    if str_eq(key, "history_limit") {
        let bound: u64 = usize::MAX as u64;
        assert(bound == usize::MAX);
        match parse_unsigned(value, bound) {
            Some(v) => {
                assert(v <= usize::MAX);
                config.history_limit = v as usize;
            },
            None => {
                return Err(ConfigError::NotAPositiveInteger(owned("history_limit")));
            },
        }
    } else if str_eq(key, "command_timeout_seconds") {
        match parse_unsigned(value, u64::MAX) {
            Some(v) => {
                config.command_timeout_seconds = v;
            },
            None => {
                return Err(ConfigError::NotAPositiveInteger(owned("command_timeout_seconds")));
            },
        }
    } else {
        return Err(ConfigError::UnknownKey(owned(key)));
    }
    if config.history_limit == 0 || config.command_timeout_seconds == 0 {
        return Err(ConfigError::ZeroSetting);
    }
    Ok(())
}


/// The first `n` available entries not in `blocked` are those entries filtered.
proof fn lemma_unblocked_filters(available: Seq<String>, blocked: Seq<String>, n: int)
    requires
        0 <= n <= available.len(),
    ensures
        unblocked(available, blocked, n) == texts(available.take(n)).filter(
            |id: Seq<char>| !holds(blocked, id),
        ),
    decreases n,
{
    reveal(Seq::filter);
    if n > 0 {
        lemma_unblocked_filters(available, blocked, n - 1);
        assert(texts(available.take(n)).drop_last() =~= texts(available.take(n - 1)));
        assert(texts(available.take(n)).last() == available[n - 1]@);
    }
}

/// An entry that adding new entries brought in is an available entry that is not disabled.
proof fn lemma_new_entries_from(
    enabled: Seq<Seq<char>>,
    available: Seq<String>,
    disabled: Seq<String>,
    since: u32,
    inventory: bool,
    n: int,
    id: Seq<char>,
)
    requires
        0 <= n <= available.len(),
        with_new_entries(enabled, available, disabled, since, inventory, n).contains(id),
        !enabled.contains(id),
    ensures
        texts(available).contains(id),
        !holds(disabled, id),
    decreases n,
{
    let prev = with_new_entries(enabled, available, disabled, since, inventory, n - 1);
    if n > 0 {
        if prev.contains(id) {
            lemma_new_entries_from(enabled, available, disabled, since, inventory, n - 1, id);
        } else {
            let all = with_new_entries(enabled, available, disabled, since, inventory, n);
            let j = choose|j: int| 0 <= j < all.len() && all[j] == id;
            if all != prev {
                assert(all == prev.push(available[n - 1]@));
                if j < prev.len() {
                    assert(prev[j] == id);
                }
                assert(texts(available)[n - 1] == id);
            } else {
                assert(prev.contains(id));
            }
        }
    }
}

/// Catalog initialization: a selection never initialized takes the available tools,
/// in order, less the disabled ones; an initialized tool selection is kept as it is; and every
/// inventory that initialization adds is an available one that is not disabled.
pub proof fn law_catalog_initialization(c: Config, tools: Seq<String>, inventories: Seq<String>)
    ensures
        c.tool_catalog_version == 0 ==> initialized_tools(c, tools) == texts(tools).filter(
            |id: Seq<char>| !holds(c.disabled_tools@, id),
        ),
        c.tool_catalog_version >= 1 ==> initialized_tools(c, tools) == texts(c.enabled_tools@),
        forall|id: Seq<char>|
            #[trigger] initialized_inventories(c, inventories).contains(id) && !texts(
                c.enabled_inventories@,
            ).contains(id) ==> texts(inventories).contains(id) && !holds(c.disabled_inventories@, id),
{
    lemma_unblocked_filters(tools, c.disabled_tools@, tools.len() as int);
    assert(tools.take(tools.len() as int) =~= tools);
    assert forall|id: Seq<char>|
        #[trigger] initialized_inventories(c, inventories).contains(id) && !texts(
            c.enabled_inventories@,
        ).contains(id) implies texts(inventories).contains(id) && !holds(c.disabled_inventories@, id) by {
        if c.inventory_catalog_version < INVENTORY_CATALOG_VERSION {
            if c.inventory_catalog_version == 0 && c.enabled_inventories@.len() == 0
                && c.disabled_inventories@.len() == 0 {
            } else {
                lemma_new_entries_from(
                    texts(c.enabled_inventories@),
                    inventories,
                    c.disabled_inventories@,
                    c.inventory_catalog_version,
                    true,
                    inventories.len() as int,
                    id,
                );
            }
        }
    }
}


/// Whether the source lists `id` among its enabled inventories.
pub open spec fn lists_enabled_inventory(source: Seq<char>, id: Seq<char>) -> bool {
    match toml_string_array(source, "enabled_inventories"@) {
        Some(items) => items.contains(Some(id)),
        None => false,
    }
}

/// Migrating a version 2 configuration disables no inventory it enabled: the text it gives is
/// the source with `disabled_inventories` set to a list that holds no inventory the source
/// lists as enabled, and that holds `homebrew` exactly when the source does not enable it; the
/// schema version it sets is 3.
pub proof fn law_v2_migration_keeps_enabled_inventories(source: Seq<char>)
    ensures
        migration_outcome(source, 2) is Ok && migration_outcome(source, 2)->Ok_0 is Some ==> exists|
            es: Seq<(Seq<char>, TomlValueView)>,
        |
            migration_outcome(source, 2)->Ok_0->0 == toml_edited(source, es) && (exists|i: int|
                0 <= i < es.len() && es[i].0 == "disabled_inventories"@) && forall|i: int|
                0 <= i < es.len() && #[trigger] es[i].0 == "disabled_inventories"@ ==> (es[i].1 matches TomlValueView::Strings(
                    d,
                ) && (forall|j: int| 0 <= j < d.len() ==> !lists_enabled_inventory(source, #[trigger] d[j]))
                    && (d.contains("homebrew"@) <==> !lists_enabled_inventory(source, "homebrew"@)))
                && (exists|i: int| 0 <= i < es.len() && es[i].0 == "schema_version"@) && forall|i: int|
                0 <= i < es.len() && #[trigger] es[i].0 == "schema_version"@ ==> es[i].1
                    == TomlValueView::Integer(3),
{
    reveal_strlit("schema_version");
    reveal_strlit("disabled_tools");
    reveal_strlit("disabled_inventories");
    reveal_strlit("tool_catalog_version");
    reveal_strlit("homebrew");
    let es = v2_edits(source);
    assert(es[0].0 != "disabled_inventories"@) by {
        assert(es[0].0.len() != "disabled_inventories"@.len());
    }
    assert(es[1].0 != "disabled_inventories"@) by {
        assert(es[1].0.len() != "disabled_inventories"@.len());
    }
    assert(es[3].0 != "disabled_inventories"@) by {
        assert(es[3].0[0] != "disabled_inventories"@[0]);
    }
    assert(es[2].0 == "disabled_inventories"@);
    assert(es[0].0 == "schema_version"@);
    assert(es[1].0 != "schema_version"@) by {
        assert(es[1].0[0] != "schema_version"@[0]);
    }
    assert(es[2].0 != "schema_version"@) by {
        assert(es[2].0.len() != "schema_version"@.len());
    }
    assert(es[3].0 != "schema_version"@) by {
        assert(es[3].0.len() != "schema_version"@.len());
    }
    if !v2_homebrew_enabled(source) {
        let d = seq!["homebrew"@];
        assert(d.contains("homebrew"@)) by {
            assert(d[0] == "homebrew"@);
        }
    }
}

} // verus!
