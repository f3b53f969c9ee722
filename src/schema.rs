use vstd::prelude::*;

verus! {

/// The newest schema generation this library knows.
pub const LATEST_SCHEMA_VERSION: i64 = 3;

/// The statement that creates the ledger of applied schema generations.
/// The ledger table: `version INTEGER PRIMARY KEY`, `installed_on TEXT`, `description TEXT`.
pub open spec fn ledger_ddl_text() -> Seq<char> {
    "CREATE TABLE IF NOT EXISTS schema_version (
        version INTEGER PRIMARY KEY,
        installed_on TEXT NOT NULL DEFAULT CURRENT_TIMESTAMP,
        description TEXT NOT NULL
    );"@
}

pub fn ledger_ddl() -> (r: &'static str)
    ensures
        r@ == ledger_ddl_text(),
{
    "CREATE TABLE IF NOT EXISTS schema_version (
        version INTEGER PRIMARY KEY,
        installed_on TEXT NOT NULL DEFAULT CURRENT_TIMESTAMP,
        description TEXT NOT NULL
    );"
}

/// The statement that reads the current schema generation, 0 for a fresh file.
/// The greatest version in the ledger, 0 when it is empty.
pub open spec fn current_version_text() -> Seq<char> {
    "SELECT COALESCE(MAX(version), 0) FROM schema_version"@
}

pub fn current_version_query() -> (r: &'static str)
    ensures
        r@ == current_version_text(),
{
    "SELECT COALESCE(MAX(version), 0) FROM schema_version"
}

/// The statement that records a generation in the ledger; its parameters are the version
/// and the description.
/// One ledger row: the version and its description.
pub open spec fn record_version_text() -> Seq<char> {
    "INSERT INTO schema_version (version, description) VALUES (?1, ?2)"@
}

pub fn record_version_statement() -> (r: &'static str)
    ensures
        r@ == record_version_text(),
{
    "INSERT INTO schema_version (version, description) VALUES (?1, ?2)"
}

/// One step of the schema: the generation it brings the file to, what it adds, and the
/// idempotent statements that add it.
pub struct MigrationStep {
    pub version: i64,
    pub description: &'static str,
    pub statements: &'static str,
}

/// The description each generation is recorded with.
pub open spec fn step_description(v: int) -> Seq<char> {
    if v == 1 {
        "Initial schema"@
    } else if v == 2 {
        "Added software tracking"@
    } else {
        "Added robot management"@
    }
}

/// The idempotent statements each generation runs.
pub open spec fn step_statements(v: int) -> Seq<char> {
    if v == 1 {
        "CREATE TABLE IF NOT EXISTS vulnerabilities (
                    vulnerability_id INTEGER PRIMARY KEY AUTOINCREMENT,
                    cve_id TEXT UNIQUE NOT NULL,
                    description TEXT,
                    severity TEXT NOT NULL,
                    impact TEXT,
                    mitigation TEXT,
                    published_date TEXT
                );
                CREATE INDEX IF NOT EXISTS idx_vulnerability_search
                ON vulnerabilities(cve_id, description);
                CREATE INDEX IF NOT EXISTS idx_vulnerability_sort
                ON vulnerabilities(severity, published_date);"@
    } else if v == 2 {
        "CREATE TABLE IF NOT EXISTS software_products (
                    product_id INTEGER PRIMARY KEY AUTOINCREMENT,
                    product_name TEXT NOT NULL,
                    vendor TEXT NOT NULL,
                    description TEXT,
                    UNIQUE(product_name, vendor)
                );
                CREATE TABLE IF NOT EXISTS software_versions (
                    version_id INTEGER PRIMARY KEY AUTOINCREMENT,
                    product_id INTEGER NOT NULL,
                    version_number TEXT NOT NULL,
                    release_date TEXT,
                    FOREIGN KEY (product_id) REFERENCES software_products(product_id),
                    UNIQUE(product_id, version_number)
                );
                CREATE TABLE IF NOT EXISTS affected_software (
                    vulnerability_id INTEGER NOT NULL,
                    version_id INTEGER NOT NULL,
                    affected_version_pattern TEXT NOT NULL,
                    fixed_in_version TEXT,
                    detection_confidence REAL NOT NULL DEFAULT 1.0,
                    PRIMARY KEY (vulnerability_id, version_id),
                    FOREIGN KEY (vulnerability_id) REFERENCES vulnerabilities(vulnerability_id),
                    FOREIGN KEY (version_id) REFERENCES software_versions(version_id)
                );
                CREATE INDEX IF NOT EXISTS idx_software_product_search
                ON software_products(product_name, vendor);
                CREATE INDEX IF NOT EXISTS idx_software_version_lookup
                ON software_versions(product_id, version_number);
                CREATE INDEX IF NOT EXISTS idx_affected_software_lookup
                ON affected_software(vulnerability_id, version_id);"@
    } else {
        "CREATE TABLE IF NOT EXISTS robots (
                    robot_id INTEGER PRIMARY KEY AUTOINCREMENT,
                    name TEXT NOT NULL,
                    manufacturer TEXT,
                    specifications TEXT,
                    created_at TEXT NOT NULL DEFAULT CURRENT_TIMESTAMP,
                    updated_at TEXT NOT NULL DEFAULT CURRENT_TIMESTAMP
                );
                CREATE TABLE IF NOT EXISTS robot_software (
                    robot_id INTEGER NOT NULL,
                    version_id INTEGER NOT NULL,
                    installed_date TEXT NOT NULL DEFAULT CURRENT_TIMESTAMP,
                    PRIMARY KEY (robot_id, version_id),
                    FOREIGN KEY (robot_id) REFERENCES robots(robot_id) ON DELETE CASCADE,
                    FOREIGN KEY (version_id) REFERENCES software_versions(version_id)
                );
                CREATE INDEX IF NOT EXISTS idx_robot_search
                ON robots(name, manufacturer);
                CREATE INDEX IF NOT EXISTS idx_robot_software_lookup
                ON robot_software(robot_id, version_id);"@
    }
}

/// The step that brings a file to generation `version`, for the known generations.
pub fn migration_step(version: i64) -> (r: Option<MigrationStep>)
    ensures
        r is Some <==> 1 <= version <= LATEST_SCHEMA_VERSION,
        r matches Some(s) ==> s.version == version && s.description@ == step_description(
            version as int,
        ) && s.statements@ == step_statements(version as int),
{
    if version == 1 {
        Some(
            MigrationStep {
                version: 1,
                description: "Initial schema",
                statements: "CREATE TABLE IF NOT EXISTS vulnerabilities (
                    vulnerability_id INTEGER PRIMARY KEY AUTOINCREMENT,
                    cve_id TEXT UNIQUE NOT NULL,
                    description TEXT,
                    severity TEXT NOT NULL,
                    impact TEXT,
                    mitigation TEXT,
                    published_date TEXT
                );
                CREATE INDEX IF NOT EXISTS idx_vulnerability_search
                ON vulnerabilities(cve_id, description);
                CREATE INDEX IF NOT EXISTS idx_vulnerability_sort
                ON vulnerabilities(severity, published_date);",
            },
        )
    } else if version == 2 {
        Some(
            MigrationStep {
                version: 2,
                description: "Added software tracking",
                statements: "CREATE TABLE IF NOT EXISTS software_products (
                    product_id INTEGER PRIMARY KEY AUTOINCREMENT,
                    product_name TEXT NOT NULL,
                    vendor TEXT NOT NULL,
                    description TEXT,
                    UNIQUE(product_name, vendor)
                );
                CREATE TABLE IF NOT EXISTS software_versions (
                    version_id INTEGER PRIMARY KEY AUTOINCREMENT,
                    product_id INTEGER NOT NULL,
                    version_number TEXT NOT NULL,
                    release_date TEXT,
                    FOREIGN KEY (product_id) REFERENCES software_products(product_id),
                    UNIQUE(product_id, version_number)
                );
                CREATE TABLE IF NOT EXISTS affected_software (
                    vulnerability_id INTEGER NOT NULL,
                    version_id INTEGER NOT NULL,
                    affected_version_pattern TEXT NOT NULL,
                    fixed_in_version TEXT,
                    detection_confidence REAL NOT NULL DEFAULT 1.0,
                    PRIMARY KEY (vulnerability_id, version_id),
                    FOREIGN KEY (vulnerability_id) REFERENCES vulnerabilities(vulnerability_id),
                    FOREIGN KEY (version_id) REFERENCES software_versions(version_id)
                );
                CREATE INDEX IF NOT EXISTS idx_software_product_search
                ON software_products(product_name, vendor);
                CREATE INDEX IF NOT EXISTS idx_software_version_lookup
                ON software_versions(product_id, version_number);
                CREATE INDEX IF NOT EXISTS idx_affected_software_lookup
                ON affected_software(vulnerability_id, version_id);",
            },
        )
    } else if version == 3 {
        Some(
            MigrationStep {
                version: 3,
                description: "Added robot management",
                statements: "CREATE TABLE IF NOT EXISTS robots (
                    robot_id INTEGER PRIMARY KEY AUTOINCREMENT,
                    name TEXT NOT NULL,
                    manufacturer TEXT,
                    specifications TEXT,
                    created_at TEXT NOT NULL DEFAULT CURRENT_TIMESTAMP,
                    updated_at TEXT NOT NULL DEFAULT CURRENT_TIMESTAMP
                );
                CREATE TABLE IF NOT EXISTS robot_software (
                    robot_id INTEGER NOT NULL,
                    version_id INTEGER NOT NULL,
                    installed_date TEXT NOT NULL DEFAULT CURRENT_TIMESTAMP,
                    PRIMARY KEY (robot_id, version_id),
                    FOREIGN KEY (robot_id) REFERENCES robots(robot_id) ON DELETE CASCADE,
                    FOREIGN KEY (version_id) REFERENCES software_versions(version_id)
                );
                CREATE INDEX IF NOT EXISTS idx_robot_search
                ON robots(name, manufacturer);
                CREATE INDEX IF NOT EXISTS idx_robot_software_lookup
                ON robot_software(robot_id, version_id);",
            },
        )
    } else {
        None
    }
}

/// What the engine does next from the current generation.
pub enum MigrationAction {
    /// Apply this step and record it in the ledger.
    Apply(MigrationStep),
    /// The file is at the newest generation: nothing to do.
    UpToDate,
    /// The file is at a generation newer than any this library knows; it is left as it is.
    Ahead { version: i64 },
}

/// The generation the next step brings a file at `current` to.
pub open spec fn next_version(current: int) -> int {
    if current < 0 {
        1
    } else {
        current + 1
    }
}

/// Decides the engine's next move from the generation the ledger shows.
pub fn next_migration(current: i64) -> (r: MigrationAction)
    ensures
        current < LATEST_SCHEMA_VERSION ==> (r matches MigrationAction::Apply(s) && s.version
            == next_version(current as int) && s.description@ == step_description(s.version as int)
            && s.statements@ == step_statements(s.version as int)),
        current == LATEST_SCHEMA_VERSION ==> r is UpToDate,
        current > LATEST_SCHEMA_VERSION ==> r == (MigrationAction::Ahead { version: current }),
{
    if current < LATEST_SCHEMA_VERSION {
        let v = if current < 0 {
            1
        } else {
            current + 1
        };
        match migration_step(v) {
            Some(s) => MigrationAction::Apply(s),
            None => MigrationAction::UpToDate,
        }
    } else if current == LATEST_SCHEMA_VERSION {
        MigrationAction::UpToDate
    } else {
        MigrationAction::Ahead { version: current }
    }
}

/// The generations still to apply to a file at `current`, in order.
pub open spec fn pending_versions(current: int) -> Seq<int>
    decreases LATEST_SCHEMA_VERSION - current,
{
    if current >= LATEST_SCHEMA_VERSION {
        Seq::<int>::empty()
    } else {
        seq![next_version(current)] + pending_versions(next_version(current))
    }
}

/// The steps that bring a file at `current` to the newest generation, in order; none when
/// it is there already or beyond it.
pub fn migration_plan(current: i64) -> (r: Vec<MigrationStep>)
    ensures
        r@.map_values(|s: MigrationStep| s.version as int) == pending_versions(current as int),
        forall|i: int| 0 <= i < r@.len() ==> (#[trigger] r@[i]).description@ == step_description(
            r@[i].version as int,
        ) && r@[i].statements@ == step_statements(r@[i].version as int),
{
    let mut steps: Vec<MigrationStep> = Vec::new();
    let mut v = current;
    assert(steps@.map_values(|s: MigrationStep| s.version as int) + pending_versions(v as int)
        =~= pending_versions(current as int));
    while v < LATEST_SCHEMA_VERSION
        invariant
            steps@.map_values(|s: MigrationStep| s.version as int) + pending_versions(v as int)
                == pending_versions(current as int),
            forall|i: int| 0 <= i < steps@.len() ==> (#[trigger] steps@[i]).description@
                == step_description(steps@[i].version as int) && steps@[i].statements@
                == step_statements(steps@[i].version as int),
            v <= LATEST_SCHEMA_VERSION || steps@.len() == 0,
        decreases LATEST_SCHEMA_VERSION - v,
    {
        match next_migration(v) {
            MigrationAction::Apply(s) => {
                let ghost before = steps@;
                let nv = s.version;
                steps.push(s);
                assert(steps@.map_values(|s: MigrationStep| s.version as int) =~= before.map_values(
                    |s: MigrationStep| s.version as int,
                ).push(nv as int));
                v = nv;
            },
            _ => {
                v = LATEST_SCHEMA_VERSION;
            },
        }
    }
    assert(pending_versions(v as int) =~= Seq::<int>::empty());
    assert(steps@.map_values(|s: MigrationStep| s.version as int) =~= pending_versions(current as int));
    steps
}

/// The generation a ledger shows: its greatest version, 0 when empty.
pub open spec fn ledger_version(ledger: Seq<int>) -> int
    decreases ledger.len(),
{
    if ledger.len() == 0 {
        0
    } else {
        let rest = ledger_version(ledger.drop_last());
        if ledger.last() > rest {
            ledger.last()
        } else {
            rest
        }
    }
}

/// The ledger after one run of the engine: each pending generation appended in order.
pub open spec fn run_migrations(ledger: Seq<int>) -> Seq<int> {
    ledger + pending_versions(ledger_version(ledger))
}

/// Versions that rise strictly along the sequence.
pub open spec fn rising(s: Seq<int>) -> bool {
    forall|i: int, j: int| 0 <= i < j < s.len() ==> (#[trigger] s[i]) < (#[trigger] s[j])
}

proof fn lemma_pending_tail(current: int)
    ensures
        current < LATEST_SCHEMA_VERSION ==> pending_versions(current).len() > 0
            && pending_versions(current).last() == LATEST_SCHEMA_VERSION,
        forall|i: int| 0 <= i < pending_versions(current).len() ==> (#[trigger] pending_versions(current)[i]) > current,
        rising(pending_versions(current)),
    decreases LATEST_SCHEMA_VERSION - current,
{
    if current < LATEST_SCHEMA_VERSION {
        lemma_pending_tail(next_version(current));
        let p = pending_versions(current);
        let q = pending_versions(next_version(current));
        assert(p == seq![next_version(current)] + q);
        assert forall|i: int| 0 <= i < p.len() implies (#[trigger] p[i]) > current by {
            if i > 0 {
                assert(p[i] == q[i - 1]);
            }
        }
        assert forall|i: int, j: int| 0 <= i < j < p.len() implies (#[trigger] p[i]) < (#[trigger] p[j]) by {
            assert(p[j] == q[j - 1]);
            if i > 0 {
                assert(p[i] == q[i - 1]);
            }
        }
    }
}

proof fn lemma_ledger_version_append(ledger: Seq<int>, more: Seq<int>)
    requires
        more.len() > 0,
        rising(more),
        more[0] > ledger_version(ledger),
    ensures
        ledger_version(ledger + more) == more.last(),
    decreases more.len(),
{
    let all = ledger + more;
    let init = more.drop_last();
    assert(all.drop_last() =~= ledger + init);
    if more.len() > 1 {
        assert forall|i: int, j: int| 0 <= i < j < init.len() implies (#[trigger] init[i]) < (#[trigger] init[j]) by {
            assert(init[i] == more[i] && init[j] == more[j]);
        }
        assert(init[0] == more[0]);
        lemma_ledger_version_append(ledger, init);
        assert(init.last() == more[more.len() - 2]);
    } else {
        assert(ledger + init =~= ledger);
    }
}

/// Running the engine on a file already at the newest generation changes nothing: the
/// ledger gains no row and the version stays. After any run the file is at the newest
/// generation or beyond, so a second run is always such a no-op.
pub proof fn lemma_rerun_is_noop(ledger: Seq<int>)
    ensures
        ledger_version(ledger) == LATEST_SCHEMA_VERSION ==> run_migrations(ledger) == ledger,
        ledger_version(run_migrations(ledger)) >= LATEST_SCHEMA_VERSION,
        run_migrations(run_migrations(ledger)) == run_migrations(ledger),
{
    let v = ledger_version(ledger);
    lemma_pending_tail(v);
    let p = pending_versions(v);
    if v < LATEST_SCHEMA_VERSION {
        lemma_ledger_version_append(ledger, p);
    } else {
        assert(p =~= Seq::<int>::empty());
        assert(ledger + p =~= ledger);
    }
    let once = run_migrations(ledger);
    let w = ledger_version(once);
    assert(pending_versions(w) =~= Seq::<int>::empty());
    assert(once + pending_versions(w) =~= once);
}

} // verus!
