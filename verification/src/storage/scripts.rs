//! The stored runs of scripts.
use crate::storage::migration::Statement;
use crate::storage::pruning;
use crate::storage::pruning::{prune, EntryView, HistoryEntry};
use crate::text;
use crate::text::{chars_of, debug_text, join2, same};
use vstd::prelude::*;

verus! {

#[derive(Clone, PartialEq, Eq, Debug)]
pub struct StoredScriptRun {
    pub id: String,
    pub mode: String,
    pub input: String,
    pub status: StoredScriptRunStatus,
    pub item_count: usize,
    pub error_code: Option<String>,
    pub error_message: Option<String>,
    pub exit_code: Option<i32>,
    pub failed_item_index: Option<usize>,
}

#[derive(Clone, Copy, PartialEq, Eq, Structural, Debug)]
pub enum StoredScriptRunStatus {
    Submitted,
    PartialError,
    Done,
    Failed,
}

#[derive(Clone, PartialEq, Eq, Debug)]
pub struct StoredScriptItem {
    pub script_id: String,
    pub item_index: usize,
    pub source_text: String,
    pub kind: String,
    pub target_id: Option<String>,
    pub chain_id: Option<String>,
    pub job_ids: Vec<String>,
}

impl StoredScriptRunStatus {
    /// How the status is stored.
    pub open spec fn name(self) -> Seq<char> {
        match self {
            StoredScriptRunStatus::Submitted => "submitted"@,
            StoredScriptRunStatus::PartialError => "partial_error"@,
            StoredScriptRunStatus::Done => "done"@,
            StoredScriptRunStatus::Failed => "failed"@,
        }
    }

    /// A run that has the status is over.
    pub open spec fn is_over(self) -> bool {
        self == StoredScriptRunStatus::Done || self == StoredScriptRunStatus::Failed
    }

    /// How the status is stored.
    pub fn as_str(self) -> (name: &'static str)
        ensures
            name@ == self.name(),
    {
        match self {
            StoredScriptRunStatus::Submitted => "submitted",
            StoredScriptRunStatus::PartialError => "partial_error",
            StoredScriptRunStatus::Done => "done",
            StoredScriptRunStatus::Failed => "failed",
        }
    }

    /// Whether a run that has the status is over.
    pub fn is_terminal(self) -> (result: bool)
        ensures
            result == self.is_over(),
    {
        matches!(self, StoredScriptRunStatus::Done | StoredScriptRunStatus::Failed)
    }
}

/// The position of the first character at or after `i` that is no quotation mark.
pub open spec fn skip_quotes(s: Seq<char>, i: int) -> int
    decreases s.len() - i,
{
    if 0 <= i < s.len() && s[i] == '"' {
        skip_quotes(s, i + 1)
    } else {
        i
    }
}

/// The characters between `start` and `n` with quotation marks at the end dropped: where they end.
pub open spec fn drop_quotes(s: Seq<char>, start: int, n: int) -> int
    decreases n,
{
    if start < n <= s.len() && 0 < n && s[n - 1] == '"' {
        drop_quotes(s, start, n - 1)
    } else {
        n
    }
}

/// A text without the quotation marks around it.
pub open spec fn unquoted(s: Seq<char>) -> Seq<char> {
    let start = skip_quotes(s, 0);
    s.subrange(start, drop_quotes(s, start, s.len() as int))
}

/// The status that a text stands for.
pub open spec fn status_named(s: Seq<char>) -> Option<StoredScriptRunStatus> {
    if unquoted(s) == "submitted"@ {
        Some(StoredScriptRunStatus::Submitted)
    } else if unquoted(s) == "partial_error"@ {
        Some(StoredScriptRunStatus::PartialError)
    } else if unquoted(s) == "done"@ {
        Some(StoredScriptRunStatus::Done)
    } else if unquoted(s) == "failed"@ {
        Some(StoredScriptRunStatus::Failed)
    } else {
        None
    }
}

/// Why a text stands for no status.
pub open spec fn status_fault(s: Seq<char>) -> Seq<char> {
    "unknown script run status "@ + text::debug_of(unquoted(s))
}

proof fn lemma_skip_quotes(s: Seq<char>, i: int)
    requires
        0 <= i <= s.len(),
    ensures
        i <= skip_quotes(s, i) <= s.len(),
    decreases s.len() - i,
{
    if i < s.len() && s[i] == '"' {
        lemma_skip_quotes(s, i + 1);
    }
}

fn trim_quotes(s: &str) -> (result: &str)
    ensures
        result@ == unquoted(s@),
{
    let chars = chars_of(s);
    let mut start: usize = 0;
    while start < chars.len() && chars[start] == '"'
        invariant
            chars@ == s@,
            start <= chars.len(),
            skip_quotes(s@, 0) == skip_quotes(s@, start as int),
        decreases chars.len() - start,
    {
        start = start + 1;
    }
    let mut end: usize = chars.len();
    while end > start && chars[end - 1] == '"'
        invariant
            chars@ == s@,
            start <= end <= chars.len(),
            drop_quotes(s@, start as int, s@.len() as int) == drop_quotes(
                s@,
                start as int,
                end as int,
            ),
        decreases end,
    {
        end = end - 1;
    }
    s.substring_char(start, end)
}

/// Reads a stored status.
pub fn parse_script_run_status(stored: &str) -> (result: Result<StoredScriptRunStatus, String>)
    ensures
        match result {
            Ok(status) => status_named(stored@) == Some(status),
            Err(message) => status_named(stored@) is None && message@ == status_fault(stored@),
        },
{
    let name = trim_quotes(stored);
    if same(name, "submitted") {
        Ok(StoredScriptRunStatus::Submitted)
    } else if same(name, "partial_error") {
        Ok(StoredScriptRunStatus::PartialError)
    } else if same(name, "done") {
        Ok(StoredScriptRunStatus::Done)
    } else if same(name, "failed") {
        Ok(StoredScriptRunStatus::Failed)
    } else {
        let shown = debug_text(name);
        Err(join2("unknown script run status ", shown.as_str()))
    }
}

proof fn lemma_plain_name(s: Seq<char>)
    requires
        s.len() > 0,
        s[0] != '"',
        s.last() != '"',
    ensures
        unquoted(s) == s,
{
    assert(skip_quotes(s, 0) == 0);
    assert(drop_quotes(s, 0, s.len() as int) == s.len());
    assert(s.subrange(0, s.len() as int) =~= s);
}

/// A status that is stored is read back as it was.
pub proof fn stored_status_is_read_back(status: StoredScriptRunStatus)
    ensures
        status_named(status.name()) == Some(status),
{
    reveal_strlit("submitted");
    reveal_strlit("partial_error");
    reveal_strlit("done");
    reveal_strlit("failed");
    lemma_plain_name(status.name());
    assert("submitted"@ != "partial_error"@) by {
        assert("submitted"@.len() != "partial_error"@.len());
    }
    assert("submitted"@ != "done"@) by {
        assert("submitted"@.len() != "done"@.len());
    }
    assert("submitted"@ != "failed"@) by {
        assert("submitted"@.len() != "failed"@.len());
    }
    assert("partial_error"@ != "done"@) by {
        assert("partial_error"@.len() != "done"@.len());
    }
    assert("partial_error"@ != "failed"@) by {
        assert("partial_error"@.len() != "failed"@.len());
    }
    assert("done"@ != "failed"@) by {
        assert("done"@.len() != "failed"@.len());
    }
}

/// Nothing but quotation marks.
pub open spec fn is_quotes(s: Seq<char>) -> bool {
    forall|i: int| 0 <= i < s.len() ==> #[trigger] s[i] == '"'
}

proof fn lemma_leading_quotes(s: Seq<char>, i: int, n: int)
    requires
        0 <= i <= n < s.len(),
        forall|k: int| i <= k < n ==> #[trigger] s[k] == '"',
        s[n] != '"',
    ensures
        skip_quotes(s, i) == n,
    decreases n - i,
{
    if i < n {
        assert(s[i] == '"');
        lemma_leading_quotes(s, i + 1, n);
    }
}

proof fn lemma_trailing_quotes(s: Seq<char>, start: int, end: int, n: int)
    requires
        0 <= start < end <= n <= s.len(),
        forall|k: int| end <= k < n ==> #[trigger] s[k] == '"',
        s[end - 1] != '"',
    ensures
        drop_quotes(s, start, n) == end,
    decreases n - end,
{
    if end < n {
        assert(s[n - 1] == '"');
        lemma_trailing_quotes(s, start, end, n - 1);
    }
}

/// A status is read back from its name in quotation marks, too, however many they are.
pub proof fn quoted_status_is_read_back(
    before: Seq<char>,
    status: StoredScriptRunStatus,
    after: Seq<char>,
)
    requires
        is_quotes(before),
        is_quotes(after),
    ensures
        status_named(before + status.name() + after) == Some(status),
{
    stored_status_is_read_back(status);
    reveal_strlit("submitted");
    reveal_strlit("partial_error");
    reveal_strlit("done");
    reveal_strlit("failed");
    let name = status.name();
    let s = before + name + after;
    let start = before.len() as int;
    let end = start + name.len();
    assert forall|k: int| 0 <= k < start implies #[trigger] s[k] == '"' by {
        assert(s[k] == before[k]);
    }
    assert forall|k: int| end <= k < s.len() implies #[trigger] s[k] == '"' by {
        assert(s[k] == after[k - end]);
    }
    assert(s[start] == name[0]);
    assert(s[end - 1] == name.last());
    lemma_leading_quotes(s, 0, start);
    lemma_trailing_quotes(s, start, end, s.len() as int);
    assert(unquoted(s) =~= name);
    lemma_plain_name(name);
}

/// A script run as its row holds it.
#[derive(Clone, PartialEq, Eq, Debug)]
pub struct ScriptRunRow {
    pub id: String,
    pub mode: String,
    pub input: String,
    pub status: &'static str,
    pub item_count: i64,
    pub error_code: Option<String>,
    pub error_message: Option<String>,
    pub exit_code: Option<i32>,
    pub failed_item_index: Option<i64>,
    /// Whether the row gets the time of writing as the run's end.
    pub finished: bool,
}

/// The row holds what is known of the run.
pub open spec fn is_row_of(row: ScriptRunRow, script: StoredScriptRun) -> bool {
    &&& row.id == script.id
    &&& row.mode == script.mode
    &&& row.input == script.input
    &&& row.status@ == script.status.name()
    &&& row.item_count == script.item_count as i64
    &&& row.error_code == script.error_code
    &&& row.error_message == script.error_message
    &&& row.exit_code == script.exit_code
    &&& row.failed_item_index == match script.failed_item_index {
        Some(index) => Some(index as i64),
        None => None,
    }
    &&& row.finished == script.status.is_over()
}

/// The row of a script run.
pub fn script_run_row(script: StoredScriptRun) -> (row: ScriptRunRow)
    ensures
        is_row_of(row, script),
{
    let failed_item_index = match script.failed_item_index {
        Some(index) => Some(index as i64),
        None => None,
    };
    ScriptRunRow {
        id: script.id,
        mode: script.mode,
        input: script.input,
        status: script.status.as_str(),
        item_count: script.item_count as i64,
        error_code: script.error_code,
        error_message: script.error_message,
        exit_code: script.exit_code,
        failed_item_index,
        finished: script.status.is_terminal(),
    }
}

/// An item of a script run as its row holds it.
#[derive(Clone, PartialEq, Eq, Debug)]
pub struct ScriptItemRow {
    pub script_id: String,
    pub item_index: i64,
    pub source_text: String,
    pub kind: String,
    pub target_id: Option<String>,
    pub chain_id: Option<String>,
    pub job_ids_json: String,
}

/// Texts as a JSON array.
pub uninterp spec fn json_array(texts: Seq<Seq<char>>) -> Seq<char>;

/// Writes texts as a JSON array.
///
/// Calls `serde_json::to_string`. It fails only where a value refuses to be written, a map has a key
/// that is no string, or the writer fails. A list of strings does none of these, and the writer is a
/// vector, so the call succeeds. The result depends on the texts alone; how they are written is not
/// stated.
#[verifier::external_body]
fn texts_to_json(strings: &Vec<String>) -> (result: Result<String, String>)
    ensures
        result is Ok,
        result->Ok_0@ == json_array(text::texts(strings@)),
{
    serde_json::to_string(strings).map_err(|error| error.to_string())
}

/// The row holds what is known of the item, with the names of its jobs written as `json`.
pub open spec fn is_item_row_of(row: ScriptItemRow, item: StoredScriptItem, json: Seq<char>) -> bool {
    &&& row.script_id == item.script_id
    &&& row.item_index == item.item_index as i64
    &&& row.source_text == item.source_text
    &&& row.kind == item.kind
    &&& row.target_id == item.target_id
    &&& row.chain_id == item.chain_id
    &&& row.job_ids_json@ == json
}

/// The row of an item, with the names of its jobs in their written form.
pub fn script_item_row(item: StoredScriptItem, job_ids_json: String) -> (row: ScriptItemRow)
    ensures
        is_item_row_of(row, item, job_ids_json@),
{
    ScriptItemRow {
        script_id: item.script_id,
        item_index: item.item_index as i64,
        source_text: item.source_text,
        kind: item.kind,
        target_id: item.target_id,
        chain_id: item.chain_id,
        job_ids_json,
    }
}

/// The names of an item's jobs as they are written.
pub open spec fn job_ids_json(item: StoredScriptItem) -> Seq<char> {
    json_array(text::texts(item.job_ids@))
}

/// The rows are those of the items, in their order.
pub open spec fn are_item_rows_of(rows: Seq<ScriptItemRow>, items: Seq<StoredScriptItem>) -> bool {
    &&& rows.len() == items.len()
    &&& forall|i: int|
        0 <= i < items.len() ==> is_item_row_of(
            rows[i],
            #[trigger] items[i],
            job_ids_json(items[i]),
        )
}

/// The rows of the items of a run, each with the names of its jobs as JSON.
pub fn script_item_rows(items: Vec<StoredScriptItem>) -> (rows: Vec<ScriptItemRow>)
    ensures
        are_item_rows_of(rows@, items@),
{
    let ghost all = items@;
    let mut rest = items;
    let mut rows: Vec<ScriptItemRow> = Vec::new();
    while rest.len() > 0
        invariant
            all == items@,
            rows@.len() + rest@.len() == all.len(),
            rest@ == all.skip(rows@.len() as int),
            are_item_rows_of(rows@, all.take(rows@.len() as int)),
        decreases rest@.len(),
    {
        let ghost n = rows@.len() as int;
        let ghost before = rows@;
        let item = rest.remove(0);
        assert(item == all[n]);
        match texts_to_json(&item.job_ids) {
            Ok(json) => {
                let row = script_item_row(item, json);
                rows.push(row);
                proof {
                    let taken = all.take(n + 1);
                    assert forall|i: int| 0 <= i < taken.len() implies is_item_row_of(
                        rows@[i],
                        #[trigger] taken[i],
                        job_ids_json(taken[i]),
                    ) by {
                        if i < n {
                            assert(taken[i] == all.take(n)[i]);
                            assert(rows@[i] == before[i]);
                        }
                    }
                }
                assert(rest@ =~= all.skip(n + 1));
            },
            Err(_) => {
                assert(false);
            },
        }
    }
    assert(all.take(rows@.len() as int) =~= all);
    rows
}

/// A statement on the tables of scripts. The statements of one plan are run in one transaction.
#[derive(Clone, PartialEq, Eq, Debug)]
pub enum ScriptStatement {
    /// Write the row of a run, or write over it.
    PutRun(ScriptRunRow),
    /// Remove the items of a run.
    DropItems { script_id: String },
    /// Add an item. No item of that run and place may be there, and the run has to be.
    AddItem(ScriptItemRow),
}

pub const UPSERT_SCRIPT_RUN: &'static str = "INSERT INTO script_runs (
             id, mode, input, status, item_count, error_code, error_message,
             exit_code, failed_item_index, finished_at
         )
         VALUES (
             ?1, ?2, ?3, ?4, ?5, ?6, ?7, ?8, ?9,
             CASE WHEN ?10 THEN datetime('now') ELSE NULL END
         )
         ON CONFLICT(id) DO UPDATE SET
              mode = excluded.mode,
              input = excluded.input,
              status = excluded.status,
              item_count = excluded.item_count,
              error_code = excluded.error_code,
              error_message = excluded.error_message,
              exit_code = excluded.exit_code,
              failed_item_index = excluded.failed_item_index,
              finished_at = CASE WHEN ?10 THEN datetime('now') ELSE NULL END";

pub const DELETE_SCRIPT_ITEMS: &'static str = "DELETE FROM script_items WHERE script_id = ?1";

pub const INSERT_SCRIPT_ITEM: &'static str = "INSERT INTO script_items (
                 script_id, item_index, source_text, kind, target_id, chain_id, job_ids_json
             ) VALUES (?1, ?2, ?3, ?4, ?5, ?6, ?7)";

impl ScriptStatement {
    /// The text of the statement, and what failed if it does. Its parameters are the fields of the
    /// row in their order.
    pub fn statement(&self) -> (statement: Statement)
        ensures
            statement == match *self {
                ScriptStatement::PutRun(_) => Statement {
                    sql: UPSERT_SCRIPT_RUN,
                    context: "upsert script run",
                },
                ScriptStatement::DropItems { .. } => Statement {
                    sql: DELETE_SCRIPT_ITEMS,
                    context: "delete existing script items",
                },
                ScriptStatement::AddItem(_) => Statement {
                    sql: INSERT_SCRIPT_ITEM,
                    context: "insert script item",
                },
            },
    {
        match self {
            ScriptStatement::PutRun(_) => Statement {
                sql: UPSERT_SCRIPT_RUN,
                context: "upsert script run",
            },
            ScriptStatement::DropItems { .. } => Statement {
                sql: DELETE_SCRIPT_ITEMS,
                context: "delete existing script items",
            },
            ScriptStatement::AddItem(_) => Statement {
                sql: INSERT_SCRIPT_ITEM,
                context: "insert script item",
            },
        }
    }
}

/// The statement adds the row of the item.
pub open spec fn adds_item(statement: ScriptStatement, item: StoredScriptItem) -> bool {
    statement matches ScriptStatement::AddItem(row) && is_item_row_of(row, item, job_ids_json(item))
}

/// The statements that write a run and its items: the run, then no items, then each item.
pub open spec fn is_upsert(
    statements: Seq<ScriptStatement>,
    script: StoredScriptRun,
    items: Seq<StoredScriptItem>,
) -> bool {
    &&& statements.len() == items.len() + 2
    &&& statements[0] matches ScriptStatement::PutRun(row) && is_row_of(row, script)
    &&& statements[1] == (ScriptStatement::DropItems { script_id: script.id })
    &&& forall|i: int|
        0 <= i < items.len() ==> adds_item(statements[i + 2], #[trigger] items[i])
}

/// Plans the statements that write a run and its items in place of what was stored of it.
pub fn upsert_script_run(script: StoredScriptRun, items: Vec<StoredScriptItem>) -> (statements: Vec<
    ScriptStatement,
>)
    ensures
        is_upsert(statements@, script, items@),
{
    let ghost all = items@;
    let mut rows = script_item_rows(items);
    let ghost written = rows@;
    let id = script.id.clone();
    let mut statements: Vec<ScriptStatement> = Vec::new();
    statements.push(ScriptStatement::PutRun(script_run_row(script)));
    statements.push(ScriptStatement::DropItems { script_id: id });
    while rows.len() > 0
        invariant
            rows@.len() <= written.len(),
            rows@ == written.skip(written.len() - rows@.len()),
            statements@.len() == written.len() - rows@.len() + 2,
            statements@[0] matches ScriptStatement::PutRun(row) && is_row_of(row, script),
            statements@[1] == (ScriptStatement::DropItems { script_id: script.id }),
            forall|i: int|
                0 <= i < written.len() - rows@.len() ==> statements@[i + 2]
                    == ScriptStatement::AddItem(#[trigger] written[i]),
        decreases rows@.len(),
    {
        let ghost n = written.len() - rows@.len();
        let row = rows.remove(0);
        assert(row == written[n]);
        statements.push(ScriptStatement::AddItem(row));
        assert(rows@ =~= written.skip(n + 1));
    }
    assert forall|i: int| 0 <= i < all.len() implies adds_item(
        statements@[i + 2],
        #[trigger] all[i],
    ) by {
        assert(statements@[i + 2] == ScriptStatement::AddItem(written[i]));
    }
    statements
}

/// The tables of scripts: the runs by their names, the items by their run and their place.
#[verifier::ext_equal]
pub struct ScriptTables {
    pub runs: Map<Seq<char>, ScriptRunRow>,
    pub items: Map<(Seq<char>, i64), ScriptItemRow>,
}

/// The place of an item.
pub open spec fn item_key(row: ScriptItemRow) -> (Seq<char>, i64) {
    (row.script_id@, row.item_index)
}

/// The tables after a statement, unless it fails.
pub open spec fn after_statement(tables: ScriptTables, statement: ScriptStatement) -> Option<
    ScriptTables,
> {
    match statement {
        ScriptStatement::PutRun(row) => Some(
            ScriptTables { runs: tables.runs.insert(row.id@, row), items: tables.items },
        ),
        ScriptStatement::DropItems { script_id } => Some(
            ScriptTables {
                runs: tables.runs,
                items: tables.items.restrict(
                    Set::new(|key: (Seq<char>, i64)| key.0 != script_id@),
                ),
            },
        ),
        ScriptStatement::AddItem(row) => if tables.items.contains_key(item_key(row))
            || !tables.runs.contains_key(row.script_id@) {
            None
        } else {
            Some(
                ScriptTables {
                    runs: tables.runs,
                    items: tables.items.insert(item_key(row), row),
                },
            )
        },
    }
}

/// The tables after statements, unless one of them fails.
pub open spec fn after_statements(
    tables: ScriptTables,
    statements: Seq<ScriptStatement>,
) -> Option<ScriptTables>
    decreases statements.len(),
{
    if statements.len() == 0 {
        Some(tables)
    } else {
        match after_statements(tables, statements.drop_last()) {
            Some(tables) => after_statement(tables, statements.last()),
            None => None,
        }
    }
}

/// The tables after a transaction, of whose statements the first `taken` succeeded: as before,
/// unless all of them did.
pub open spec fn after_transaction(
    tables: ScriptTables,
    statements: Seq<ScriptStatement>,
    taken: int,
) -> ScriptTables {
    if taken < statements.len() {
        tables
    } else {
        match after_statements(tables, statements) {
            Some(after) => after,
            None => tables,
        }
    }
}

/// The first `n` items of a run have different places in it.
pub open spec fn have_own_places(items: Seq<StoredScriptItem>, n: int) -> bool {
    forall|i: int, j: int|
        0 <= i < j < n ==> (#[trigger] items[i]).item_index as i64 != (
        #[trigger] items[j]).item_index as i64
}

/// Some of the first `n` items has the place.
pub open spec fn has_place(items: Seq<StoredScriptItem>, place: i64, n: int) -> bool {
    exists|i: int| 0 <= i < n && (#[trigger] items[i]).item_index as i64 == place
}

/// The tables hold the run, of its items the first `n` of those given and no others, and of other
/// runs what they held before.
pub open spec fn holds_run(
    before: ScriptTables,
    script: StoredScriptRun,
    items: Seq<StoredScriptItem>,
    n: int,
    after: ScriptTables,
) -> bool {
    &&& after.runs.dom() == before.runs.dom().insert(script.id@)
    &&& is_row_of(after.runs[script.id@], script)
    &&& forall|id: Seq<char>|
        id != script.id@ && before.runs.contains_key(id) ==> #[trigger] after.runs[id]
            == before.runs[id]
    &&& forall|key: (Seq<char>, i64)|
        key.0 != script.id@ ==> (#[trigger] after.items.contains_key(key)
            == before.items.contains_key(key)) && (before.items.contains_key(key)
            ==> after.items[key] == before.items[key])
    &&& forall|place: i64| #[trigger]
        after.items.contains_key((script.id@, place)) <==> has_place(items, place, n)
    &&& forall|i: int|
        0 <= i < n ==> is_item_row_of(
            after.items[(script.id@, (#[trigger] items[i]).item_index as i64)],
            items[i],
            job_ids_json(items[i]),
        )
}

proof fn lemma_upsert(
    before: ScriptTables,
    script: StoredScriptRun,
    items: Seq<StoredScriptItem>,
    statements: Seq<ScriptStatement>,
    n: int,
)
    requires
        is_upsert(statements, script, items),
        forall|i: int| 0 <= i < items.len() ==> (#[trigger] items[i]).script_id@ == script.id@,
        0 <= n <= items.len(),
        have_own_places(items, n),
    ensures
        after_statements(before, statements.take(n + 2)) matches Some(after) && holds_run(
            before,
            script,
            items,
            n,
            after,
        ),
    decreases n,
{
    let taken = statements.take(n + 2);
    if n == 0 {
        let first = statements.take(1);
        let none = statements.take(0);
        assert(first.drop_last() =~= none);
        assert(taken.drop_last() =~= first);
        assert(after_statements(before, none) == Some(before));
        let row = statements[0]->PutRun_0;
        let with_run = ScriptTables { runs: before.runs.insert(row.id@, row), items: before.items };
        assert(after_statements(before, first) == Some(with_run));
        let after = after_statements(before, taken)->0;
        assert(after.runs.dom() =~= before.runs.dom().insert(script.id@));
        assert forall|place: i64| #[trigger]
            after.items.contains_key((script.id@, place)) <==> has_place(items, place, 0) by {}
    } else {
        lemma_upsert(before, script, items, statements, n - 1);
        assert(taken.drop_last() =~= statements.take(n + 1));
        let middle = after_statements(before, statements.take(n + 1))->0;
        let item = items[n - 1];
        let place = item.item_index as i64;
        assert(adds_item(statements[n - 1 + 2], items[n - 1]));
        let row = statements[n + 1]->AddItem_0;
        assert(taken.last() == ScriptStatement::AddItem(row));
        assert(is_item_row_of(row, item, job_ids_json(item)));
        assert(!has_place(items, place, n - 1)) by {
            if has_place(items, place, n - 1) {
                let i = choose|i: int|
                    0 <= i < n - 1 && (#[trigger] items[i]).item_index as i64 == place;
                assert(items[i].item_index as i64 != items[n - 1].item_index as i64);
            }
        }
        assert(!middle.items.contains_key((script.id@, place)));
        assert(middle.runs.contains_key(script.id@));
        let after = after_statements(before, taken)->0;
        assert(after.items == middle.items.insert((script.id@, place), row));
        assert forall|p: i64| #[trigger]
            after.items.contains_key((script.id@, p)) <==> has_place(items, p, n) by {
            assert(middle.items.contains_key((script.id@, p)) <==> has_place(items, p, n - 1));
            if has_place(items, p, n) && p != place {
                let i = choose|i: int|
                    0 <= i < n && (#[trigger] items[i]).item_index as i64 == p;
                assert(i != n - 1);
            }
            if p == place {
                assert(items[n - 1].item_index as i64 == p);
            }
        }
        assert forall|key: (Seq<char>, i64)| key.0 != script.id@ implies (
        #[trigger] after.items.contains_key(key) == before.items.contains_key(key)) && (
        before.items.contains_key(key) ==> after.items[key] == before.items[key]) by {
            assert(middle.items.contains_key(key) == before.items.contains_key(key));
        }
        assert forall|i: int| 0 <= i < n implies is_item_row_of(
            after.items[(script.id@, (#[trigger] items[i]).item_index as i64)],
            items[i],
            job_ids_json(items[i]),
        ) by {
            if i < n - 1 {
                assert(items[i].item_index as i64 != place);
            }
        }
    }
}

proof fn lemma_repeated_place(
    before: ScriptTables,
    script: StoredScriptRun,
    items: Seq<StoredScriptItem>,
    statements: Seq<ScriptStatement>,
    n: int,
)
    requires
        is_upsert(statements, script, items),
        forall|i: int| 0 <= i < items.len() ==> (#[trigger] items[i]).script_id@ == script.id@,
        0 <= n <= items.len(),
        !have_own_places(items, n),
    ensures
        after_statements(before, statements.take(n + 2)) is None,
    decreases n,
{
    let taken = statements.take(n + 2);
    assert(n > 0);
    assert(taken.drop_last() =~= statements.take(n + 1));
    if !have_own_places(items, n - 1) {
        lemma_repeated_place(before, script, items, statements, n - 1);
    } else {
        lemma_upsert(before, script, items, statements, n - 1);
        let middle = after_statements(before, statements.take(n + 1))->0;
        let place = items[n - 1].item_index as i64;
        assert(adds_item(statements[n - 1 + 2], items[n - 1]));
        assert(is_item_row_of(
            statements[n + 1]->AddItem_0,
            items[n - 1],
            job_ids_json(items[n - 1]),
        ));
        let (i, j) = choose|i: int, j: int|
            0 <= i < j < n && (#[trigger] items[i]).item_index as i64 == (
            #[trigger] items[j]).item_index as i64;
        assert(j == n - 1);
        assert(has_place(items, place, n - 1));
        assert(middle.items.contains_key((script.id@, place)));
    }
}

/// Writing a run writes it whole or not at all. Where every statement succeeds, there is one row for
/// the run, its items are exactly those given, and other runs keep their rows and items. Where one
/// does not, nothing has changed; two items in one place are such a failure.
pub proof fn script_run_is_written_whole(
    before: ScriptTables,
    script: StoredScriptRun,
    items: Seq<StoredScriptItem>,
    statements: Seq<ScriptStatement>,
    taken: int,
)
    requires
        is_upsert(statements, script, items),
        forall|i: int| 0 <= i < items.len() ==> (#[trigger] items[i]).script_id@ == script.id@,
        0 <= taken <= statements.len(),
    ensures
        taken == statements.len() && have_own_places(items, items.len() as int) ==> holds_run(
            before,
            script,
            items,
            items.len() as int,
            after_transaction(before, statements, taken),
        ),
        taken < statements.len() || !have_own_places(items, items.len() as int)
            ==> after_transaction(before, statements, taken) == before,
{
    assert(statements.take(items.len() as int + 2) =~= statements);
    if have_own_places(items, items.len() as int) {
        lemma_upsert(before, script, items, statements, items.len() as int);
    } else {
        lemma_repeated_place(before, script, items, statements, items.len() as int);
    }
}

/// A row that was read, with the number of its id, where it could be decoded.
#[derive(Clone, PartialEq, Eq, Debug)]
pub struct ScriptRecord {
    pub id: String,
    pub number: Option<u32>,
    pub status: String,
}

/// Why an id is none.
pub open spec fn script_id_fault(id: Seq<char>) -> Seq<char> {
    "invalid script run id "@ + id
}

/// Why an id among the first `n` is none.
pub open spec fn first_id_fault(records: Seq<ScriptRecord>, n: int) -> Option<Seq<char>>
    decreases n,
{
    if n <= 0 || n > records.len() {
        None
    } else if first_id_fault(records, n - 1) is Some {
        first_id_fault(records, n - 1)
    } else if records[n - 1].number is None {
        Some(script_id_fault(records[n - 1].id@))
    } else {
        None
    }
}

/// The greatest number among the first `n`.
pub open spec fn greatest_number(records: Seq<ScriptRecord>, n: int) -> Option<u32>
    decreases n,
{
    if n <= 0 || n > records.len() {
        None
    } else {
        let number = records[n - 1].number->0;
        match greatest_number(records, n - 1) {
            Some(greatest) => Some(
                if number > greatest {
                    number
                } else {
                    greatest
                },
            ),
            None => Some(number),
        }
    }
}

/// The greatest number that a script run has had.
pub fn max_script_run_id(records: &Vec<ScriptRecord>) -> (result: Result<Option<u32>, String>)
    ensures
        match result {
            Ok(greatest) => {
                &&& first_id_fault(records@, records@.len() as int) is None
                &&& greatest == greatest_number(records@, records@.len() as int)
            },
            Err(message) => first_id_fault(records@, records@.len() as int) == Some(message@),
        },
{
    let mut greatest: Option<u32> = None;
    for i in 0..records.len()
        invariant
            first_id_fault(records@, i as int) is None,
            greatest == greatest_number(records@, i as int),
    {
        match records[i].number {
            Some(number) => {
                greatest = match greatest {
                    Some(found) => if number > found {
                        Some(number)
                    } else {
                        Some(found)
                    },
                    None => Some(number),
                };
            },
            None => {
                proof {
                    lemma_first_id_fault(records@, i + 1, records@.len() as int);
                }
                return Err(join2("invalid script run id ", records[i].id.as_str()));
            },
        }
    }
    Ok(greatest)
}

proof fn lemma_first_id_fault(records: Seq<ScriptRecord>, from: int, to: int)
    requires
        0 <= from <= to <= records.len(),
        first_id_fault(records, from) is Some,
    ensures
        first_id_fault(records, to) == first_id_fault(records, from),
    decreases to - from,
{
    if from < to {
        lemma_first_id_fault(records, from, to - 1);
    }
}

/// No stored run has a greater number than the greatest.
pub proof fn no_run_has_a_greater_number(records: Seq<ScriptRecord>, n: int, i: int)
    requires
        0 <= i < n <= records.len(),
    ensures
        greatest_number(records, n) matches Some(greatest) && records[i].number->0 <= greatest,
    decreases n,
{
    if i < n - 1 {
        no_run_has_a_greater_number(records, n - 1, i);
    }
}

/// Why a row cannot be read.
pub open spec fn script_fault(record: ScriptRecord) -> Option<Seq<char>> {
    if record.number is None {
        Some(script_id_fault(record.id@))
    } else if status_named(record.status@) is None {
        Some(status_fault(record.status@))
    } else {
        None
    }
}

/// Why the first of the first `n` rows that cannot be read cannot.
pub open spec fn first_script_fault(records: Seq<ScriptRecord>, n: int) -> Option<Seq<char>>
    decreases n,
{
    if n <= 0 || n > records.len() {
        None
    } else if first_script_fault(records, n - 1) is Some {
        first_script_fault(records, n - 1)
    } else {
        script_fault(records[n - 1])
    }
}

proof fn lemma_first_script_fault(records: Seq<ScriptRecord>, from: int, to: int)
    requires
        0 <= from <= to <= records.len(),
        first_script_fault(records, from) is Some,
    ensures
        first_script_fault(records, to) == first_script_fault(records, from),
    decreases to - from,
{
    if from < to {
        lemma_first_script_fault(records, from, to - 1);
    }
}

/// The runs as entries of a history.
pub open spec fn script_entries(records: Seq<ScriptRecord>) -> Seq<EntryView> {
    records.map_values(
        |record: ScriptRecord|
            EntryView {
                id: record.id@,
                number: record.number->0,
                finished: status_named(record.status@)->0.is_over(),
            },
    )
}

/// The ids of the script runs that go so that no more than `keep` runs that are over stay. If a
/// row cannot be read, none goes.
pub fn prune_script_runs(records: &Vec<ScriptRecord>, keep: usize) -> (result: Result<
    Vec<String>,
    String,
>)
    ensures
        match result {
            Ok(removed) => {
                &&& first_script_fault(records@, records@.len() as int) is None
                &&& text::texts(removed@) == pruning::ids_of(
                    pruning::pruned(script_entries(records@), keep),
                )
            },
            Err(message) => first_script_fault(records@, records@.len() as int) == Some(message@),
        },
{
    let mut entries: Vec<HistoryEntry> = Vec::new();
    for i in 0..records.len()
        invariant
            first_script_fault(records@, i as int) is None,
            entries.len() == i,
            forall|j: int| 0 <= j < i ==> (#[trigger] entries@[j])@ == script_entries(records@)[j],
    {
        match records[i].number {
            Some(number) => {
                match parse_script_run_status(records[i].status.as_str()) {
                    Ok(status) => {
                        entries.push(
                            HistoryEntry {
                                id: records[i].id.clone(),
                                number,
                                finished: status.is_terminal(),
                            },
                        );
                    },
                    Err(message) => {
                        proof {
                            lemma_first_script_fault(records@, i + 1, records@.len() as int);
                        }
                        return Err(message);
                    },
                }
            },
            None => {
                proof {
                    lemma_first_script_fault(records@, i + 1, records@.len() as int);
                }
                return Err(join2("invalid script run id ", records[i].id.as_str()));
            },
        }
    }
    assert(pruning::entry_views(entries@) =~= script_entries(records@));
    Ok(prune(entries, keep))
}

/// Every status is stored under its own name, and read back from it with quotation marks around it or
/// without. A run is over exactly where it is done or has failed.
pub proof fn status_goes_through_storage(
    status: StoredScriptRunStatus,
    name: &'static str,
    over: bool,
    before: Seq<char>,
    after: Seq<char>,
    stored: &str,
    read: Result<StoredScriptRunStatus, String>,
)
    requires
        call_ensures(StoredScriptRunStatus::as_str, (status,), name),
        call_ensures(StoredScriptRunStatus::is_terminal, (status,), over),
        is_quotes(before),
        is_quotes(after),
        stored@ == before + name@ + after,
        call_ensures(parse_script_run_status, (stored,), read),
    ensures
        read == Ok::<StoredScriptRunStatus, String>(status),
        status == StoredScriptRunStatus::Submitted ==> name@ == "submitted"@ && !over,
        status == StoredScriptRunStatus::PartialError ==> name@ == "partial_error"@ && !over,
        status == StoredScriptRunStatus::Done ==> name@ == "done"@ && over,
        status == StoredScriptRunStatus::Failed ==> name@ == "failed"@ && over,
{
    quoted_status_is_read_back(before, status, after);
}

/// A text that is no name of a status is refused.
pub proof fn unknown_status_is_refused(stored: &str, read: Result<StoredScriptRunStatus, String>)
    requires
        call_ensures(parse_script_run_status, (stored,), read),
        stored@.len() > 0,
        stored@[0] != '"',
        stored@.last() != '"',
        stored@ != "submitted"@,
        stored@ != "partial_error"@,
        stored@ != "done"@,
        stored@ != "failed"@,
    ensures
        read is Err,
{
    lemma_plain_name(stored@);
}

/// A run goes into its row field by field, and gets a time of its end exactly where it is over.
pub proof fn run_is_written_field_by_field(script: StoredScriptRun, row: ScriptRunRow)
    requires
        call_ensures(script_run_row, (script,), row),
    ensures
        row.id == script.id,
        row.mode == script.mode,
        row.input == script.input,
        row.item_count == script.item_count as i64,
        row.error_code == script.error_code,
        row.error_message == script.error_message,
        row.exit_code == script.exit_code,
        row.failed_item_index is Some <==> script.failed_item_index is Some,
        script.failed_item_index matches Some(index) ==> row.failed_item_index == Some(
            index as i64,
        ),
        row.finished <==> script.status == StoredScriptRunStatus::Done || script.status
            == StoredScriptRunStatus::Failed,
        script.status == StoredScriptRunStatus::Submitted ==> row.status@ == "submitted"@,
        script.status == StoredScriptRunStatus::PartialError ==> row.status@ == "partial_error"@,
        script.status == StoredScriptRunStatus::Done ==> row.status@ == "done"@,
        script.status == StoredScriptRunStatus::Failed ==> row.status@ == "failed"@,
{
}

/// A run is put first, then its old items go, and then each of its items is added in its order, field by
/// field and with its own jobs.
pub proof fn run_is_written_before_its_items(
    script: StoredScriptRun,
    items: Vec<StoredScriptItem>,
    statements: Vec<ScriptStatement>,
    i: int,
)
    requires
        call_ensures(upsert_script_run, (script, items), statements),
    ensures
        statements@.len() == items@.len() + 2,
        statements@[0] matches ScriptStatement::PutRun(row) && row.id == script.id && row.input
            == script.input && row.mode == script.mode,
        statements@[1] matches ScriptStatement::DropItems { script_id } && script_id == script.id,
        0 <= i < items@.len() ==> (statements@[i + 2] matches ScriptStatement::AddItem(row)
            && row.script_id == items@[i].script_id && row.item_index
            == items@[i].item_index as i64 && row.source_text == items@[i].source_text && row.kind
            == items@[i].kind && row.target_id == items@[i].target_id && row.chain_id
            == items@[i].chain_id && row.job_ids_json@ == json_array(
            text::texts(items@[i].job_ids@),
        )),
{
    if 0 <= i < items@.len() {
        assert(adds_item(statements@[i + 2], items@[i]));
    }
}

/// Every item has a row at its place, field by field.
pub proof fn items_are_written_field_by_field(
    items: Vec<StoredScriptItem>,
    rows: Vec<ScriptItemRow>,
    i: int,
    item: StoredScriptItem,
    json: String,
    row: ScriptItemRow,
)
    requires
        call_ensures(script_item_rows, (items,), rows),
        call_ensures(script_item_row, (item, json), row),
    ensures
        rows@.len() == items@.len(),
        0 <= i < items@.len() ==> rows@[i].script_id == items@[i].script_id && rows@[i].item_index
            == items@[i].item_index as i64 && rows@[i].source_text == items@[i].source_text
            && rows@[i].kind == items@[i].kind && rows@[i].target_id == items@[i].target_id
            && rows@[i].chain_id == items@[i].chain_id && rows@[i].job_ids_json@ == json_array(
            text::texts(items@[i].job_ids@),
        ),
        row.script_id == item.script_id && row.item_index == item.item_index as i64
            && row.source_text == item.source_text && row.kind == item.kind && row.target_id
            == item.target_id && row.chain_id == item.chain_id && row.job_ids_json@ == json@,
{
    if 0 <= i < items@.len() {
        assert(is_item_row_of(rows@[i], items@[i], job_ids_json(items@[i])));
    }
}

proof fn lemma_greatest_is_one(records: Seq<ScriptRecord>, n: int) -> (i: int)
    requires
        0 < n <= records.len(),
    ensures
        0 <= i < n,
        greatest_number(records, n) == Some(records[i].number->0),
    decreases n,
{
    if n == 1 {
        assert(greatest_number(records, 0) is None);
        0
    } else {
        let i = lemma_greatest_is_one(records, n - 1);
        if records[n - 1].number->0 > records[i].number->0 {
            n - 1
        } else {
            i
        }
    }
}

proof fn lemma_no_id_fault(records: Seq<ScriptRecord>, n: int)
    requires
        0 <= n <= records.len(),
    ensures
        first_id_fault(records, n) is None <==> forall|i: int|
            0 <= i < n ==> (#[trigger] records[i]).number is Some,
    decreases n,
{
    if n > 0 {
        lemma_no_id_fault(records, n - 1);
        if first_id_fault(records, n) is None {
            assert(records[n - 1].number is Some);
        }
    }
}

/// The greatest number is one that a run has, and none has a greater one. There is none exactly without
/// runs. Where the id of a run cannot be read, it is not known.
pub proof fn greatest_number_is_taken(
    records: &Vec<ScriptRecord>,
    result: Result<Option<u32>, String>,
    i: int,
)
    requires
        call_ensures(max_script_run_id, (records,), result),
    ensures
        result is Ok <==> forall|k: int|
            0 <= k < records@.len() ==> (#[trigger] records@[k]).number is Some,
        result matches Ok(greatest) ==> (greatest is None <==> records@.len() == 0),
        result matches Ok(Some(greatest)) ==> exists|k: int|
            0 <= k < records@.len() && (#[trigger] records@[k]).number == Some(greatest),
        result matches Ok(Some(greatest)) ==> (0 <= i < records@.len() ==> records@[i].number->0
            <= greatest),
{
    let n = records@.len() as int;
    lemma_no_id_fault(records@, n);
    if n > 0 {
        let k = lemma_greatest_is_one(records@, n);
        if result is Ok {
            assert(records@[k].number is Some);
        }
    }
    if 0 <= i < n {
        no_run_has_a_greater_number(records@, n, i);
    }
}

proof fn lemma_no_script_fault(records: Seq<ScriptRecord>, n: int)
    requires
        0 <= n <= records.len(),
    ensures
        first_script_fault(records, n) is None <==> forall|i: int|
            0 <= i < n ==> script_fault(#[trigger] records[i]) is None,
    decreases n,
{
    if n > 0 {
        lemma_no_script_fault(records, n - 1);
        if first_script_fault(records, n) is None {
            assert(script_fault(records[n - 1]) is None);
        }
    }
}

proof fn lemma_runs_that_are_over(
    records: Seq<ScriptRecord>,
    statuses: Seq<StoredScriptRunStatus>,
    n: int,
)
    requires
        statuses.len() == records.len(),
        forall|i: int|
            0 <= i < records.len() ==> status_named((#[trigger] records[i]).status@) == Some(
                statuses[i],
            ),
        0 <= n <= records.len(),
    ensures
        script_entries(records).take(n).filter(pruning::is_finished()).len() == statuses.take(
            n,
        ).filter(
            |status: StoredScriptRunStatus|
                status == StoredScriptRunStatus::Done || status == StoredScriptRunStatus::Failed,
        ).len(),
    decreases n,
{
    reveal(Seq::filter);
    if n > 0 {
        lemma_runs_that_are_over(records, statuses, n - 1);
        let entries = script_entries(records);
        assert(entries.take(n).drop_last() =~= entries.take(n - 1));
        assert(statuses.take(n).drop_last() =~= statuses.take(n - 1));
        assert(status_named(records[n - 1].status@) == Some(statuses[n - 1]));
        assert(entries.take(n).last() == entries[n - 1]);
    }
}

/// Pruning the runs of scripts takes as many as are over beyond those that are kept, the oldest first. A
/// run that is not over stays.
pub proof fn unfinished_runs_stay(
    records: &Vec<ScriptRecord>,
    statuses: Seq<StoredScriptRunStatus>,
    keep: usize,
    removed: Vec<String>,
    a: int,
    b: int,
)
    requires
        call_ensures(prune_script_runs, (records, keep), Ok::<Vec<String>, String>(removed)),
        statuses.len() == records@.len(),
        forall|i: int|
            0 <= i < records@.len() ==> status_named((#[trigger] records@[i]).status@) == Some(
                statuses[i],
            ),
        0 <= a < records@.len(),
        0 <= b < records@.len(),
        forall|i: int, j: int|
            0 <= i < j < records@.len() ==> (#[trigger] records@[i]).id@ != (
            #[trigger] records@[j]).id@,
    ensures
        ({
            let gone = text::texts(removed@);
            let total = statuses.filter(
                |status: StoredScriptRunStatus|
                    status == StoredScriptRunStatus::Done || status
                        == StoredScriptRunStatus::Failed,
            ).len();
            let over = |i: int|
                statuses[i] == StoredScriptRunStatus::Done || statuses[i]
                    == StoredScriptRunStatus::Failed;
            &&& removed@.len() == if total > keep {
                total - keep
            } else {
                0
            }
            &&& !over(a) ==> !gone.contains(records@[a].id@)
            &&& gone.contains(records@[a].id@) && over(b) && !gone.contains(records@[b].id@)
                ==> records@[a].number->0 <= records@[b].number->0
            &&& keep == 0 && over(a) ==> gone.contains(records@[a].id@)
        }),
{
    let entries = script_entries(records@);
    let n = records@.len() as int;
    lemma_runs_that_are_over(records@, statuses, n);
    assert(entries.take(n) =~= entries);
    assert(statuses.take(n) =~= statuses);
    assert forall|i: int, j: int| 0 <= i < j < entries.len() implies (#[trigger] entries[i]).id != (
    #[trigger] entries[j]).id by {
        assert(records@[i].id@ != records@[j].id@);
    }
    pruning::lemma_pruning(entries, keep, a, b);
    assert(entries[a].id == records@[a].id@);
    assert(entries[b].id == records@[b].id@);
    assert(status_named(records@[a].status@) == Some(statuses[a]));
    assert(status_named(records@[b].status@) == Some(statuses[b]));
    assert(text::texts(removed@).len() == removed@.len());
}

/// Nothing is pruned exactly where the id or the status of a run cannot be read.
pub proof fn unreadable_run_stops_pruning(
    records: &Vec<ScriptRecord>,
    keep: usize,
    result: Result<Vec<String>, String>,
)
    requires
        call_ensures(prune_script_runs, (records, keep), result),
    ensures
        result is Ok <==> forall|i: int|
            0 <= i < records@.len() ==> (#[trigger] records@[i]).number is Some && status_named(
                records@[i].status@,
            ) is Some,
{
    lemma_no_script_fault(records@, records@.len() as int);
    assert forall|i: int| 0 <= i < records@.len() implies (script_fault(#[trigger] records@[i]) is None
        <==> records@[i].number is Some && status_named(records@[i].status@) is Some) by {}
}

} // verus!
