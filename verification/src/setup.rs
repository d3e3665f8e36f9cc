//! Bringing the clipboard database up to date: what to ask of it, and what to
//! change in it.

use crate::cell::Datum;
use crate::database;
use crate::database::ClipboardTable;
use crate::database_laws;
use crate::entry;
use crate::entry::Entry;
use crate::history_laws;
use crate::text;
use vstd::prelude::*;
use vstd::string::*;

verus! {

/// The version of the table as it is made now.
pub const CURRENT_VERSION: i64 = 1;

/// The path of a file in a directory.
pub open spec fn path_in(directory: Seq<char>, name: Seq<char>) -> Seq<char> {
    if directory.len() == 0 || directory.last() == '/' {
        directory + name
    } else {
        directory + "/"@ + name
    }
}

/// The path of the database: in the given directory, which is the one that the
/// program is in, or in the one for temporary files where that is not known.
pub fn database_path(directory: Option<String>) -> (path: String)
    ensures
        path@ == path_in(
            match directory {
                Some(directory) => directory@,
                None => "/tmp"@,
            },
            "clipboard.db"@,
        ),
{
    let mut path: String = match directory {
        Some(directory) => directory,
        None => "/tmp".to_string(),
    };
    let chars = text::chars_of(path.as_str());
    if chars.len() > 0 && chars[chars.len() - 1] != '/' {
        path.append("/");
    }
    path.append("clipboard.db");
    path
}

/// The columns that the first tables did not have.
#[derive(Debug, Clone, Copy, PartialEq, Eq, Structural)]
pub enum ImageColumn {
    Width,
    Height,
}

/// What is to be asked of the database next.
#[derive(Debug, Clone, Copy, PartialEq, Eq, Structural)]
pub enum SetupState {
    /// Whether there is a table.
    Table,
    /// What the version of the table is.
    Version,
    /// Whether the table has a column.
    Column(ImageColumn),
    /// Which rows the table has.
    Rows,
    /// Nothing: the database is up to date.
    Ready,
}

/// What the database answers.
#[derive(Debug)]
pub enum SetupEvent {
    /// Whether there is a table; `None` where that could not be told.
    TableExists(Option<bool>),
    Version(i64),
    ColumnExists(bool),
    Rows(ClipboardTable),
}

/// A change to the database.
#[derive(Debug, PartialEq, Eq)]
pub enum SetupAction {
    /// Make the table as it is made now.
    CreateTable,
    SetVersion(i64),
    AddColumn(ImageColumn),
    /// Delete the rows with the given keys.
    DeleteRows(Vec<i64>),
}

/// The value of a `SetupEvent`.
pub enum Answer {
    TableExists(Option<bool>),
    Version(int),
    ColumnExists(bool),
    Rows(Seq<Entry>),
}

/// The value of a `SetupAction`.
#[verifier::ext_equal]
pub enum Change {
    CreateTable,
    SetVersion(int),
    AddColumn(ImageColumn),
    DeleteRows(Seq<int>),
}

impl View for SetupEvent {
    type V = Answer;

    open spec fn view(&self) -> Answer {
        match self {
            SetupEvent::TableExists(exists) => Answer::TableExists(*exists),
            SetupEvent::Version(version) => Answer::Version(*version as int),
            SetupEvent::ColumnExists(exists) => Answer::ColumnExists(*exists),
            SetupEvent::Rows(table) => Answer::Rows(table@),
        }
    }
}

impl View for SetupAction {
    type V = Change;

    open spec fn view(&self) -> Change {
        match self {
            SetupAction::CreateTable => Change::CreateTable,
            SetupAction::SetVersion(version) => Change::SetVersion(*version as int),
            SetupAction::AddColumn(column) => Change::AddColumn(*column),
            SetupAction::DeleteRows(ids) => Change::DeleteRows(
                ids@.map_values(|id: i64| id as int),
            ),
        }
    }
}

/// What a list of changes says.
pub open spec fn changes_of(actions: Seq<SetupAction>) -> Seq<Change> {
    actions.map_values(|action: SetupAction| action@)
}

/// What is asked after a column.
pub open spec fn after_column(column: ImageColumn) -> SetupState {
    match column {
        ImageColumn::Width => SetupState::Column(ImageColumn::Height),
        ImageColumn::Height => SetupState::Rows,
    }
}

/// What an answer leads to: the next question, and the changes to make before it.
/// An answer to another question leads nowhere.
pub open spec fn next_step(state: SetupState, answer: Answer) -> Option<
    (SetupState, Seq<Change>),
> {
    match (state, answer) {
        (SetupState::Table, Answer::TableExists(exists)) => if exists == Some(true) {
            Some((SetupState::Version, Seq::empty()))
        } else {
            Some(
                (
                    SetupState::Ready,
                    seq![Change::CreateTable, Change::SetVersion(CURRENT_VERSION as int)],
                ),
            )
        },
        (SetupState::Version, Answer::Version(version)) => if version < CURRENT_VERSION {
            Some((SetupState::Column(ImageColumn::Width), Seq::empty()))
        } else {
            Some((SetupState::Ready, Seq::empty()))
        },
        (SetupState::Column(column), Answer::ColumnExists(exists)) => if exists {
            Some((after_column(column), Seq::empty()))
        } else {
            Some((after_column(column), seq![Change::AddColumn(column)]))
        },
        (SetupState::Rows, Answer::Rows(entries)) => Some(
            (
                SetupState::Ready,
                seq![
                    Change::DeleteRows(database::ids_of(database::dropped_by_purge(entries))),
                    Change::SetVersion(CURRENT_VERSION as int),
                ],
            ),
        ),
        _ => None,
    }
}

/// What an answer of the database leads to: the next question, and the changes to
/// make before it; `None` for an answer to another question.
pub fn setup_step(state: SetupState, event: SetupEvent) -> (next: Option<
    (SetupState, Vec<SetupAction>),
>)
    requires
        event matches SetupEvent::Rows(table) ==> table.wf(),
    ensures
        match next {
            Some((after, actions)) => next_step(state, event@) == Some(
                (after, changes_of(actions@)),
            ),
            None => next_step(state, event@) is None,
        },
{
    let mut actions: Vec<SetupAction> = Vec::new();
    assert(changes_of(actions@) == Seq::<Change>::empty());
    match (state, event) {
        (SetupState::Table, SetupEvent::TableExists(exists)) => {
            let there: bool = match exists {
                Some(b) => b,
                None => false,
            };
            if there {
                Some((SetupState::Version, actions))
            } else {
                actions.push(SetupAction::CreateTable);
                actions.push(SetupAction::SetVersion(CURRENT_VERSION));
                assert(changes_of(actions@) == seq![
                    Change::CreateTable,
                    Change::SetVersion(CURRENT_VERSION as int),
                ]);
                Some((SetupState::Ready, actions))
            }
        },
        (SetupState::Version, SetupEvent::Version(version)) => {
            if version < CURRENT_VERSION {
                Some((SetupState::Column(ImageColumn::Width), actions))
            } else {
                Some((SetupState::Ready, actions))
            }
        },
        (SetupState::Column(column), SetupEvent::ColumnExists(exists)) => {
            let after: SetupState = match column {
                ImageColumn::Width => SetupState::Column(ImageColumn::Height),
                ImageColumn::Height => SetupState::Rows,
            };
            if !exists {
                actions.push(SetupAction::AddColumn(column));
                assert(changes_of(actions@) == seq![Change::AddColumn(column)]);
            }
            Some((after, actions))
        },
        (SetupState::Rows, SetupEvent::Rows(rows)) => {
            let mut table: ClipboardTable = rows;
            let ids: Vec<i64> = database::purge_clipboard(&mut table);
            let ghost expected = database::ids_of(database::dropped_by_purge(rows@));
            actions.push(SetupAction::DeleteRows(ids));
            actions.push(SetupAction::SetVersion(CURRENT_VERSION));
            assert(changes_of(actions@) == seq![
                Change::DeleteRows(expected),
                Change::SetVersion(CURRENT_VERSION as int),
            ]);
            Some((SetupState::Ready, actions))
        },
        _ => None,
    }
}

/// The name of a column.
pub open spec fn column_name(column: ImageColumn) -> Seq<char> {
    match column {
        ImageColumn::Width => "image_width"@,
        ImageColumn::Height => "image_height"@,
    }
}

/// The name of a column.
pub fn name_of_column(column: ImageColumn) -> (name: &'static str)
    ensures
        name@ == column_name(column),
{
    match column {
        ImageColumn::Width => "image_width",
        ImageColumn::Height => "image_height",
    }
}

/// The statement that adds a column to the table.
pub fn add_column_statement(column: ImageColumn) -> (statement: String)
    ensures
        statement@ == "ALTER TABLE clipboard_entries ADD COLUMN "@ + column_name(column)
            + " INTEGER"@,
{
    let mut statement: String = "ALTER TABLE clipboard_entries ADD COLUMN ".to_string();
    statement.append(name_of_column(column));
    statement.append(" INTEGER");
    statement
}

/// A database, as far as bringing it up to date goes.
#[verifier::ext_equal]
pub struct Store {
    /// Whether there is a table.
    pub table: bool,
    pub version: int,
    /// Whether the table has a column for the width of an image.
    pub width: bool,
    /// Whether the table has a column for the height of an image.
    pub height: bool,
    pub entries: Seq<Entry>,
}

/// What a database answers to a question.
pub open spec fn answer_of(store: Store, state: SetupState) -> Answer {
    match state {
        SetupState::Table => Answer::TableExists(Some(store.table)),
        SetupState::Version => Answer::Version(store.version),
        SetupState::Column(ImageColumn::Width) => Answer::ColumnExists(store.width),
        SetupState::Column(ImageColumn::Height) => Answer::ColumnExists(store.height),
        SetupState::Rows => Answer::Rows(store.entries),
        SetupState::Ready => Answer::TableExists(None),
    }
}

/// A database after a change.
pub open spec fn changed(store: Store, change: Change) -> Store {
    match change {
        Change::CreateTable => Store {
            table: true,
            width: true,
            height: true,
            entries: Seq::empty(),
            ..store
        },
        Change::SetVersion(version) => Store { version, ..store },
        Change::AddColumn(ImageColumn::Width) => Store { width: true, ..store },
        Change::AddColumn(ImageColumn::Height) => Store { height: true, ..store },
        Change::DeleteRows(ids) => Store {
            entries: database_laws::without_ids(store.entries, ids),
            ..store
        },
    }
}

/// A database after changes, made one after the other.
pub open spec fn all_changed(store: Store, changes: Seq<Change>) -> Store
    decreases changes.len(),
{
    if changes.len() == 0 {
        store
    } else {
        changed(all_changed(store, changes.drop_last()), changes.last())
    }
}

/// The question and the database after the given number of questions were asked
/// and answered, and the changes made that the answers lead to.
pub open spec fn after_questions(store: Store, state: SetupState, questions: nat) -> (
    SetupState,
    Store,
)
    decreases questions,
{
    if questions == 0 || state == SetupState::Ready {
        (state, store)
    } else {
        match next_step(state, answer_of(store, state)) {
            Some((next, changes)) => after_questions(
                all_changed(store, changes),
                next,
                (questions - 1) as nat,
            ),
            None => (state, store),
        }
    }
}

/// A database that is up to date: as it was where its version is the present one;
/// with an empty table where there was none; else with the columns that were
/// missing, and without the rows that are broken or too old to keep.
pub open spec fn up_to_date(store: Store) -> Store {
    if !store.table {
        Store {
            table: true,
            version: CURRENT_VERSION as int,
            width: true,
            height: true,
            entries: Seq::empty(),
        }
    } else if store.version >= CURRENT_VERSION {
        store
    } else {
        Store {
            table: true,
            version: CURRENT_VERSION as int,
            width: true,
            height: true,
            entries: database::after_purge(store.entries),
        }
    }
}

proof fn lemma_no_change(store: Store)
    ensures
        all_changed(store, Seq::empty()) == store,
{
}

proof fn lemma_one_change(store: Store, change: Change)
    ensures
        all_changed(store, seq![change]) == changed(store, change),
{
    assert(seq![change].drop_last() == Seq::<Change>::empty());
    lemma_no_change(store);
}

proof fn lemma_two_changes(store: Store, first: Change, second: Change)
    ensures
        all_changed(store, seq![first, second]) == changed(changed(store, first), second),
{
    assert(seq![first, second].drop_last() == seq![first]);
    lemma_one_change(store, first);
}

/// Asking the database what is to be asked, and changing what is to be changed,
/// comes to an end after at most five questions, with the database up to date.
pub proof fn setup_brings_up_to_date(store: Store)
    requires
        database::is_sorted(store.entries),
        database::has_distinct_ids(store.entries),
    ensures
        after_questions(store, SetupState::Table, 5) == (SetupState::Ready, up_to_date(store)),
{
    reveal_with_fuel(after_questions, 6);
    let version = CURRENT_VERSION as int;
    lemma_no_change(store);
    lemma_two_changes(store, Change::CreateTable, Change::SetVersion(version));
    lemma_one_change(store, Change::AddColumn(ImageColumn::Width));
    let wide = Store { width: true, ..store };
    lemma_no_change(wide);
    lemma_one_change(wide, Change::AddColumn(ImageColumn::Height));
    let full = Store { width: true, height: true, ..store };
    let ids = database::ids_of(database::dropped_by_purge(store.entries));
    lemma_two_changes(full, Change::DeleteRows(ids), Change::SetVersion(version));
    database_laws::purge_gives_the_keys_to_delete(store.entries);
    assert(store.width ==> wide == store);
    assert(store.height ==> full == wide);
}

/// A database that is up to date stays as it is when it is brought up to date.
pub proof fn setup_is_done_once(store: Store)
    ensures
        up_to_date(up_to_date(store)) == up_to_date(store),
{
}

/// A database without a table gets one, of version 1. With a table, its version is
/// asked for.
pub proof fn a_missing_table_is_made(exists: Option<bool>)
    ensures
        exists != Some(true) ==> next_step(SetupState::Table, Answer::TableExists(exists)) == Some(
            (SetupState::Ready, seq![Change::CreateTable, Change::SetVersion(1)]),
        ),
        next_step(SetupState::Table, Answer::TableExists(Some(true))) == Some(
            (SetupState::Version, Seq::<Change>::empty()),
        ),
{
}

/// A table of version 1 or later stays as it is; of an earlier one the columns are
/// asked for.
pub proof fn only_old_tables_are_changed(version: int)
    ensures
        version >= 1 ==> next_step(SetupState::Version, Answer::Version(version)) == Some(
            (SetupState::Ready, Seq::<Change>::empty()),
        ),
        version < 1 ==> next_step(SetupState::Version, Answer::Version(version)) == Some(
            (SetupState::Column(ImageColumn::Width), Seq::<Change>::empty()),
        ),
{
}

/// A column that is missing is added, one that is there is not; the width is asked
/// for first, then the height, and then the rows.
pub proof fn missing_columns_are_added()
    ensures
        next_step(SetupState::Column(ImageColumn::Width), Answer::ColumnExists(true)) == Some(
            (SetupState::Column(ImageColumn::Height), Seq::<Change>::empty()),
        ),
        next_step(SetupState::Column(ImageColumn::Width), Answer::ColumnExists(false)) == Some(
            (SetupState::Column(ImageColumn::Height), seq![Change::AddColumn(ImageColumn::Width)]),
        ),
        next_step(SetupState::Column(ImageColumn::Height), Answer::ColumnExists(true)) == Some(
            (SetupState::Rows, Seq::<Change>::empty()),
        ),
        next_step(SetupState::Column(ImageColumn::Height), Answer::ColumnExists(false)) == Some(
            (SetupState::Rows, seq![Change::AddColumn(ImageColumn::Height)]),
        ),
        column_name(ImageColumn::Width) == "image_width"@,
        column_name(ImageColumn::Height) == "image_height"@,
{
}

/// Of the rows of an old table those are deleted that are broken, and of the others
/// those behind the first 300; then the table is of version 1. A row that can be read
/// is not deleted where there are at most 300 rows.
pub proof fn old_rows_are_purged(entries: Seq<Entry>, row: Entry)
    requires
        database::is_sorted(entries),
        database::has_distinct_ids(entries),
        entries.contains(row),
    ensures
        ({
            let step = next_step(SetupState::Rows, Answer::Rows(entries));
            &&& step matches Some((after, changes)) && {
                &&& after == SetupState::Ready
                &&& changes.len() == 2
                &&& changes[1] == Change::SetVersion(1)
                &&& changes[0] matches Change::DeleteRows(ids) && {
                    &&& ids.contains(row.id) <==> !database::after_purge(entries).contains(row)
                    &&& entry::is_broken(row) ==> ids.contains(row.id)
                    &&& entries.len() <= 300 && entry::decoded(row) is Ok && (
                    row.blob matches Datum::Blob(bytes) ==> bytes.len() < usize::MAX)
                        ==> !ids.contains(row.id)
                }
            }
        }),
{
    let ids = database::ids_of(database::dropped_by_purge(entries));
    let stays = |entry: Entry| !ids.contains(entry.id);
    database_laws::purge_gives_the_keys_to_delete(entries);
    history_laws::lemma_filter_holds(entries, stays);
    assert(database_laws::without_ids(entries, ids).contains(row) <==> stays(row));
    if entry::is_broken(row) && database::after_purge(entries).contains(row) {
        let rows = database::after_purge(entries);
        let i = choose|i: int| 0 <= i < rows.len() && rows[i] == row;
        database_laws::purged_rows_are_sound(entries, i);
    }
    if entries.len() <= 300 && entry::decoded(row) is Ok && (row.blob matches Datum::Blob(bytes)
        ==> bytes.len() < usize::MAX) {
        history_laws::purging_keeps_what_can_be_read(entries, row);
    }
}

/// An answer to another question than the one that was asked leads nowhere.
pub proof fn other_answers_lead_nowhere(state: SetupState, answer: Answer)
    ensures
        next_step(state, answer) is Some <==> match state {
            SetupState::Table => answer is TableExists,
            SetupState::Version => answer is Version,
            SetupState::Column(_) => answer is ColumnExists,
            SetupState::Rows => answer is Rows,
            SetupState::Ready => false,
        },
{
}

/// The path of a file starts with the directory and ends with the name, with one
/// slash between them where the directory does not end with one; without a directory
/// it is the name.
pub proof fn paths_have_one_slash(directory: Seq<char>, name: Seq<char>)
    ensures
        path_in(Seq::empty(), name) == name,
        path_in(directory.push('/'), name) == directory + seq!['/'] + name,
        directory.len() > 0 && directory.last() != '/' ==> path_in(directory, name) == directory
            + seq!['/'] + name,
{
    reveal_strlit("/");
    assert("/"@ =~= seq!['/']);
    assert(Seq::<char>::empty() + name == name);
}

} // verus!
