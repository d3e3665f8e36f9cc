use rustcast::cell::{order_cells, Cell, ColumnType, Order};
use rustcast::clipboard::{ClipBoardContentType, ImageData};
use rustcast::database::{
    clear_clipboard, delete_clipboard_content, insert_clipboard_content, load_clipboard,
    purge_clipboard, store_clipboard_content, trim_history, try_load_clipboard,
    update_clipboard_content, ClipboardTable, HISTORY_LIMIT,
};
use rustcast::entry::{
    clipboard_entry, entry_time, read_row, row_holds, row_is_broken, EntryRow, RowError,
};
use rustcast::setup::{
    add_column_statement, database_path, name_of_column, setup_step, ImageColumn, SetupAction,
    SetupEvent, SetupState,
};

/// A table and the next key that its rows get.
struct Database {
    table: ClipboardTable,
    next_id: i64,
}

impl Database {
    fn new() -> Self {
        Database { table: ClipboardTable::from_rows(vec![]).unwrap(), next_id: 1 }
    }

    fn store(&mut self, content: &ClipBoardContentType) -> Vec<i64> {
        let id = self.next_id;
        self.next_id += 1;
        store_clipboard_content(&mut self.table, content, 1000, id)
    }

    fn update(&mut self, old: &ClipBoardContentType, new: &ClipBoardContentType) -> Vec<i64> {
        let id = self.next_id;
        self.next_id += 1;
        update_clipboard_content(&mut self.table, old, new, 1000, id)
    }
}

fn text(s: &str) -> ClipBoardContentType {
    ClipBoardContentType::Text(s.to_string())
}

fn url(s: &str) -> ClipBoardContentType {
    ClipBoardContentType::Url(s.to_string())
}

fn image(width: usize, height: usize, bytes: Vec<u8>) -> ClipBoardContentType {
    ClipBoardContentType::Image(ImageData { width, height, bytes })
}

fn text_row(id: i64, created_at: i64, s: &str) -> EntryRow {
    clipboard_entry(&text(s), created_at, id)
}

fn word(s: &str) -> Cell {
    Cell::Text(s.as_bytes().to_vec())
}

fn number(n: Option<i64>) -> Cell {
    n.map_or(Cell::Null, Cell::Integer)
}

fn float(x: f64) -> Cell {
    Cell::Real(x.to_bits())
}

fn image_row(id: i64, blob: Option<Vec<u8>>, width: Option<i64>, height: Option<i64>) -> EntryRow {
    EntryRow {
        id,
        content_type: word("image"),
        text_content: Cell::Null,
        blob_content: blob.map_or(Cell::Null, Cell::Blob),
        image_width: number(width),
        image_height: number(height),
        created_at: Cell::Integer(1),
        size_bytes: Cell::Integer(4),
        size_differs: false,
    }
}

#[test]
fn image_round_trips_without_decoding() {
    let mut database = Database::new();
    let image = image(1, 1, vec![1, 2, 3, 4]);

    database.store(&image);

    assert_eq!(load_clipboard(&database.table), vec![image]);
}

#[test]
fn stored_history_is_limited_to_three_hundred_entries() {
    let mut database = Database::new();

    for index in 0..301 {
        database.store(&ClipBoardContentType::Text(format!("entry {index}")));
    }

    let count = database.table.len();
    assert_eq!(count, 300);
    assert!(!load_clipboard(&database.table)
        .contains(&ClipBoardContentType::Text("entry 0".to_string())));
}

#[test]
fn delete_and_clear_are_persisted() {
    let mut database = Database::new();
    let first = ClipBoardContentType::Text("first".to_string());
    let second = ClipBoardContentType::Url("https://rustcast.app".to_string());
    database.store(&first);
    database.store(&second);

    delete_clipboard_content(&mut database.table, &first);
    assert_eq!(load_clipboard(&database.table), vec![second]);

    clear_clipboard(&mut database.table);
    assert!(load_clipboard(&database.table).is_empty());
}

#[test]
fn existing_database_gets_image_dimensions() {
    let mut rows = vec![
        text_row(1, 1000, "keep me"),
        EntryRow { created_at: Cell::Integer(2), ..image_row(2, Some(vec![1, 2, 3, 4]), None, None) },
    ];
    for index in 0..301 {
        rows.push(EntryRow { size_bytes: Cell::Integer(4), ..text_row(index + 3, index, &format!("entry {index}")) });
    }
    let mut columns = vec!["id", "content_type", "text_content", "blob_content"];
    let mut version = 0;

    let mut state = SetupState::Table;
    while state != SetupState::Ready {
        let event = match state {
            SetupState::Table => SetupEvent::TableExists(Some(true)),
            SetupState::Version => SetupEvent::Version(version),
            SetupState::Column(column) => {
                SetupEvent::ColumnExists(columns.contains(&name_of_column(column)))
            }
            SetupState::Rows => {
                SetupEvent::Rows(ClipboardTable::from_rows(rows.clone()).unwrap())
            }
            SetupState::Ready => unreachable!(),
        };
        let (next, actions) = setup_step(state, event).unwrap();
        for action in actions {
            match action {
                SetupAction::CreateTable => panic!("the table exists"),
                SetupAction::SetVersion(current) => version = current,
                SetupAction::AddColumn(column) => columns.push(name_of_column(column)),
                SetupAction::DeleteRows(ids) => rows.retain(|row| !ids.contains(&row.id)),
            }
        }
        state = next;
    }

    let added = columns
        .iter()
        .filter(|name| **name == "image_width" || **name == "image_height")
        .count();
    assert_eq!(added, 2);
    let table = ClipboardTable::from_rows(rows).unwrap();
    let content = load_clipboard(&table);
    assert_eq!(content.len(), 300);
    assert!(content.contains(&ClipBoardContentType::Text("keep me".to_string())));
    assert!(!content.iter().any(|item| matches!(item, ClipBoardContentType::Image(_))));
    assert_eq!(version, 1);
}

#[test]
fn update_is_persisted() {
    let mut database = Database::new();
    let old = ClipBoardContentType::Text("old".to_string());
    let new = ClipBoardContentType::Text("new".to_string());
    database.store(&old);
    database.store(&new);

    database.update(&old, &new);

    assert_eq!(load_clipboard(&database.table), vec![new]);
}

#[test]
fn what_was_stored_last_is_shown_first() {
    let mut database = Database::new();
    database.store(&text("a"));
    database.store(&text("b"));
    database.store(&text("c"));
    assert_eq!(load_clipboard(&database.table), vec![text("c"), text("b"), text("a")]);

    assert_eq!(database.store(&text("a")), vec![1]);
    assert_eq!(load_clipboard(&database.table), vec![text("a"), text("c"), text("b")]);
}

#[test]
fn rows_are_ordered_by_time_and_then_by_key() {
    let table = ClipboardTable::from_rows(vec![
        text_row(4, 10, "d"),
        text_row(1, 30, "a"),
        text_row(9, 10, "e"),
        text_row(2, 20, "b"),
        text_row(-3, 20, "c"),
    ])
    .unwrap();
    assert_eq!(
        load_clipboard(&table),
        vec![text("a"), text("b"), text("c"), text("e"), text("d")]
    );
    assert!(table.has_id(-3));
    assert!(!table.has_id(3));
}

#[test]
fn rows_with_one_key_are_no_table() {
    assert!(ClipboardTable::from_rows(vec![text_row(1, 1, "a"), text_row(1, 2, "b")]).is_none());
}

#[test]
fn text_and_url_are_not_the_same() {
    let mut database = Database::new();
    database.store(&text("x"));
    database.store(&url("x"));
    assert_eq!(load_clipboard(&database.table), vec![url("x"), text("x")]);
    assert_eq!(delete_clipboard_content(&mut database.table, &url("x")), vec![2]);
    assert_eq!(load_clipboard(&database.table), vec![text("x")]);
    assert!(delete_clipboard_content(&mut database.table, &url("x")).is_empty());
}

#[test]
fn images_with_the_same_bytes_and_another_shape_differ() {
    let mut database = Database::new();
    let wide = image(2, 1, vec![0; 8]);
    let high = image(1, 2, vec![0; 8]);
    database.store(&wide);
    database.store(&high);
    assert_eq!(database.table.len(), 2);
    assert_eq!(delete_clipboard_content(&mut database.table, &wide), vec![1]);
    assert_eq!(load_clipboard(&database.table), vec![high]);
}

#[test]
fn an_old_clock_puts_content_behind_and_may_drop_it() {
    let rows = (0..300).map(|i| text_row(i, 1000 + i, &format!("{i}"))).collect();
    let mut table = ClipboardTable::from_rows(rows).unwrap();
    assert_eq!(insert_clipboard_content(&mut table, &text("late"), 5, 300), vec![300]);
    assert_eq!(table.len(), HISTORY_LIMIT);
    assert!(!load_clipboard(&table).contains(&text("late")));
    assert_eq!(insert_clipboard_content(&mut table, &text("now"), 5000, 301), vec![0]);
    assert_eq!(load_clipboard(&table)[0], text("now"));
}

#[test]
fn long_tables_are_trimmed() {
    let rows = (0..302).map(|i| text_row(i, i, &format!("{i}"))).collect();
    let mut table = ClipboardTable::from_rows(rows).unwrap();
    assert_eq!(load_clipboard(&table).len(), 300);
    assert_eq!(trim_history(&mut table), vec![1, 0]);
    assert_eq!(table.len(), 300);
    assert!(trim_history(&mut table).is_empty());
}

#[test]
fn clearing_gives_every_key() {
    let mut table =
        ClipboardTable::from_rows(vec![text_row(1, 1, "a"), text_row(2, 2, "b")]).unwrap();
    assert_eq!(clear_clipboard(&mut table), vec![2, 1]);
    assert_eq!(table.len(), 0);
}

#[test]
fn update_replaces_and_gives_the_keys() {
    let mut database = Database::new();
    database.store(&text("old"));
    database.store(&text("other"));
    database.store(&text("new"));
    assert_eq!(database.update(&text("old"), &text("new")), vec![1, 3]);
    assert_eq!(load_clipboard(&database.table), vec![text("new"), text("other")]);
    assert_eq!(database.update(&text("absent"), &text("third")), Vec::<i64>::new());
    assert_eq!(load_clipboard(&database.table)[0], text("third"));
}

#[test]
fn entries_have_their_columns() {
    assert_eq!(
        clipboard_entry(&text("grün"), 7, 3),
        EntryRow {
            id: 3,
            content_type: word("text"),
            text_content: word("grün"),
            blob_content: Cell::Null,
            image_width: Cell::Null,
            image_height: Cell::Null,
            created_at: Cell::Integer(7),
            size_bytes: Cell::Integer(5),
            size_differs: false,
        }
    );
    assert_eq!(clipboard_entry(&url("u"), 7, 3).content_type, word("url"));
    assert_eq!(
        clipboard_entry(&image(2, usize::MAX, vec![9; 3]), 7, 3),
        EntryRow {
            id: 3,
            content_type: word("image"),
            text_content: Cell::Null,
            blob_content: Cell::Blob(vec![9; 3]),
            image_width: Cell::Integer(2),
            image_height: Cell::Integer(usize::MAX as i64),
            created_at: Cell::Integer(7),
            size_bytes: Cell::Integer(3),
            size_differs: false,
        }
    );
}

#[test]
fn rows_hold_what_they_stand_for() {
    let contents = [text("a"), text("b"), url("a"), image(1, 1, vec![0; 4]), image(0, 9, vec![])];
    for (i, a) in contents.iter().enumerate() {
        let row = clipboard_entry(a, 1, 1);
        assert_eq!(read_row(&row), Ok(a.clone()));
        for (j, b) in contents.iter().enumerate() {
            assert_eq!(row_holds(&row, b), i == j);
        }
    }
}

#[test]
fn rows_without_content_are_reported() {
    let missing = |index: usize, name: &str| {
        Err(RowError::InvalidColumnType {
            index,
            name: name.to_string(),
            ty: ColumnType::Null,
        })
    };
    let no_text = EntryRow { text_content: Cell::Null, ..text_row(1, 1, "a") };
    assert_eq!(read_row(&no_text), missing(1, "text_content"));
    let no_url = EntryRow { content_type: word("url"), ..no_text };
    assert_eq!(read_row(&no_url), missing(1, "text_content"));
    assert_eq!(read_row(&image_row(1, None, Some(1), Some(1))), missing(2, "blob_content"));
    assert_eq!(read_row(&image_row(1, Some(vec![]), None, Some(1))), missing(3, "image_width"));
    assert_eq!(read_row(&image_row(1, Some(vec![]), Some(1), None)), missing(4, "image_height"));
    assert_eq!(
        read_row(&image_row(1, Some(vec![0; 5]), Some(1), Some(1))),
        Err(RowError::InvalidColumnType {
            index: 2,
            name: "image".to_string(),
            ty: ColumnType::Blob,
        })
    );
    assert_eq!(
        read_row(&image_row(1, Some(vec![]), Some(-1), Some(1))),
        Err(RowError::IntegralValueOutOfRange { index: 3, value: -1 })
    );
    assert_eq!(
        read_row(&image_row(1, Some(vec![]), Some(1), Some(1 << 32))),
        Err(RowError::IntegralValueOutOfRange { index: 4, value: 1 << 32 })
    );
    assert_eq!(
        read_row(&EntryRow { content_type: word("file"), ..text_row(1, 1, "a") }),
        Err(RowError::InvalidColumnType {
            index: 0,
            name: "file".to_string(),
            ty: ColumnType::Text,
        })
    );
}

#[test]
fn the_first_fault_is_the_one_of_the_newest_row() {
    let mut table = ClipboardTable::from_rows(vec![
        text_row(1, 3, "a"),
        EntryRow { content_type: word("file"), ..text_row(2, 2, "b") },
        EntryRow { text_content: Cell::Null, ..text_row(3, 1, "c") },
    ])
    .unwrap();
    assert_eq!(
        try_load_clipboard(&table),
        Err(RowError::InvalidColumnType {
            index: 0,
            name: "file".to_string(),
            ty: ColumnType::Text,
        })
    );
    assert!(load_clipboard(&table).is_empty());
    clear_clipboard(&mut table);
    assert_eq!(try_load_clipboard(&table), Ok(vec![]));
}

#[test]
fn faults_beyond_the_limit_are_not_seen() {
    let mut rows: Vec<EntryRow> = (1..301).map(|i| text_row(i, i, &format!("{i}"))).collect();
    rows.push(EntryRow { text_content: Cell::Null, ..text_row(0, 0, "") });
    let table = ClipboardTable::from_rows(rows).unwrap();
    assert_eq!(try_load_clipboard(&table).unwrap().len(), 300);
}

#[test]
fn broken_rows_are_purged() {
    let good = image_row(1, Some(vec![0; 8]), Some(1), Some(2));
    assert!(!row_is_broken(&good));
    assert!(!row_is_broken(&image_row(1, Some(vec![0; 8]), Some(-1), Some(-2))));
    for broken in [
        image_row(1, None, Some(1), Some(2)),
        image_row(1, Some(vec![0; 8]), None, Some(2)),
        image_row(1, Some(vec![0; 8]), Some(1), None),
        image_row(1, Some(vec![0; 9]), Some(1), Some(2)),
        image_row(1, Some(vec![0; 8]), Some(i64::MAX), Some(i64::MIN)),
        EntryRow { text_content: Cell::Null, ..text_row(1, 1, "") },
        EntryRow { content_type: word("url"), text_content: Cell::Null, ..text_row(1, 1, "") },
    ] {
        assert!(row_is_broken(&broken));
    }
    let other = EntryRow { content_type: word("file"), text_content: Cell::Null, ..good.clone() };
    assert!(!row_is_broken(&other));

    let mut rows = vec![image_row(1000, None, None, None)];
    rows.extend((0..301).map(|i| text_row(i, i + 10, "x")));
    let mut table = ClipboardTable::from_rows(rows).unwrap();
    assert_eq!(purge_clipboard(&mut table), vec![1000, 0]);
    assert!(purge_clipboard(&mut table).is_empty());
}

#[test]
fn times_are_milliseconds() {
    assert_eq!(entry_time(Some(1_700_000_000_123)), 1_700_000_000_123);
    assert_eq!(entry_time(None), 1);
    assert_eq!(entry_time(Some(u128::MAX)), -1);
    assert_eq!(entry_time(Some(1 << 64)), 0);
    assert_eq!(entry_time(Some(1 << 63)), i64::MIN);
}

#[test]
fn a_new_database_gets_a_table() {
    for exists in [Some(false), None] {
        assert_eq!(
            setup_step(SetupState::Table, SetupEvent::TableExists(exists)),
            Some((
                SetupState::Ready,
                vec![SetupAction::CreateTable, SetupAction::SetVersion(1)]
            ))
        );
    }
}

#[test]
fn a_database_of_the_present_version_stays() {
    assert_eq!(
        setup_step(SetupState::Table, SetupEvent::TableExists(Some(true))),
        Some((SetupState::Version, vec![]))
    );
    for version in [1, 2, i64::MAX] {
        assert_eq!(
            setup_step(SetupState::Version, SetupEvent::Version(version)),
            Some((SetupState::Ready, vec![]))
        );
    }
}

#[test]
fn an_old_database_gets_what_it_lacks() {
    assert_eq!(
        setup_step(SetupState::Version, SetupEvent::Version(0)),
        Some((SetupState::Column(ImageColumn::Width), vec![]))
    );
    assert_eq!(
        setup_step(
            SetupState::Column(ImageColumn::Width),
            SetupEvent::ColumnExists(false)
        ),
        Some((
            SetupState::Column(ImageColumn::Height),
            vec![SetupAction::AddColumn(ImageColumn::Width)]
        ))
    );
    assert_eq!(
        setup_step(
            SetupState::Column(ImageColumn::Height),
            SetupEvent::ColumnExists(true)
        ),
        Some((SetupState::Rows, vec![]))
    );
    let table = ClipboardTable::from_rows(vec![
        text_row(1, 1, "a"),
        image_row(2, None, None, None),
    ])
    .unwrap();
    assert_eq!(
        setup_step(SetupState::Rows, SetupEvent::Rows(table)),
        Some((
            SetupState::Ready,
            vec![SetupAction::DeleteRows(vec![2]), SetupAction::SetVersion(1)]
        ))
    );
}

#[test]
fn answers_to_other_questions_lead_nowhere() {
    assert_eq!(setup_step(SetupState::Table, SetupEvent::Version(0)), None);
    assert_eq!(setup_step(SetupState::Ready, SetupEvent::TableExists(None)), None);
}

#[test]
fn columns_are_added_by_name() {
    assert_eq!(
        add_column_statement(ImageColumn::Width),
        "ALTER TABLE clipboard_entries ADD COLUMN image_width INTEGER"
    );
    assert_eq!(
        add_column_statement(ImageColumn::Height),
        "ALTER TABLE clipboard_entries ADD COLUMN image_height INTEGER"
    );
}

#[test]
fn the_database_is_beside_the_program() {
    for directory in ["/Applications/RustCast", "/", "a/", "", "ä b"] {
        let expected = std::path::Path::new(directory).join("clipboard.db");
        assert_eq!(
            std::path::PathBuf::from(database_path(Some(directory.to_string()))),
            expected
        );
        assert_eq!(Some(database_path(Some(directory.to_string())).as_str()), expected.to_str());
    }
    assert_eq!(database_path(None), "/tmp/clipboard.db");
}

#[test]
fn values_of_other_kinds_are_reported() {
    let kinds = [
        (Cell::Null, ColumnType::Null),
        (Cell::Integer(7), ColumnType::Integer),
        (float(0.5), ColumnType::Real),
        (word("t"), ColumnType::Text),
        (Cell::Blob(b"text".to_vec()), ColumnType::Blob),
    ];
    let wrong = |index: usize, name: &str, ty: ColumnType| {
        Err(RowError::InvalidColumnType { index, name: name.to_string(), ty })
    };
    for (cell, ty) in kinds {
        let image = image_row(1, Some(vec![]), Some(0), Some(0));
        if ty != ColumnType::Text {
            let row = EntryRow { content_type: cell.clone(), ..text_row(1, 1, "a") };
            assert_eq!(read_row(&row), wrong(0, "content_type", ty));
            let row = EntryRow { text_content: cell.clone(), ..text_row(1, 1, "a") };
            assert_eq!(read_row(&row), wrong(1, "text_content", ty));
        }
        if ty != ColumnType::Blob {
            let row = EntryRow { blob_content: cell.clone(), ..image.clone() };
            assert_eq!(read_row(&row), wrong(2, "blob_content", ty));
        }
        if ty != ColumnType::Integer {
            let row = EntryRow { image_width: cell.clone(), ..image.clone() };
            assert_eq!(read_row(&row), wrong(3, "image_width", ty));
            let row = EntryRow { image_height: cell.clone(), ..image };
            assert_eq!(read_row(&row), wrong(4, "image_height", ty));
        }
    }
}

#[test]
fn texts_that_are_not_utf8_are_reported() {
    let bytes = vec![b'a', 0xff];
    let row = EntryRow { text_content: Cell::Text(bytes.clone()), ..text_row(1, 1, "a") };
    assert_eq!(
        read_row(&row),
        Err(RowError::Utf8Error { index: 1, bytes: bytes.clone() })
    );
    let row = EntryRow { content_type: Cell::Text(bytes.clone()), ..text_row(1, 1, "a") };
    assert_eq!(read_row(&row), Err(RowError::Utf8Error { index: 0, bytes }));
}

#[test]
fn values_are_ordered_by_kind_and_value() {
    let ordered = [
        Cell::Null,
        float(f64::NEG_INFINITY),
        float(-1e300),
        Cell::Integer(i64::MIN),
        Cell::Integer(-1),
        float(-0.5),
        float(-f64::MIN_POSITIVE / 4.0),
        Cell::Integer(0),
        float(f64::MIN_POSITIVE / 4.0),
        float(f64::MIN_POSITIVE),
        float(0.5),
        Cell::Integer(1),
        float(1.5),
        Cell::Integer((1 << 53) + 1),
        float(9007199254740994.0),
        Cell::Integer(i64::MAX),
        float(9223372036854775808.0),
        float(f64::MAX),
        float(f64::INFINITY),
        word(""),
        word("a"),
        word("aa"),
        word("b"),
        Cell::Text(vec![0xff]),
        Cell::Blob(vec![]),
        Cell::Blob(vec![0]),
        Cell::Blob(vec![0, 1]),
        Cell::Blob(vec![1]),
    ];
    for (i, a) in ordered.iter().enumerate() {
        for (j, b) in ordered.iter().enumerate() {
            let expected = if i < j {
                Order::Less
            } else if i == j {
                Order::Equal
            } else {
                Order::Greater
            };
            assert_eq!(order_cells(a, b), expected, "{a:?} {b:?}");
        }
    }
    assert_eq!(order_cells(&float(-0.0), &Cell::Integer(0)), Order::Equal);
    assert_eq!(order_cells(&float(-0.0), &float(0.0)), Order::Equal);
    assert_eq!(order_cells(&float(3.0), &Cell::Integer(3)), Order::Equal);
    assert_eq!(order_cells(&float(-9223372036854775808.0), &Cell::Integer(i64::MIN)), Order::Equal);
}

#[test]
fn sizes_that_are_real_numbers_are_found() {
    let picture = image(3, 1, vec![0; 12]);
    let row = EntryRow { image_width: float(3.0), ..image_row(1, Some(vec![0; 12]), None, Some(1)) };
    assert!(row_holds(&row, &picture));
    let row = EntryRow { image_width: float(3.5), ..row };
    assert!(!row_holds(&row, &picture));
    let row = EntryRow { image_width: word("3"), ..row };
    assert!(!row_holds(&row, &picture));
}

#[test]
fn the_database_counts_values_of_other_kinds() {
    let row = EntryRow { image_width: float(0.5), ..image_row(1, Some(vec![0; 4]), None, Some(2)) };
    assert!(!row_is_broken(&row));
    assert!(row_is_broken(&EntryRow { size_differs: true, ..row.clone() }));
    assert!(row_is_broken(&EntryRow { image_height: Cell::Null, ..row }));
    let proper = image_row(1, Some(vec![0; 4]), Some(1), Some(1));
    assert!(!row_is_broken(&EntryRow { size_differs: true, ..proper }));
}
