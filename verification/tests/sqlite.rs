//! The history held against a table in SQLite to which the same changes are made
//! by statements.

use rusqlite::types::{Value, ValueRef};
use rusqlite::{params_from_iter, Connection, Row};
use rustcast::cell::{Cell, ColumnType};
use rustcast::clipboard::{ClipBoardContentType, ImageData};
use rustcast::database::{
    delete_clipboard_content, purge_clipboard, store_clipboard_content, try_load_clipboard,
    update_clipboard_content, ClipboardTable,
};
use rustcast::entry::{clipboard_entry, EntryRow, RowError};
use rustcast::setup::{add_column_statement, ImageColumn};

fn word(s: &str) -> Cell {
    Cell::Text(s.as_bytes().to_vec())
}

const TRIM: &str = "DELETE FROM clipboard_entries WHERE id NOT IN (
    SELECT id FROM clipboard_entries ORDER BY created_at DESC, id DESC LIMIT 300)";

const PURGE: &str = "DELETE FROM clipboard_entries
    WHERE (content_type = 'image' AND (
        blob_content IS NULL OR image_width IS NULL OR image_height IS NULL
        OR length(blob_content) != image_width * image_height * 4
    )) OR (content_type IN ('text', 'url') AND text_content IS NULL)";

fn open() -> Connection {
    let conn = Connection::open_in_memory().unwrap();
    conn.execute_batch(
        "CREATE TABLE clipboard_entries (
            id INTEGER PRIMARY KEY AUTOINCREMENT,
            content_type TEXT NOT NULL,
            text_content TEXT,
            blob_content BLOB,
            created_at INTEGER NOT NULL,
            size_bytes INTEGER NOT NULL
        );",
    )
    .unwrap();
    conn.execute(&add_column_statement(ImageColumn::Width), []).unwrap();
    conn.execute(&add_column_statement(ImageColumn::Height), []).unwrap();
    conn
}

/// A table whose columns take every value as it is.
fn open_untyped() -> Connection {
    let conn = Connection::open_in_memory().unwrap();
    conn.execute_batch(
        "CREATE TABLE clipboard_entries (
            id INTEGER PRIMARY KEY AUTOINCREMENT,
            content_type, text_content, blob_content, created_at, size_bytes, image_width,
            image_height
        );",
    )
    .unwrap();
    conn
}

fn cell(row: &Row, index: usize) -> rusqlite::Result<Cell> {
    Ok(match row.get_ref(index)? {
        ValueRef::Null => Cell::Null,
        ValueRef::Integer(n) => Cell::Integer(n),
        ValueRef::Real(x) => Cell::Real(x.to_bits()),
        ValueRef::Text(bytes) => Cell::Text(bytes.to_vec()),
        ValueRef::Blob(bytes) => Cell::Blob(bytes.to_vec()),
    })
}

fn entry_row(row: &Row) -> rusqlite::Result<EntryRow> {
    Ok(EntryRow {
        id: row.get(0)?,
        content_type: cell(row, 1)?,
        text_content: cell(row, 2)?,
        blob_content: cell(row, 3)?,
        image_width: cell(row, 4)?,
        image_height: cell(row, 5)?,
        created_at: cell(row, 6)?,
        size_bytes: cell(row, 7)?,
        size_differs: row.get(8)?,
    })
}

fn rows_of(conn: &Connection) -> Vec<EntryRow> {
    let mut stmt = conn
        .prepare(
            "SELECT id, content_type, text_content, blob_content, image_width, image_height,
                created_at, size_bytes,
                (length(blob_content) != image_width * image_height * 4) IS TRUE
             FROM clipboard_entries",
        )
        .unwrap();
    let rows = stmt.query_map([], entry_row).unwrap();
    rows.collect::<Result<_, _>>().unwrap()
}

fn table_of(conn: &Connection) -> ClipboardTable {
    ClipboardTable::from_rows(rows_of(conn)).unwrap()
}

fn value(cell: &Cell) -> Value {
    match cell {
        Cell::Null => Value::Null,
        Cell::Integer(n) => Value::Integer(*n),
        Cell::Real(bits) => Value::Real(f64::from_bits(*bits)),
        Cell::Text(bytes) | Cell::Blob(bytes) => Value::Blob(bytes.clone()),
    }
}

fn insert_row(conn: &Connection, row: &EntryRow) {
    let cells = [
        &row.content_type,
        &row.text_content,
        &row.blob_content,
        &row.image_width,
        &row.image_height,
        &row.created_at,
        &row.size_bytes,
    ];
    let places: Vec<&str> = cells
        .iter()
        .map(|cell| if matches!(cell, Cell::Text(_)) { "CAST(? AS TEXT)" } else { "?" })
        .collect();
    conn.execute(
        &format!(
            "INSERT INTO clipboard_entries (content_type, text_content, blob_content, image_width,
                image_height, created_at, size_bytes) VALUES ({})",
            places.join(", ")
        ),
        params_from_iter(cells.map(value)),
    )
    .unwrap();
}

fn delete_statement(conn: &Connection, content: &ClipBoardContentType) {
    match content {
        ClipBoardContentType::Text(text) => conn.execute(
            "DELETE FROM clipboard_entries WHERE content_type = 'text' AND text_content = ?1",
            [text],
        ),
        ClipBoardContentType::Url(url) => conn.execute(
            "DELETE FROM clipboard_entries WHERE content_type = 'url' AND text_content = ?1",
            [url],
        ),
        ClipBoardContentType::Image(image) => conn.execute(
            "DELETE FROM clipboard_entries WHERE content_type = 'image' AND blob_content = ?1
                AND image_width = ?2 AND image_height = ?3",
            params_from_iter(vec![
                Value::from(image.bytes.clone()),
                Value::from(image.width as i64),
                Value::from(image.height as i64),
            ]),
        ),
    }
    .unwrap();
}

fn insert_statement(conn: &Connection, content: &ClipBoardContentType, now: i64) -> i64 {
    match content {
        ClipBoardContentType::Text(s) => conn.execute(
            "INSERT INTO clipboard_entries (content_type, text_content, created_at, size_bytes)
             VALUES ('text', ?1, ?2, ?3)",
            params_from_iter(vec![
                Value::from(s.clone()),
                Value::from(now),
                Value::from(s.len() as u32),
            ]),
        ),
        ClipBoardContentType::Url(s) => conn.execute(
            "INSERT INTO clipboard_entries (content_type, text_content, created_at, size_bytes)
             VALUES ('url', ?1, ?2, ?3)",
            params_from_iter(vec![
                Value::from(s.clone()),
                Value::from(now),
                Value::from(s.len() as u32),
            ]),
        ),
        ClipBoardContentType::Image(image) => conn.execute(
            "INSERT INTO clipboard_entries (
                content_type, blob_content, image_width, image_height, created_at, size_bytes
             ) VALUES ('image', ?1, ?2, ?3, ?4, ?5)",
            params_from_iter(vec![
                Value::from(image.bytes.clone()),
                Value::from(image.width as i64),
                Value::from(image.height as i64),
                Value::from(now),
                Value::from(image.bytes.len() as i64),
            ]),
        ),
    }
    .unwrap();
    let id = conn.last_insert_rowid();
    conn.execute(TRIM, []).unwrap();
    id
}

fn load_statement(conn: &Connection) -> rusqlite::Result<Vec<ClipBoardContentType>> {
    let mut stmt = conn.prepare(
        "SELECT content_type, text_content, blob_content, image_width, image_height
         FROM clipboard_entries ORDER BY created_at DESC, id DESC LIMIT 300",
    )?;
    let rows = stmt.query_map([], |row| {
        let content_type: String = row.get(0)?;
        match content_type.as_str() {
            "text" => Ok(ClipBoardContentType::Text(row.get(1)?)),
            "url" => Ok(ClipBoardContentType::Url(row.get(1)?)),
            "image" => {
                let bytes: Vec<u8> = row.get(2)?;
                let width = row.get::<_, u32>(3)? as usize;
                let height = row.get::<_, u32>(4)? as usize;
                if bytes.len() != width.saturating_mul(height).saturating_mul(4) {
                    return Err(rusqlite::Error::InvalidColumnType(
                        2,
                        content_type,
                        rusqlite::types::Type::Blob,
                    ));
                }
                Ok(ClipBoardContentType::Image(ImageData { width, height, bytes }))
            }
            _ => Err(rusqlite::Error::InvalidColumnType(
                0,
                content_type,
                rusqlite::types::Type::Text,
            )),
        }
    })?;
    rows.collect()
}

/// What SQLite says is wrong; of a text that is not UTF-8 only where it stands.
fn fault(error: rusqlite::Error) -> RowError {
    match error {
        rusqlite::Error::Utf8Error(index, _) => RowError::Utf8Error { index, bytes: vec![] },
        rusqlite::Error::InvalidColumnType(index, name, ty) => RowError::InvalidColumnType {
            index,
            name,
            ty: match ty {
                rusqlite::types::Type::Null => ColumnType::Null,
                rusqlite::types::Type::Text => ColumnType::Text,
                rusqlite::types::Type::Blob => ColumnType::Blob,
                rusqlite::types::Type::Integer => ColumnType::Integer,
                rusqlite::types::Type::Real => ColumnType::Real,
            },
        },
        rusqlite::Error::IntegralValueOutOfRange(index, value) => {
            RowError::IntegralValueOutOfRange { index, value }
        }
        other => panic!("{other}"),
    }
}

fn loaded(table: &ClipboardTable) -> Result<Vec<ClipBoardContentType>, RowError> {
    try_load_clipboard(table).map_err(|error| match error {
        RowError::Utf8Error { index, .. } => RowError::Utf8Error { index, bytes: vec![] },
        other => other,
    })
}

fn sorted(mut rows: Vec<EntryRow>) -> Vec<EntryRow> {
    rows.sort_by_key(|row| row.id);
    rows
}

/// Applies what the library says to a list of rows: one row more, and then without
/// the deleted ones.
fn applied(mut rows: Vec<EntryRow>, more: Option<EntryRow>, deleted: &[i64]) -> Vec<EntryRow> {
    rows.extend(more);
    rows.retain(|row| !deleted.contains(&row.id));
    sorted(rows)
}

/// Contents that occur again, of every kind.
fn content(n: u64) -> ClipBoardContentType {
    let which = n / 3 % 5;
    match n % 3 {
        0 => ClipBoardContentType::Text(format!("entry\0 {which} ⌘")),
        1 => ClipBoardContentType::Url(format!("entry\0 {which} ⌘")),
        _ => ClipBoardContentType::Image(ImageData {
            width: which as usize,
            height: (n / 16 % 2) as usize + 1,
            bytes: vec![7; which as usize * (n / 16 % 2 + 1) as usize * 4],
        }),
    }
}

fn next(seed: &mut u64) -> u64 {
    *seed = seed.wrapping_mul(6364136223846793005).wrapping_add(1442695040888963407);
    *seed >> 33
}

#[test]
fn histories_agree_with_statements() {
    let conn = open();
    let mut seed = 1u64;
    for _ in 0..400 {
        let before = rows_of(&conn);
        let mut table = table_of(&conn);
        let now = (next(&mut seed) % 50) as i64;
        let new = content(next(&mut seed));
        let old = content(next(&mut seed));
        match next(&mut seed) % 4 {
            0 => {
                delete_statement(&conn, &new);
                let deleted = delete_clipboard_content(&mut table, &new);
                assert_eq!(sorted(rows_of(&conn)), applied(before, None, &deleted));
            }
            1 => {
                delete_statement(&conn, &old);
                delete_statement(&conn, &new);
                let id = insert_statement(&conn, &new, now);
                let deleted = update_clipboard_content(&mut table, &old, &new, now, id);
                let row = clipboard_entry(&new, now, id);
                assert_eq!(sorted(rows_of(&conn)), applied(before, Some(row), &deleted));
            }
            _ => {
                delete_statement(&conn, &new);
                let id = insert_statement(&conn, &new, now);
                let deleted = store_clipboard_content(&mut table, &new, now, id);
                let row = clipboard_entry(&new, now, id);
                assert_eq!(sorted(rows_of(&conn)), applied(before, Some(row), &deleted));
            }
        }
        assert_eq!(loaded(&table), load_statement(&conn).map_err(fault));
        assert_eq!(try_load_clipboard(&table_of(&conn)), try_load_clipboard(&table));
    }
}

#[test]
fn long_histories_agree_with_statements() {
    let conn = open();
    for n in 0..320 {
        let mut row = clipboard_entry(&ClipBoardContentType::Text(format!("{n}")), n * 7 % 41, 0);
        row.size_bytes = Cell::Integer(n);
        insert_row(&conn, &row);
    }
    for now in [0, 20, 40, 41] {
        let before = rows_of(&conn);
        let mut table = table_of(&conn);
        assert_eq!(loaded(&table), load_statement(&conn).map_err(fault));
        let new = ClipBoardContentType::Text("17".to_string());
        delete_statement(&conn, &new);
        let id = insert_statement(&conn, &new, now);
        let deleted = store_clipboard_content(&mut table, &new, now, id);
        let row = clipboard_entry(&new, now, id);
        assert_eq!(sorted(rows_of(&conn)), applied(before, Some(row), &deleted));
        assert_eq!(loaded(&table), load_statement(&conn).map_err(fault));
    }
}

#[test]
fn purging_agrees_with_statements() {
    let kinds = ["text", "url", "image", "file"];
    let numbers =
        [None, Some(0), Some(1), Some(-1), Some(2), Some(1 << 32), Some(i64::MAX), Some(i64::MIN)];
    let blobs = [None, Some(vec![]), Some(vec![1; 4]), Some(vec![1; 8])];
    let conn = open();
    let mut created_at = 0;
    for kind in kinds {
        for text in [Cell::Null, word("t")] {
            for blob in &blobs {
                for width in numbers {
                    for height in numbers {
                        created_at += 13;
                        let row = EntryRow {
                            id: 0,
                            content_type: word(kind),
                            text_content: text.clone(),
                            blob_content: blob.clone().map_or(Cell::Null, Cell::Blob),
                            image_width: width.map_or(Cell::Null, Cell::Integer),
                            image_height: height.map_or(Cell::Null, Cell::Integer),
                            created_at: Cell::Integer(created_at % 97),
                            size_bytes: Cell::Integer(0),
                            size_differs: false,
                        };
                        insert_row(&conn, &row);
                    }
                }
            }
        }
    }
    let before = rows_of(&conn);
    assert_eq!(before.len(), 2048);
    let mut table = table_of(&conn);
    conn.execute(PURGE, []).unwrap();
    conn.execute(TRIM, []).unwrap();
    let deleted = purge_clipboard(&mut table);
    assert_eq!(sorted(rows_of(&conn)), applied(before, None, &deleted));
    assert_eq!(table.len(), 300);
}

#[test]
fn faults_agree_with_statements() {
    let numbers = [None, Some(0), Some(1), Some(-1), Some(2), Some(1 << 32), Some(i64::MIN)];
    for kind in ["text", "url", "image", "file"] {
        for text in [Cell::Null, word("t")] {
            for blob in [None, Some(vec![]), Some(vec![1; 4]), Some(vec![1; 8])] {
                for width in numbers {
                    for height in numbers {
                        let conn = open();
                        let row = EntryRow {
                            id: 1,
                            content_type: word(kind),
                            text_content: text.clone(),
                            blob_content: blob.clone().map_or(Cell::Null, Cell::Blob),
                            image_width: width.map_or(Cell::Null, Cell::Integer),
                            image_height: height.map_or(Cell::Null, Cell::Integer),
                            created_at: Cell::Integer(1),
                            size_bytes: Cell::Integer(0),
                            size_differs: false,
                        };
                        insert_row(&conn, &row);
                        assert_eq!(
                            try_load_clipboard(&table_of(&conn)),
                            load_statement(&conn).map_err(fault)
                        );
                    }
                }
            }
        }
    }
}

fn odd_values() -> Vec<Cell> {
    let mut values = vec![
        Cell::Null,
        word("text"),
        word("url"),
        word("image"),
        word("1"),
        word("1.5x"),
        word("2\0"),
        Cell::Text(vec![0xc3, 0x28]),
        Cell::Blob(b"text".to_vec()),
        Cell::Blob(vec![]),
        Cell::Blob(vec![7; 4]),
        Cell::Blob(vec![0xff]),
    ];
    values.extend([0, 1, -1, 2, 1 << 32, (1 << 53) + 1, i64::MAX, i64::MIN].map(Cell::Integer));
    values.extend(
        [0.0, -0.0, 0.5, 1.0, -1.5, 4.0, 9007199254740992.0, 9223372036854775808.0,
            -9223372036854775808.0, 1e300, -5e-324, f64::INFINITY, f64::NEG_INFINITY]
        .map(|x| Cell::Real(x.to_bits())),
    );
    values
}

/// A row with a value of any kind in every column; often one that can be read.
fn odd_row(seed: &mut u64, values: &[Cell]) -> EntryRow {
    let mut row = clipboard_entry(&content(next(seed)), (next(seed) % 4) as i64, 0);
    let mut any = || values[next(seed) as usize % values.len()].clone();
    let (a, b, c, d, e, f) = (any(), any(), any(), any(), any(), any());
    match next(seed) % 8 {
        0 => row.content_type = a,
        1 => row.text_content = b,
        2 => row.blob_content = c,
        3 => row.image_width = d,
        4 => row.image_height = e,
        5 => row.created_at = f,
        6 => {
            row.content_type = word("image");
            row.blob_content = c;
            row.image_width = d;
            row.image_height = e;
            row.created_at = f;
        }
        _ => {}
    }
    if matches!(row.content_type, Cell::Null) {
        row.content_type = word("file");
    }
    if matches!(row.created_at, Cell::Null) {
        row.created_at = Cell::Integer(3);
    }
    row
}

/// The contents that a row may stand for, also where it cannot be read.
fn contents_near(seed: &mut u64) -> ClipBoardContentType {
    match next(seed) % 4 {
        0 => ClipBoardContentType::Image(ImageData {
            width: [0, 1, 2, 4, 1 << 63][next(seed) as usize % 5],
            height: [0, 1, 2, 1 << 63][next(seed) as usize % 4],
            bytes: [vec![], vec![7; 4], vec![7; 8]][next(seed) as usize % 3].clone(),
        }),
        1 => ClipBoardContentType::Text("1".to_string()),
        _ => content(next(seed)),
    }
}

#[test]
fn tables_with_values_of_any_kind_agree_with_statements() {
    let values = odd_values();
    let mut seed = 7u64;
    for round in 0..300 {
        let conn = if round % 2 == 0 { open() } else { open_untyped() };
        for _ in 0..next(&mut seed) % 12 {
            insert_row(&conn, &odd_row(&mut seed, &values));
        }
        assert_eq!(loaded(&table_of(&conn)), load_statement(&conn).map_err(fault));

        let before = rows_of(&conn);
        let mut table = table_of(&conn);
        let new = contents_near(&mut seed);
        let now = (next(&mut seed) % 4) as i64;
        delete_statement(&conn, &new);
        let id = insert_statement(&conn, &new, now);
        let deleted = store_clipboard_content(&mut table, &new, now, id);
        // What a new row counts as is not asked of the database.
        let plain = |mut rows: Vec<EntryRow>| {
            for row in &mut rows {
                row.size_differs = row.size_differs && row.id != id;
            }
            rows
        };
        let row = clipboard_entry(&new, now, id);
        assert_eq!(plain(sorted(rows_of(&conn))), applied(before, Some(row), &deleted));
        assert_eq!(loaded(&table), load_statement(&conn).map_err(fault));

        let before = rows_of(&conn);
        let mut table = table_of(&conn);
        conn.execute(PURGE, []).unwrap();
        conn.execute(TRIM, []).unwrap();
        let deleted = purge_clipboard(&mut table);
        assert_eq!(sorted(rows_of(&conn)), applied(before, None, &deleted));
        assert_eq!(loaded(&table), load_statement(&conn).map_err(fault));
    }
}

#[test]
fn values_of_any_kind_are_ordered_as_in_statements() {
    let conn = open_untyped();
    let values = odd_values();
    for value in values.iter().chain(values.iter().rev()) {
        let content = ClipBoardContentType::Text(format!("{}", rows_of(&conn).len()));
        let row = clipboard_entry(&content, 0, 0);
        insert_row(&conn, &EntryRow { created_at: value.clone(), ..row });
    }
    assert_eq!(loaded(&table_of(&conn)), load_statement(&conn).map_err(fault));
    assert_eq!(loaded(&table_of(&conn)).unwrap().len(), 2 * values.len());
}
