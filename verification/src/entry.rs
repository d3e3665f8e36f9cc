//! The rows of the clipboard history: what a row holds, and the row that stands
//! for what is stored.

use crate::cell;
use crate::cell::{Cell, ColumnType, Datum};
use crate::clipboard::{ClipBoardContentType, Content, ImageData};
use crate::text;
use vstd::prelude::*;
use vstd::string::*;
use vstd::utf8::*;

verus! {

/// A row of the table `clipboard_entries`. A column is meant for one kind of value,
/// but a row can have a value of any kind in it; only the primary key is always an
/// integer.
#[derive(Debug, Clone, PartialEq, Eq)]
pub struct EntryRow {
    /// The primary key.
    pub id: i64,
    /// What the row holds: `text`, `url` or `image`.
    pub content_type: Cell,
    pub text_content: Cell,
    pub blob_content: Cell,
    pub image_width: Cell,
    pub image_height: Cell,
    /// When the row was made, in milliseconds since 1970.
    pub created_at: Cell,
    pub size_bytes: Cell,
    /// Whether the database counts another length of `blob_content` than four for
    /// each pixel. That is asked of it only where one of the three columns has a
    /// value of a kind that it is not meant for.
    pub size_differs: bool,
}

/// The value of an `EntryRow`.
#[verifier::ext_equal]
pub struct Entry {
    pub id: int,
    pub content_type: Datum,
    pub text: Datum,
    pub blob: Datum,
    pub width: Datum,
    pub height: Datum,
    pub created_at: Datum,
    pub size_bytes: Datum,
    pub size_differs: bool,
}

impl View for EntryRow {
    type V = Entry;

    open spec fn view(&self) -> Entry {
        Entry {
            id: self.id as int,
            content_type: self.content_type@,
            text: self.text_content@,
            blob: self.blob_content@,
            width: self.image_width@,
            height: self.image_height@,
            created_at: self.created_at@,
            size_bytes: self.size_bytes@,
            size_differs: self.size_differs,
        }
    }
}

/// An unsigned number as a signed one of 64 bits.
pub open spec fn signed(n: int) -> int {
    if n <= i64::MAX {
        n
    } else {
        n - 0x1_0000_0000_0000_0000
    }
}

/// Whether a row holds the given content.
pub open spec fn holds(entry: Entry, content: Content) -> bool {
    match content {
        Content::Text(text) => {
            cell::is_text(entry.content_type, "text"@) && cell::is_text(entry.text, text)
        },
        Content::Url(url) => {
            cell::is_text(entry.content_type, "url"@) && cell::is_text(entry.text, url)
        },
        Content::Image { width, height, bytes } => {
            &&& cell::is_text(entry.content_type, "image"@)
            &&& entry.blob == Datum::Blob(bytes)
            &&& cell::equals_number(entry.width, signed(width))
            &&& cell::equals_number(entry.height, signed(height))
        },
    }
}

/// The row that stands for the given content.
pub open spec fn entry_for(content: Content, created_at: int, id: int) -> Entry {
    match content {
        Content::Text(text) => text_entry("text"@, text, created_at, id),
        Content::Url(url) => text_entry("url"@, url, created_at, id),
        Content::Image { width, height, bytes } => Entry {
            id,
            content_type: Datum::Text(encode_utf8("image"@)),
            text: Datum::Null,
            blob: Datum::Blob(bytes),
            width: Datum::Integer(signed(width)),
            height: Datum::Integer(signed(height)),
            created_at: Datum::Integer(created_at),
            size_bytes: Datum::Integer(signed(bytes.len() as int)),
            size_differs: false,
        },
    }
}

/// The row of the given kind that stands for a text.
pub open spec fn text_entry(kind: Seq<char>, text: Seq<char>, created_at: int, id: int) -> Entry {
    Entry {
        id,
        content_type: Datum::Text(encode_utf8(kind)),
        text: Datum::Text(encode_utf8(text)),
        blob: Datum::Null,
        width: Datum::Null,
        height: Datum::Null,
        created_at: Datum::Integer(created_at),
        size_bytes: Datum::Integer(encode_utf8(text).len() as int % 0x1_0000_0000),
        size_differs: false,
    }
}

fn to_signed(n: usize) -> (r: i64)
    ensures
        r == signed(n as int),
{
    let wide: u64 = n as u64;
    assert(wide as i64 == (if wide <= 0x7fff_ffff_ffff_ffff {
        wide as int
    } else {
        wide - 0x1_0000_0000_0000_0000
    })) by (bit_vector);
    wide as i64
}

/// Whether a row holds the given content.
pub fn row_holds(row: &EntryRow, content: &ClipBoardContentType) -> (r: bool)
    ensures
        r == holds(row@, content@),
{
    match content {
        ClipBoardContentType::Text(text) => {
            cell::cell_is_text(&row.content_type, "text") && cell::cell_is_text(
                &row.text_content,
                text.as_str(),
            )
        },
        ClipBoardContentType::Url(url) => {
            cell::cell_is_text(&row.content_type, "url") && cell::cell_is_text(
                &row.text_content,
                url.as_str(),
            )
        },
        ClipBoardContentType::Image(image) => {
            cell::cell_is_text(&row.content_type, "image") && (match &row.blob_content {
                Cell::Blob(bytes) => cell::same_bytes(bytes.as_slice(), image.bytes.as_slice()),
                _ => false,
            }) && cell::cell_is_number(&row.image_width, to_signed(image.width))
                && cell::cell_is_number(&row.image_height, to_signed(image.height))
        },
    }
}

/// The number of bytes of a string, as a number of 32 bits.
fn text_size(s: &str) -> (size: i64)
    ensures
        size == encode_utf8(s@).len() as int % 0x1_0000_0000,
{
    let length: usize = s.as_bytes().len();
    let wide: u64 = length as u64;
    assert(wide as u32 == wide % 0x1_0000_0000u64) by (bit_vector);
    (wide as u32) as i64
}

fn text_row(kind: &str, text: &str, now: i64, id: i64) -> (row: EntryRow)
    ensures
        row@ == text_entry(kind@, text@, now as int, id as int),
{
    EntryRow {
        id,
        content_type: cell::text_cell(kind),
        text_content: cell::text_cell(text),
        blob_content: Cell::Null,
        image_width: Cell::Null,
        image_height: Cell::Null,
        created_at: Cell::Integer(now),
        size_bytes: Cell::Integer(text_size(text)),
        size_differs: false,
    }
}

/// The row that stands for the given content.
pub fn clipboard_entry(content: &ClipBoardContentType, now: i64, id: i64) -> (row: EntryRow)
    ensures
        row@ == entry_for(content@, now as int, id as int),
{
    match content {
        ClipBoardContentType::Text(text) => text_row("text", text.as_str(), now, id),
        ClipBoardContentType::Url(url) => text_row("url", url.as_str(), now, id),
        ClipBoardContentType::Image(image) => {
            let bytes: Vec<u8> = image.bytes.clone();
            assert(bytes@ == image.bytes@);
            EntryRow {
                id,
                content_type: cell::text_cell("image"),
                text_content: Cell::Null,
                blob_content: Cell::Blob(bytes),
                image_width: Cell::Integer(to_signed(image.width)),
                image_height: Cell::Integer(to_signed(image.height)),
                created_at: Cell::Integer(now),
                size_bytes: Cell::Integer(to_signed(image.bytes.len())),
                size_differs: false,
            }
        },
    }
}

/// Why a row holds no content.
#[derive(Debug, Clone, PartialEq, Eq)]
pub enum RowError {
    /// The column with the given index has a value of a kind that it cannot have.
    InvalidColumnType { index: usize, name: String, ty: ColumnType },
    /// The column with the given index has a number that is out of range.
    IntegralValueOutOfRange { index: usize, value: i64 },
    /// The column with the given index has a text whose bytes are not UTF-8.
    Utf8Error { index: usize, bytes: Vec<u8> },
}

/// The value of a `RowError`.
#[verifier::ext_equal]
pub enum RowFault {
    InvalidColumnType { index: int, name: Seq<char>, ty: ColumnType },
    IntegralValueOutOfRange { index: int, value: int },
    Utf8Error { index: int, bytes: Seq<u8> },
}

impl View for RowError {
    type V = RowFault;

    open spec fn view(&self) -> RowFault {
        match self {
            RowError::InvalidColumnType { index, name, ty } => RowFault::InvalidColumnType {
                index: *index as int,
                name: name@,
                ty: *ty,
            },
            RowError::IntegralValueOutOfRange { index, value } => {
                RowFault::IntegralValueOutOfRange { index: *index as int, value: *value as int }
            },
            RowError::Utf8Error { index, bytes } => RowFault::Utf8Error {
                index: *index as int,
                bytes: bytes@,
            },
        }
    }
}

/// What a column of text must hold: a text in UTF-8.
pub open spec fn text_column(value: Datum, index: int, name: Seq<char>) -> Result<
    Seq<char>,
    RowFault,
> {
    match value {
        Datum::Text(bytes) => if valid_utf8(bytes) {
            Ok(decode_utf8(bytes))
        } else {
            Err(RowFault::Utf8Error { index, bytes })
        },
        _ => Err(RowFault::InvalidColumnType { index, name, ty: cell::kind(value) }),
    }
}

/// What a column of bytes must hold.
pub open spec fn blob_column(value: Datum, index: int, name: Seq<char>) -> Result<
    Seq<u8>,
    RowFault,
> {
    match value {
        Datum::Blob(bytes) => Ok(bytes),
        _ => Err(RowFault::InvalidColumnType { index, name, ty: cell::kind(value) }),
    }
}

/// What a column with the width or the height of an image must hold: a number of
/// 32 bits.
pub open spec fn size_column(value: Datum, index: int, name: Seq<char>) -> Result<int, RowFault> {
    match value {
        Datum::Integer(n) => if 0 <= n <= u32::MAX {
            Ok(n)
        } else {
            Err(RowFault::IntegralValueOutOfRange { index, value: n })
        },
        _ => Err(RowFault::InvalidColumnType { index, name, ty: cell::kind(value) }),
    }
}

/// How many bytes an image has, as far as that can be counted.
pub open spec fn image_size(width: int, height: int) -> int {
    if width * height * 4 <= usize::MAX {
        width * height * 4
    } else {
        usize::MAX as int
    }
}

/// The content of a row that holds an image.
pub open spec fn decoded_image(entry: Entry) -> Result<Content, RowFault> {
    match blob_column(entry.blob, 2, "blob_content"@) {
        Err(fault) => Err(fault),
        Ok(bytes) => match size_column(entry.width, 3, "image_width"@) {
            Err(fault) => Err(fault),
            Ok(width) => match size_column(entry.height, 4, "image_height"@) {
                Err(fault) => Err(fault),
                Ok(height) => if bytes.len() == image_size(width, height) {
                    Ok(Content::Image { width, height, bytes })
                } else {
                    Err(
                        RowFault::InvalidColumnType {
                            index: 2,
                            name: "image"@,
                            ty: ColumnType::Blob,
                        },
                    )
                },
            },
        },
    }
}

/// The content of a row, or what is wrong with the row.
pub open spec fn decoded(entry: Entry) -> Result<Content, RowFault> {
    match text_column(entry.content_type, 0, "content_type"@) {
        Err(fault) => Err(fault),
        Ok(kind) => if kind == "text"@ {
            match text_column(entry.text, 1, "text_content"@) {
                Ok(text) => Ok(Content::Text(text)),
                Err(fault) => Err(fault),
            }
        } else if kind == "url"@ {
            match text_column(entry.text, 1, "text_content"@) {
                Ok(url) => Ok(Content::Url(url)),
                Err(fault) => Err(fault),
            }
        } else if kind == "image"@ {
            decoded_image(entry)
        } else {
            Err(RowFault::InvalidColumnType { index: 0, name: kind, ty: ColumnType::Text })
        },
    }
}

fn read_text(value: &Cell, index: usize, name: &str) -> (r: Result<String, RowError>)
    ensures
        match r {
            Ok(text) => text_column(value@, index as int, name@) == Ok::<Seq<char>, RowFault>(text@),
            Err(error) => text_column(value@, index as int, name@) == Err::<Seq<char>, RowFault>(
                error@,
            ),
        },
{
    match value {
        Cell::Text(given) => {
            let bytes: Vec<u8> = given.clone();
            assert(bytes@ == given@);
            match text::text_from_utf8(bytes) {
                Some(text) => Ok(text),
                None => {
                    let bytes: Vec<u8> = given.clone();
                    assert(bytes@ == given@);
                    Err(RowError::Utf8Error { index, bytes })
                },
            }
        },
        _ => Err(
            RowError::InvalidColumnType {
                index,
                name: name.to_string(),
                ty: cell::kind_of(value),
            },
        ),
    }
}

fn read_blob(value: &Cell, index: usize, name: &str) -> (r: Result<Vec<u8>, RowError>)
    ensures
        match r {
            Ok(bytes) => blob_column(value@, index as int, name@) == Ok::<Seq<u8>, RowFault>(
                bytes@,
            ),
            Err(error) => blob_column(value@, index as int, name@) == Err::<Seq<u8>, RowFault>(
                error@,
            ),
        },
{
    match value {
        Cell::Blob(given) => {
            let bytes: Vec<u8> = given.clone();
            assert(bytes@ == given@);
            Ok(bytes)
        },
        _ => Err(
            RowError::InvalidColumnType {
                index,
                name: name.to_string(),
                ty: cell::kind_of(value),
            },
        ),
    }
}

fn read_size(value: &Cell, index: usize, name: &str) -> (r: Result<u32, RowError>)
    ensures
        match r {
            Ok(size) => size_column(value@, index as int, name@) == Ok::<int, RowFault>(
                size as int,
            ),
            Err(error) => size_column(value@, index as int, name@) == Err::<int, RowFault>(error@),
        },
{
    match value {
        Cell::Integer(n) => {
            if 0 <= *n && *n <= 0xffff_ffff {
                Ok(*n as u32)
            } else {
                Err(RowError::IntegralValueOutOfRange { index, value: *n })
            }
        },
        _ => Err(
            RowError::InvalidColumnType {
                index,
                name: name.to_string(),
                ty: cell::kind_of(value),
            },
        ),
    }
}

/// Whether an image of the given width and height has `length` bytes.
fn has_image_size(length: usize, width: u32, height: u32) -> (r: bool)
    ensures
        r == (length == image_size(width as int, height as int)),
{
    proof {
        assert(0 <= width * height <= 0xffff_ffff * 0xffff_ffff) by (nonlinear_arith)
            requires
                0 <= width <= 0xffff_ffff,
                0 <= height <= 0xffff_ffff,
        ;
    }
    let size: u128 = (width as u128) * (height as u128) * 4;
    if size <= usize::MAX as u128 {
        length as u128 == size
    } else {
        length == usize::MAX
    }
}

fn read_image(row: &EntryRow) -> (r: Result<ClipBoardContentType, RowError>)
    ensures
        match r {
            Ok(content) => decoded_image(row@) == Ok::<Content, RowFault>(content@),
            Err(error) => decoded_image(row@) == Err::<Content, RowFault>(error@),
        },
{
    let bytes: Vec<u8> = match read_blob(&row.blob_content, 2, "blob_content") {
        Ok(bytes) => bytes,
        Err(error) => {
            return Err(error);
        },
    };
    let width: u32 = match read_size(&row.image_width, 3, "image_width") {
        Ok(width) => width,
        Err(error) => {
            return Err(error);
        },
    };
    let height: u32 = match read_size(&row.image_height, 4, "image_height") {
        Ok(height) => height,
        Err(error) => {
            return Err(error);
        },
    };
    if has_image_size(bytes.len(), width, height) {
        Ok(
            ClipBoardContentType::Image(
                ImageData { width: width as usize, height: height as usize, bytes },
            ),
        )
    } else {
        Err(
            RowError::InvalidColumnType {
                index: 2,
                name: "image".to_string(),
                ty: ColumnType::Blob,
            },
        )
    }
}

/// The content of a row, or what is wrong with the row.
pub fn read_row(row: &EntryRow) -> (r: Result<ClipBoardContentType, RowError>)
    ensures
        match r {
            Ok(content) => decoded(row@) == Ok::<Content, RowFault>(content@),
            Err(error) => decoded(row@) == Err::<Content, RowFault>(error@),
        },
{
    let kind: String = match read_text(&row.content_type, 0, "content_type") {
        Ok(kind) => kind,
        Err(error) => {
            return Err(error);
        },
    };
    if text::same(kind.as_str(), "text") {
        match read_text(&row.text_content, 1, "text_content") {
            Ok(text) => Ok(ClipBoardContentType::Text(text)),
            Err(error) => Err(error),
        }
    } else if text::same(kind.as_str(), "url") {
        match read_text(&row.text_content, 1, "text_content") {
            Ok(url) => Ok(ClipBoardContentType::Url(url)),
            Err(error) => Err(error),
        }
    } else if text::same(kind.as_str(), "image") {
        read_image(row)
    } else {
        Err(RowError::InvalidColumnType { index: 0, name: kind, ty: ColumnType::Text })
    }
}

/// The time that a row is marked with, from the milliseconds since 1970; a clock
/// that is before that counts as one millisecond after it.
pub fn entry_time(millis: Option<u128>) -> (now: i64)
    ensures
        now == (match millis {
            Some(m) => signed((m as int) % 0x1_0000_0000_0000_0000),
            None => 1,
        }),
{
    match millis {
        Some(m) => {
            let low: u64 = m as u64;
            assert(m as u64 == m % 0x1_0000_0000_0000_0000u128) by (bit_vector);
            assert(low as i64 == (if low <= 0x7fff_ffff_ffff_ffff {
                low as int
            } else {
                low - 0x1_0000_0000_0000_0000
            })) by (bit_vector);
            low as i64
        },
        None => 1,
    }
}

/// Whether an image row has no bytes, no width or no height, or not four bytes
/// for each pixel, or a row of text has no text. What the length and the pixels
/// are where a column has a value of a kind that it is not meant for, the database
/// says.
pub open spec fn is_broken(entry: Entry) -> bool {
    ||| cell::is_text(entry.content_type, "image"@) && match (
        entry.blob,
        entry.width,
        entry.height,
    ) {
        (Datum::Null, _, _) => true,
        (_, Datum::Null, _) => true,
        (_, _, Datum::Null) => true,
        (Datum::Blob(bytes), Datum::Integer(width), Datum::Integer(height)) => {
            bytes.len() != width * height * 4
        },
        _ => entry.size_differs,
    }
    ||| (cell::is_text(entry.content_type, "text"@) || cell::is_text(entry.content_type, "url"@))
        && entry.text is Null
}

/// The bytes of different kinds of rows differ.
pub proof fn lemma_kinds_differ()
    ensures
        "text"@ != "url"@,
        "text"@ != "image"@,
        "url"@ != "image"@,
        encode_utf8("text"@) != encode_utf8("url"@),
        encode_utf8("text"@) != encode_utf8("image"@),
        encode_utf8("url"@) != encode_utf8("image"@),
{
    reveal_strlit("text");
    reveal_strlit("url");
    reveal_strlit("image");
    assert("text"@.len() == 4 && "url"@.len() == 3 && "image"@.len() == 5);
    encode_utf8_decode_utf8("text"@);
    encode_utf8_decode_utf8("url"@);
    encode_utf8_decode_utf8("image"@);
}

/// Whether a row is broken.
pub fn row_is_broken(row: &EntryRow) -> (r: bool)
    ensures
        r == is_broken(row@),
{
    if cell::cell_is_text(&row.content_type, "image") {
        proof {
            lemma_kinds_differ();
        }
        match (&row.blob_content, &row.image_width, &row.image_height) {
            (Cell::Null, _, _) => true,
            (_, Cell::Null, _) => true,
            (_, _, Cell::Null) => true,
            (Cell::Blob(bytes), Cell::Integer(width), Cell::Integer(height)) => {
                let width: i64 = *width;
                let height: i64 = *height;
                proof {
                    assert(-0x4000_0000_0000_0000_0000_0000_0000_0000 <= width * height
                        <= 0x4000_0000_0000_0000_0000_0000_0000_0000) by (nonlinear_arith)
                        requires
                            -0x8000_0000_0000_0000 <= width <= 0x7fff_ffff_ffff_ffff,
                            -0x8000_0000_0000_0000 <= height <= 0x7fff_ffff_ffff_ffff,
                    ;
                }
                let pixels: i128 = (width as i128) * (height as i128);
                let length: usize = bytes.len();
                !(length % 4 == 0 && (length / 4) as i128 == pixels)
            },
            _ => row.size_differs,
        }
    } else {
        (cell::cell_is_text(&row.content_type, "text") || cell::cell_is_text(
            &row.content_type,
            "url",
        )) && (match row.text_content {
            Cell::Null => true,
            _ => false,
        })
    }
}

} // verus!
