//! What holds of the rows of the clipboard history, each by itself.

use crate::cell;
use crate::cell::{ColumnType, Datum};
use crate::clipboard::{ClipBoardContentType, Content};
use crate::entry;
use crate::entry::{Entry, EntryRow, RowFault};
use vstd::prelude::*;
use vstd::utf8::*;

verus! {

/// A text as a value in a column.
pub open spec fn as_text(text: Seq<char>) -> Datum {
    Datum::Text(encode_utf8(text))
}

/// Numbers below half of what 64 bits hold stay as they are when they get a sign;
/// the others wrap round.
pub proof fn signs_wrap_round(n: int)
    requires
        0 <= n < 0x1_0000_0000_0000_0000,
    ensures
        n < 0x8000_0000_0000_0000 ==> entry::signed(n) == n,
        n >= 0x8000_0000_0000_0000 ==> entry::signed(n) == n - 0x1_0000_0000_0000_0000,
{
}

/// The row that stands for a text or a link says so, holds it, and counts its bytes.
pub proof fn rows_for_texts_have_their_columns(text: Seq<char>, now: int, id: int)
    ensures
        ({
            let row = entry::entry_for(Content::Text(text), now, id);
            let link = entry::entry_for(Content::Url(text), now, id);
            &&& row.content_type == as_text("text"@)
            &&& link.content_type == as_text("url"@)
            &&& forall|e: Entry| e == row || e == link ==> {
                &&& #[trigger] e.id == id
                &&& e.created_at == Datum::Integer(now)
                &&& e.text == as_text(text)
                &&& e.blob is Null && e.width is Null && e.height is Null
                &&& encode_utf8(text).len() < 0x1_0000_0000 ==> e.size_bytes == Datum::Integer(
                    encode_utf8(text).len() as int,
                )
                &&& e.size_bytes == Datum::Integer(encode_utf8(text).len() as int % 0x1_0000_0000)
                &&& !e.size_differs
            }
        }),
{
}

/// The row that stands for a picture says so, and holds its bytes, its width and its
/// height.
pub proof fn rows_for_images_have_their_columns(
    width: int,
    height: int,
    bytes: Seq<u8>,
    now: int,
    id: int,
)
    requires
        0 <= width < 0x1_0000_0000_0000_0000,
        0 <= height < 0x1_0000_0000_0000_0000,
    ensures
        ({
            let row = entry::entry_for(Content::Image { width, height, bytes }, now, id);
            &&& row.id == id
            &&& row.created_at == Datum::Integer(now)
            &&& row.content_type == as_text("image"@)
            &&& row.text is Null
            &&& row.blob == Datum::Blob(bytes)
            &&& width < 0x8000_0000_0000_0000 ==> row.width == Datum::Integer(width)
            &&& width >= 0x8000_0000_0000_0000 ==> row.width == Datum::Integer(
                width - 0x1_0000_0000_0000_0000,
            )
            &&& height < 0x8000_0000_0000_0000 ==> row.height == Datum::Integer(height)
            &&& height >= 0x8000_0000_0000_0000 ==> row.height == Datum::Integer(
                height - 0x1_0000_0000_0000_0000,
            )
            &&& bytes.len() < 0x8000_0000_0000_0000 ==> row.size_bytes == Datum::Integer(
                bytes.len() as int,
            )
            &&& !row.size_differs
        }),
{
}

/// Which rows read as a text or as a link: those of the kind `text` or `url` whose
/// text it is.
pub proof fn texts_are_read_from_their_columns(entry: Entry, text: Seq<char>)
    ensures
        entry::decoded(entry) == Ok::<Content, RowFault>(Content::Text(text)) <==> {
            entry.content_type == as_text("text"@) && entry.text == as_text(text)
        },
        entry::decoded(entry) == Ok::<Content, RowFault>(Content::Url(text)) <==> {
            entry.content_type == as_text("url"@) && entry.text == as_text(text)
        },
{
    broadcast use {encode_utf8_valid_utf8, encode_utf8_decode_utf8, decode_utf8_encode_utf8};

    entry::lemma_kinds_differ();
}

/// Which rows read as a picture: those of the kind `image` with its bytes, width and
/// height, where the numbers have 32 bits and there are four bytes for each pixel,
/// as far as the machine can count.
pub proof fn images_are_read_from_their_columns(
    entry: Entry,
    width: int,
    height: int,
    bytes: Seq<u8>,
)
    ensures
        entry::decoded(entry) == Ok::<Content, RowFault>(Content::Image { width, height, bytes })
            <==> {
            &&& entry.content_type == as_text("image"@)
            &&& entry.blob == Datum::Blob(bytes)
            &&& entry.width == Datum::Integer(width) && 0 <= width <= 0xffff_ffff
            &&& entry.height == Datum::Integer(height) && 0 <= height <= 0xffff_ffff
            &&& if width * height * 4 <= usize::MAX {
                bytes.len() == width * height * 4
            } else {
                bytes.len() == usize::MAX
            }
        },
{
    broadcast use {encode_utf8_valid_utf8, encode_utf8_decode_utf8, decode_utf8_encode_utf8};

    entry::lemma_kinds_differ();
}

/// A fault for a value of a wrong kind.
pub open spec fn wrong_kind(index: int, name: Seq<char>, ty: ColumnType) -> Result<
    Content,
    RowFault,
> {
    Err(RowFault::InvalidColumnType { index, name, ty })
}

/// What is wrong with a row whose kind cannot be read or is not known.
pub proof fn unknown_kinds_are_reported(entry: Entry)
    ensures
        entry.content_type !is Text ==> entry::decoded(entry) == wrong_kind(
            0,
            "content_type"@,
            cell::kind(entry.content_type),
        ),
        entry.content_type matches Datum::Text(bytes) ==> {
            &&& !valid_utf8(bytes) ==> entry::decoded(entry) == Err::<Content, RowFault>(
                RowFault::Utf8Error { index: 0, bytes },
            )
            &&& valid_utf8(bytes) && entry.content_type != as_text("text"@) && entry.content_type
                != as_text("url"@) && entry.content_type != as_text("image"@) ==> entry::decoded(
                entry,
            ) == wrong_kind(0, decode_utf8(bytes), ColumnType::Text)
        },
{
    broadcast use decode_utf8_encode_utf8;

}

/// What is wrong with a row of text that has no text, or none that can be read.
pub proof fn missing_texts_are_reported(entry: Entry)
    requires
        entry.content_type == as_text("text"@) || entry.content_type == as_text("url"@),
    ensures
        match entry.text {
            Datum::Text(bytes) => if valid_utf8(bytes) {
                entry::decoded(entry) is Ok
            } else {
                entry::decoded(entry) == Err::<Content, RowFault>(
                    RowFault::Utf8Error { index: 1, bytes },
                )
            },
            _ => entry::decoded(entry) == wrong_kind(
                1,
                "text_content"@,
                cell::kind(entry.text),
            ),
        },
{
    broadcast use {encode_utf8_valid_utf8, encode_utf8_decode_utf8};

    entry::lemma_kinds_differ();
}

/// What is wrong with a row of a picture: the first of its bytes, its width, its
/// height and its size that is wrong.
pub proof fn broken_images_are_reported(entry: Entry)
    requires
        entry.content_type == as_text("image"@),
    ensures
        entry.blob !is Blob ==> entry::decoded(entry) == wrong_kind(
            2,
            "blob_content"@,
            cell::kind(entry.blob),
        ),
        entry.blob is Blob && entry.width !is Integer ==> entry::decoded(entry) == wrong_kind(
            3,
            "image_width"@,
            cell::kind(entry.width),
        ),
        entry.blob is Blob ==> (entry.width matches Datum::Integer(width) ==> {
            &&& !(0 <= width <= 0xffff_ffff) ==> entry::decoded(entry) == Err::<Content, RowFault>(
                RowFault::IntegralValueOutOfRange { index: 3, value: width },
            )
            &&& 0 <= width <= 0xffff_ffff && entry.height !is Integer ==> entry::decoded(entry)
                == wrong_kind(4, "image_height"@, cell::kind(entry.height))
            &&& 0 <= width <= 0xffff_ffff ==> (entry.height matches Datum::Integer(height) ==> {
                &&& !(0 <= height <= 0xffff_ffff) ==> entry::decoded(entry) == Err::<
                    Content,
                    RowFault,
                >(RowFault::IntegralValueOutOfRange { index: 4, value: height })
                &&& 0 <= height <= 0xffff_ffff && entry::decoded(entry) is Err
                    ==> entry::decoded(entry) == wrong_kind(2, "image"@, ColumnType::Blob)
            })
        }),
{
    broadcast use {encode_utf8_valid_utf8, encode_utf8_decode_utf8};

    entry::lemma_kinds_differ();
}

/// Which rows hold a text or a link, and so are deleted with it.
pub proof fn rows_hold_the_texts_of_their_columns(entry: Entry, text: Seq<char>)
    ensures
        entry::holds(entry, Content::Text(text)) <==> entry.content_type == as_text("text"@)
            && entry.text == as_text(text),
        entry::holds(entry, Content::Url(text)) <==> entry.content_type == as_text("url"@)
            && entry.text == as_text(text),
{
}

/// Which rows hold a picture, and so are deleted with it: those of the kind `image`
/// with its bytes, whose width and height are the same numbers, whole or real.
/// Numbers of which the greatest of 64 bits is set are below zero in a row.
pub proof fn rows_hold_the_images_of_their_columns(
    entry: Entry,
    width: int,
    height: int,
    bytes: Seq<u8>,
)
    requires
        0 <= width < 0x1_0000_0000_0000_0000,
        0 <= height < 0x1_0000_0000_0000_0000,
    ensures
        ({
            let picture = Content::Image { width, height, bytes };
            let w = if width < 0x8000_0000_0000_0000 {
                width
            } else {
                width - 0x1_0000_0000_0000_0000
            };
            let h = if height < 0x8000_0000_0000_0000 {
                height
            } else {
                height - 0x1_0000_0000_0000_0000
            };
            &&& entry::holds(entry, picture) <==> {
                &&& entry.content_type == as_text("image"@)
                &&& entry.blob == Datum::Blob(bytes)
                &&& entry.width is Integer || entry.width is Real
                &&& entry.height is Integer || entry.height is Real
                &&& cell::ties(entry.width, Datum::Integer(w))
                &&& cell::ties(entry.height, Datum::Integer(h))
            }
            &&& entry.width is Integer && entry.height is Integer ==> (entry::holds(entry, picture)
                <==> entry.content_type == as_text("image"@) && entry.blob == Datum::Blob(bytes)
                && entry.width == Datum::Integer(w) && entry.height == Datum::Integer(h))
        }),
{
    if entry.width is Integer {
        cell::integers_are_ordered(entry.width->Integer_0, entry::signed(width));
    }
    if entry.height is Integer {
        cell::integers_are_ordered(entry.height->Integer_0, entry::signed(height));
    }
}

/// Which rows are broken: a text or a link without text, and a picture without
/// bytes, width or height, or with another number of bytes than four for each pixel.
/// Where these have values of other kinds, the database is asked. No other row is
/// broken.
pub proof fn what_is_missing_breaks_a_row(entry: Entry)
    ensures
        entry.content_type == as_text("text"@) || entry.content_type == as_text("url"@) ==> (
        entry::is_broken(entry) <==> entry.text is Null),
        entry.content_type == as_text("image"@) ==> {
            &&& entry.blob is Null || entry.width is Null || entry.height is Null
                ==> entry::is_broken(entry)
            &&& entry.blob is Blob && entry.width is Integer && entry.height is Integer ==> (
            entry::is_broken(entry) <==> entry.blob->Blob_0.len() != entry.width->Integer_0
                * entry.height->Integer_0 * 4)
            &&& !(entry.blob is Null || entry.width is Null || entry.height is Null) && !(
            entry.blob is Blob && entry.width is Integer && entry.height is Integer) ==> (
            entry::is_broken(entry) <==> entry.size_differs)
        },
        entry.content_type != as_text("text"@) && entry.content_type != as_text("url"@)
            && entry.content_type != as_text("image"@) ==> !entry::is_broken(entry),
{
    entry::lemma_kinds_differ();
}

/// A row that can be read is not broken, and a broken row cannot be read. (A picture
/// whose bytes are as many as the machine can count is left out.)
pub proof fn readable_rows_are_not_broken(entry: Entry)
    requires
        entry.blob matches Datum::Blob(bytes) ==> bytes.len() < usize::MAX,
    ensures
        entry::decoded(entry) is Ok ==> !entry::is_broken(entry),
        entry::is_broken(entry) ==> entry::decoded(entry) is Err,
{
    broadcast use {encode_utf8_valid_utf8, encode_utf8_decode_utf8, decode_utf8_encode_utf8};

    entry::lemma_kinds_differ();
}

/// The value of a row is made of the values in its columns, each in its place.
pub proof fn rows_have_the_values_of_their_columns(row: EntryRow)
    ensures
        row@.id == row.id,
        row@.content_type == row.content_type@,
        row@.text == row.text_content@,
        row@.blob == row.blob_content@,
        row@.width == row.image_width@,
        row@.height == row.image_height@,
        row@.created_at == row.created_at@,
        row@.size_bytes == row.size_bytes@,
        row@.size_differs == row.size_differs,
{
}

/// The value of a content says what it is, and holds its text or its bytes, width and
/// height.
pub proof fn contents_have_their_values(content: ClipBoardContentType)
    ensures
        match content {
            ClipBoardContentType::Text(text) => content@ == Content::Text(text@),
            ClipBoardContentType::Url(url) => content@ == Content::Url(url@),
            ClipBoardContentType::Image(image) => content@ == (Content::Image {
                width: image.width as int,
                height: image.height as int,
                bytes: image.bytes@,
            }),
        },
{
}

} // verus!
