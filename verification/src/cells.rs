//! The cells of a row, and the JSON values that they are sent as.

use crate::json::{items_view, members_view, object, push_item, push_member, Json, Value};
use crate::text::same_text;
use base64::engine::general_purpose::STANDARD as BASE64;
use base64::Engine;
use vstd::prelude::*;

verus! {

/// What a cell is read as.
#[derive(Clone, Copy, Debug, PartialEq, Eq, Structural)]
pub enum CellKind {
    Null,
    Integer,
    Real,
    Blob,
    Text,
}

/// What a cell is read as, going by the name of its type.
pub open spec fn kind_of(is_null: bool, declared: Seq<char>) -> CellKind {
    if is_null {
        CellKind::Null
    } else if declared == "INTEGER"@ {
        CellKind::Integer
    } else if declared == "REAL"@ {
        CellKind::Real
    } else if declared == "BLOB"@ {
        CellKind::Blob
    } else {
        CellKind::Text
    }
}

/// What a cell is read as.
pub fn cell_kind(is_null: bool, declared: &str) -> (kind: CellKind)
    ensures
        kind == kind_of(is_null, declared@),
{
    if is_null {
        CellKind::Null
    } else if same_text(declared, "INTEGER") {
        CellKind::Integer
    } else if same_text(declared, "REAL") {
        CellKind::Real
    } else if same_text(declared, "BLOB") {
        CellKind::Blob
    } else {
        CellKind::Text
    }
}

/// A cell that has been read.
#[derive(Debug, PartialEq, Eq)]
pub enum Cell {
    Null,
    Integer(i64),
    /// A number in double precision, by its bits.
    Real(u64),
    Blob(Vec<u8>),
    Text(String),
}

/// What a [`Cell`] holds.
pub enum CellView {
    Null,
    Integer(i64),
    Real(u64),
    Blob(Seq<u8>),
    Text(Seq<char>),
}

impl View for Cell {
    type V = CellView;

    open spec fn view(&self) -> CellView {
        match self {
            Cell::Null => CellView::Null,
            Cell::Integer(value) => CellView::Integer(*value),
            Cell::Real(bits) => CellView::Real(*bits),
            Cell::Blob(bytes) => CellView::Blob(bytes@),
            Cell::Text(text) => CellView::Text(text@),
        }
    }
}

/// The letter of base64 that stands for six bits.
pub open spec fn base64_letter(bits: int) -> char {
    if bits < 26 {
        ('A' as int + bits) as char
    } else if bits < 52 {
        ('a' as int + (bits - 26)) as char
    } else if bits < 62 {
        ('0' as int + (bits - 52)) as char
    } else if bits == 62 {
        '+'
    } else {
        '/'
    }
}

/// The byte at a place, or zero behind the end.
pub open spec fn byte_at(bytes: Seq<u8>, place: int) -> int {
    if 0 <= place < bytes.len() {
        bytes[place] as int
    } else {
        0
    }
}

/// The six bits that the `i`-th character of base64 stands for. Four characters stand for
/// three bytes.
pub open spec fn base64_bits(bytes: Seq<u8>, i: int) -> int {
    let place = i / 4 * 3;
    if i % 4 == 0 {
        byte_at(bytes, place) / 4
    } else if i % 4 == 1 {
        byte_at(bytes, place) % 4 * 16 + byte_at(bytes, place + 1) / 16
    } else if i % 4 == 2 {
        byte_at(bytes, place + 1) % 16 * 4 + byte_at(bytes, place + 2) / 64
    } else {
        byte_at(bytes, place + 2) % 64
    }
}

/// How many characters base64 takes.
pub open spec fn base64_len(bytes: nat) -> nat {
    (bytes + 2) / 3 * 4
}

/// Bytes in base64, with the standard alphabet. A last group that is short of bytes is
/// padded.
pub open spec fn base64_text(bytes: Seq<u8>) -> Seq<char> {
    Seq::new(
        base64_len(bytes.len()),
        |i: int|
            if i / 4 * 3 + i % 4 > bytes.len() {
                '='
            } else {
                base64_letter(base64_bits(bytes, i))
            },
    )
}

/// `Engine::encode` of the `base64` crate, with its engine `STANDARD`: the bytes in base64,
/// in the standard alphabet, padded. It panics where the text is longer than memory can be,
/// so such bytes are left out.
#[verifier::external_body]
fn encode_base64(bytes: &[u8]) -> (text: String)
    requires
        base64_len(bytes@.len()) <= isize::MAX,
    ensures
        text@ == base64_text(bytes@),
{
    BASE64.encode(bytes)
}

/// Whether the bits of a double are those of a finite number.
pub open spec fn is_finite(bits: u64) -> bool {
    bits / 0x10_0000_0000_0000 % 0x800 != 0x7ff
}

impl CellView {
    /// Whether the cell can be sent: memory has room for the text of its bytes.
    pub open spec fn sendable(self) -> bool {
        self matches CellView::Blob(bytes) ==> base64_len(bytes.len()) <= isize::MAX
    }

    /// What the cell is sent as. Bytes are sent as an object of their base64. JSON has no
    /// number that is not finite.
    pub open spec fn json(self) -> Json {
        match self {
            CellView::Null => Json::Null,
            CellView::Integer(value) => Json::Integer(value),
            CellView::Real(bits) => if is_finite(bits) {
                Json::Real(bits)
            } else {
                Json::Null
            },
            CellView::Blob(bytes) => Json::Object(
                seq![("$blob"@, Json::Text(base64_text(bytes)))],
            ),
            CellView::Text(text) => Json::Text(text),
        }
    }
}

impl Cell {
    /// Whether the cell can be sent.
    pub fn can_be_sent(&self) -> (result: bool)
        ensures
            result == self@.sendable(),
    {
        match self {
            Cell::Blob(bytes) => bytes.len() / 3 < isize::MAX as usize / 4 || (bytes.len() % 3 == 0
                && bytes.len() / 3 == isize::MAX as usize / 4),
            _ => true,
        }
    }

    /// What the cell is sent as.
    pub fn into_value(self) -> (value: Value)
        requires
            self@.sendable(),
        ensures
            value.view() == self@.json(),
    {
        match self {
            Cell::Null => Value::Null,
            Cell::Integer(value) => Value::Integer(value),
            Cell::Real(bits) => if bits / 0x10_0000_0000_0000 % 0x800 != 0x7ff {
                Value::Real(bits)
            } else {
                Value::Null
            },
            Cell::Blob(bytes) => {
                let mut members: Vec<(String, Value)> = Vec::new();
                push_member(&mut members, "$blob", Value::Text(encode_base64(bytes.as_slice())));
                assert(members_view(members@) =~= seq![
                    ("$blob"@, Json::Text(base64_text(bytes@))),
                ]);
                object(members)
            },
            Cell::Text(text) => Value::Text(text),
        }
    }
}

/// Where base64 has no padding, it tells the bits that a character stands for.
proof fn lemma_base64_bits(left: Seq<u8>, right: Seq<u8>, i: int)
    requires
        left.len() == right.len(),
        base64_text(left) == base64_text(right),
        0 <= i < base64_len(left.len()),
        i / 4 * 3 + i % 4 <= left.len(),
    ensures
        base64_bits(left, i) == base64_bits(right, i),
{
    assert(base64_text(left)[i] == base64_letter(base64_bits(left, i)));
    assert(base64_text(right)[i] == base64_letter(base64_bits(right, i)));
    assert(0 <= base64_bits(left, i) < 64);
    assert(0 <= base64_bits(right, i) < 64);
}

/// Base64 of as many characters comes from as many bytes.
proof fn lemma_base64_length(left: Seq<u8>, right: Seq<u8>)
    requires
        base64_text(left) == base64_text(right),
    ensures
        left.len() >= right.len(),
{
    assert(base64_text(left).len() == base64_len(left.len()));
    assert(base64_text(right).len() == base64_len(right.len()));
    if left.len() < right.len() {
        let group = (right.len() - 1) / 3;
        assert((left.len() + 2) / 3 == (right.len() + 2) / 3);
        assert(3 * group < left.len() < 3 * group + 3);
        let i = 4 * group + (left.len() + 1 - 3 * group);
        assert(i / 4 == group && i % 4 == left.len() + 1 - 3 * group);
        assert(0 <= base64_bits(right, i) < 64);
        assert(base64_text(left)[i] == '=');
        assert(base64_text(right)[i] == base64_letter(base64_bits(right, i)));
    }
}

/// What a cell of bytes is sent as tells its bytes: no other bytes are sent as the same
/// object.
pub proof fn law_blobs_are_told_apart(left: Seq<u8>, right: Seq<u8>)
    ensures
        CellView::Blob(left).json() == CellView::Blob(right).json() <==> left == right,
{
    if CellView::Blob(left).json() == CellView::Blob(right).json() {
        assert(CellView::Blob(left).json()->Object_0[0].1->Text_0 == base64_text(left));
        assert(CellView::Blob(right).json()->Object_0[0].1->Text_0 == base64_text(right));
        lemma_base64_length(left, right);
        lemma_base64_length(right, left);
        assert forall|j: int| 0 <= j < left.len() implies left[j] == right[j] by {
            let i = j / 3 * 4 + j % 3;
            lemma_base64_bits(left, right, i);
            lemma_base64_bits(left, right, i + 1);
            assert(i / 4 * 3 == j / 3 * 3 && i % 4 == j % 3);
            assert((i + 1) / 4 * 3 == j / 3 * 3 && (i + 1) % 4 == j % 3 + 1);
            assert(byte_at(left, j) == left[j] && byte_at(right, j) == right[j]);
        }
        assert(left =~= right);
    }
}

/// Whether every cell of a row can be sent.
pub open spec fn row_sendable(cells: Seq<Cell>) -> bool {
    forall|i: int| 0 <= i < cells.len() ==> (#[trigger] cells[i])@.sendable()
}

/// What a row is sent as.
pub open spec fn row_json(cells: Seq<Cell>) -> Seq<Json> {
    Seq::new(cells.len(), |i: int| cells[i]@.json())
}

/// What the cells of a row are sent as, in their order.
pub fn row_values(cells: Vec<Cell>) -> (values: Vec<Value>)
    requires
        row_sendable(cells@),
    ensures
        items_view(values@) == row_json(cells@),
{
    let mut values: Vec<Value> = Vec::new();
    for cell in row: cells.into_iter()
        invariant
            row.seq() == cells@,
            row_sendable(cells@),
            items_view(values@) == row_json(cells@).take(row.index()),
    {
        assert(cell == cells@[row.index()]);
        push_item(&mut values, cell.into_value());
        assert(items_view(values@) =~= row_json(cells@).take(row.index() + 1));
    }
    assert(row_json(cells@).take(cells@.len() as int) =~= row_json(cells@));
    values
}

} // verus!
