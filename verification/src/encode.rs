//! The value encoder: one backend cell in, one display-ready triple out.
//!
//! A cell arrives as the plain decoded value of its column (`RawCell`), and
//! leaves as a `TypedValue`: the column name, the display tag of the column's
//! declared type, and a value string pinned down exactly by `spec_cell_text`.
//! A null cell becomes the null sentinel whatever its type; a cell whose type
//! has no registered decoder is decoded as best-effort UTF-8 text, and the
//! unsupported-type sentinel stands in when even that failed.

use vstd::prelude::*;
use crate::bytestext::hex_encode;
use crate::bytestext::lossy_utf8;
use crate::bytestext::spec_hex;
use crate::bytestext::utf8_lossy;
use crate::numtext::i64_text;
use crate::numtext::spec_idec;
use crate::tags::ColumnType;
use crate::tags::Tag;
use crate::tags::column_type_of_oid;
use crate::tags::spec_column_type_of_oid;
use crate::tags::spec_tag_of;
use crate::tags::spec_tag_text;
use crate::tags::tag_of;
use crate::textutil::append_escaped;
use crate::textutil::bool_text;
use crate::textutil::lemma_join_push;
use crate::textutil::lemma_join_injective;
use crate::textutil::spec_clean_entry;
use crate::textutil::null_sentinel;
use crate::textutil::spec_bool_text;
use crate::textutil::spec_escaped;
use crate::textutil::spec_join;
use crate::textutil::spec_null_sentinel;
use crate::textutil::spec_unsupported_sentinel;
use crate::textutil::unsupported_sentinel;

verus! {

/// The plain decoded value of one cell, as the backend handed it over:
/// either null, a value of the column's family, the raw bytes of a type with
/// no registered decoder, or the mark that decoding failed entirely.
///
/// Integer widths all arrive as `Int`; families whose natural text form is
/// produced by their own decoder (text, JSON, timestamps, identifiers,
/// floating point) arrive as that text. An array arrives with one entry per
/// element, each possibly null: quoted text elements as `TextArray`, elements
/// with a text form of their own as `PlainArray`.
#[derive(Clone, Debug)]
pub enum RawCell {
    Null,
    Bool(bool),
    Int(i64),
    Bytes(Vec<u8>),
    Text(String),
    BoolArray(Vec<Option<bool>>),
    IntArray(Vec<Option<i64>>),
    TextArray(Vec<Option<String>>),
    PlainArray(Vec<Option<String>>),
    Raw(Vec<u8>),
    Undecodable,
}

/// One encoded cell: column name, display tag, and value string.
#[derive(Clone, Debug)]
pub struct TypedValue {
    pub name: String,
    pub tag: Tag,
    pub value: String,
}

/// One cell as fetched from the backend: the column's name, its wire-level
/// type id, and the plain decoded value.
#[derive(Clone, Debug)]
pub struct FetchedCell {
    pub name: String,
    pub oid: u32,
    pub raw: RawCell,
}

/// One fetched row, cells in the backend's column order.
#[derive(Clone, Debug)]
pub struct FetchedRow {
    pub cells: Vec<FetchedCell>,
}

/// One array element as rendered inside the array text: `None` for a null
/// element, `Some(...)` around the element's body.
pub open spec fn spec_opt_entry(body: Option<Seq<char>>) -> Seq<char> {
    match body {
        Some(b) => "Some("@ + b + ")"@,
        None => "None"@,
    }
}

/// A boolean array element.
pub open spec fn spec_bool_entry(o: Option<bool>) -> Seq<char> {
    match o {
        Some(b) => spec_opt_entry(Some(spec_bool_text(b))),
        None => spec_opt_entry(None),
    }
}

/// An integer array element.
pub open spec fn spec_int_entry(o: Option<i64>) -> Seq<char> {
    match o {
        Some(i) => spec_opt_entry(Some(spec_idec(i as int))),
        None => spec_opt_entry(None),
    }
}

/// A text array element: double-quoted, escaped character by character.
pub open spec fn spec_text_entry(o: Option<String>) -> Seq<char> {
    match o {
        Some(s) => spec_opt_entry(Some(seq!['"'] + spec_escaped(s@) + seq!['"'])),
        None => spec_opt_entry(None),
    }
}

/// An array element whose body is already its own text form.
pub open spec fn spec_plain_entry(o: Option<String>) -> Seq<char> {
    match o {
        Some(s) => spec_opt_entry(Some(s@)),
        None => spec_opt_entry(None),
    }
}

/// The text of a whole array: the rendered entries, in element order,
/// bracketed and separated by comma and space.
pub open spec fn spec_array_text(entries: Seq<Seq<char>>) -> Seq<char> {
    seq!['['] + spec_join(entries, seq![',', ' ']) + seq![']']
}

/// The rendered entries of a boolean array, in element order.
pub open spec fn spec_bool_entries(v: Seq<Option<bool>>) -> Seq<Seq<char>> {
    v.map_values(|o: Option<bool>| spec_bool_entry(o))
}

/// The rendered entries of an integer array, in element order.
pub open spec fn spec_int_entries(v: Seq<Option<i64>>) -> Seq<Seq<char>> {
    v.map_values(|o: Option<i64>| spec_int_entry(o))
}

/// The rendered entries of a text array, in element order.
pub open spec fn spec_text_entries(v: Seq<Option<String>>) -> Seq<Seq<char>> {
    v.map_values(|o: Option<String>| spec_text_entry(o))
}

/// The rendered entries of an array of self-rendered elements, in element
/// order.
pub open spec fn spec_plain_entries(v: Seq<Option<String>>) -> Seq<Seq<char>> {
    v.map_values(|o: Option<String>| spec_plain_entry(o))
}

/// The views of a vector of strings, in order.
pub open spec fn spec_views(entries: Seq<String>) -> Seq<Seq<char>> {
    entries.map_values(|s: String| s@)
}

/// The value string of a cell. A null cell is the null sentinel whatever the
/// column type; a cell of a type with no registered decoder is its raw bytes
/// decoded as best-effort UTF-8, or the unsupported-type sentinel when
/// decoding failed entirely.
pub open spec fn spec_cell_text(cell: RawCell) -> Seq<char> {
    match cell {
        RawCell::Null => spec_null_sentinel(),
        RawCell::Bool(b) => spec_bool_text(b),
        RawCell::Int(i) => spec_idec(i as int),
        RawCell::Bytes(v) => spec_hex(v@),
        RawCell::Text(s) => s@,
        RawCell::BoolArray(v) => spec_array_text(spec_bool_entries(v@)),
        RawCell::IntArray(v) => spec_array_text(spec_int_entries(v@)),
        RawCell::TextArray(v) => spec_array_text(spec_text_entries(v@)),
        RawCell::PlainArray(v) => spec_array_text(spec_plain_entries(v@)),
        RawCell::Raw(v) => lossy_utf8(v@),
        RawCell::Undecodable => spec_unsupported_sentinel(),
    }
}

/// Renders one boolean array element.
fn bool_entry(o: &Option<bool>) -> (r: String)
    ensures
        r@ == spec_bool_entry(*o),
{
    match o {
        Some(b) => {
            let mut s = String::from_str("Some(");
            let body = bool_text(*b);
            s.append(body.as_str());
            s.append(")");
            proof {
                assert(s@ =~= spec_bool_entry(*o));
            }
            s
        },
        None => String::from_str("None"),
    }
}

/// Renders one integer array element.
fn int_entry(o: &Option<i64>) -> (r: String)
    ensures
        r@ == spec_int_entry(*o),
{
    match o {
        Some(i) => {
            let mut s = String::from_str("Some(");
            let body = i64_text(*i);
            s.append(body.as_str());
            s.append(")");
            proof {
                assert(s@ =~= spec_int_entry(*o));
            }
            s
        },
        None => String::from_str("None"),
    }
}

/// Renders one quoted text array element.
fn text_entry(o: &Option<String>) -> (r: String)
    ensures
        r@ == spec_text_entry(*o),
{
    match o {
        Some(t) => {
            let mut s = String::from_str("Some(");
            s.append("\"");
            append_escaped(&mut s, t.as_str());
            s.append("\"");
            s.append(")");
            proof {
                reveal_strlit("\"");
                assert(s@ =~= spec_text_entry(*o));
            }
            s
        },
        None => String::from_str("None"),
    }
}

/// Renders one array element that is already its own text form.
fn plain_entry(o: &Option<String>) -> (r: String)
    ensures
        r@ == spec_plain_entry(*o),
{
    match o {
        Some(t) => {
            let mut s = String::from_str("Some(");
            s.append(t.as_str());
            s.append(")");
            proof {
                assert(s@ =~= spec_plain_entry(*o));
            }
            s
        },
        None => String::from_str("None"),
    }
}

/// Joins rendered entries into the bracketed array text.
fn join_entries(entries: &Vec<String>) -> (r: String)
    ensures
        r@ == spec_array_text(spec_views(entries@)),
{
    let ghost all: Seq<Seq<char>> = spec_views(entries@);
    let mut out = String::from_str("[");
    proof {
        reveal_strlit("[");
        assert(all.take(0) =~= Seq::<Seq<char>>::empty());
        assert(out@ =~= seq!['['] + spec_join(all.take(0), seq![',', ' ']));
    }
    let n: usize = entries.len();
    let mut i: usize = 0;
    while i < n
        invariant
            n == entries@.len(),
            i <= n,
            all == spec_views(entries@),
            all.len() == n,
            out@ == seq!['['] + spec_join(all.take(i as int), seq![',', ' ']),
        decreases n - i,
    {
        if i > 0 {
            out.append(", ");
            proof {
                reveal_strlit(", ");
            }
        }
        out.append(entries[i].as_str());
        proof {
            lemma_join_push(all.take(i as int), all[i as int], seq![',', ' ']);
            assert(all.take(i as int).push(all[i as int]) =~= all.take(i as int + 1));
            assert(out@ =~= seq!['['] + spec_join(all.take(i as int + 1), seq![',', ' ']));
        }
        i = i + 1;
    }
    out.append("]");
    proof {
        reveal_strlit("]");
        assert(all.take(n as int) =~= all);
        assert(out@ =~= spec_array_text(all));
    }
    out
}

/// Renders the value string of one cell.
pub fn cell_text(cell: &RawCell) -> (r: String)
    ensures
        r@ == spec_cell_text(*cell),
{
    match cell {
        RawCell::Null => null_sentinel(),
        RawCell::Bool(b) => bool_text(*b),
        RawCell::Int(i) => i64_text(*i),
        RawCell::Bytes(v) => hex_encode(v),
        RawCell::Text(s) => s.clone(),
        RawCell::BoolArray(v) => {
            let mut entries: Vec<String> = Vec::new();
            let n: usize = v.len();
            let mut i: usize = 0;
            while i < n
                invariant
                    n == v@.len(),
                    i <= n,
                    entries@.len() == i as int,
                    forall|j: int| 0 <= j < i ==> (#[trigger] entries@[j])@ == spec_bool_entry(
                        v@[j],
                    ),
                decreases n - i,
            {
                entries.push(bool_entry(&v[i]));
                i = i + 1;
            }
            proof {
                assert(spec_views(entries@) =~= spec_bool_entries(v@));
            }
            join_entries(&entries)
        },
        RawCell::IntArray(v) => {
            let mut entries: Vec<String> = Vec::new();
            let n: usize = v.len();
            let mut i: usize = 0;
            while i < n
                invariant
                    n == v@.len(),
                    i <= n,
                    entries@.len() == i as int,
                    forall|j: int| 0 <= j < i ==> (#[trigger] entries@[j])@ == spec_int_entry(
                        v@[j],
                    ),
                decreases n - i,
            {
                entries.push(int_entry(&v[i]));
                i = i + 1;
            }
            proof {
                assert(spec_views(entries@) =~= spec_int_entries(v@));
            }
            join_entries(&entries)
        },
        RawCell::TextArray(v) => {
            let mut entries: Vec<String> = Vec::new();
            let n: usize = v.len();
            let mut i: usize = 0;
            while i < n
                invariant
                    n == v@.len(),
                    i <= n,
                    entries@.len() == i as int,
                    forall|j: int| 0 <= j < i ==> (#[trigger] entries@[j])@ == spec_text_entry(
                        v@[j],
                    ),
                decreases n - i,
            {
                entries.push(text_entry(&v[i]));
                i = i + 1;
            }
            proof {
                assert(spec_views(entries@) =~= spec_text_entries(v@));
            }
            join_entries(&entries)
        },
        RawCell::PlainArray(v) => {
            let mut entries: Vec<String> = Vec::new();
            let n: usize = v.len();
            let mut i: usize = 0;
            while i < n
                invariant
                    n == v@.len(),
                    i <= n,
                    entries@.len() == i as int,
                    forall|j: int| 0 <= j < i ==> (#[trigger] entries@[j])@ == spec_plain_entry(
                        v@[j],
                    ),
                decreases n - i,
            {
                entries.push(plain_entry(&v[i]));
                i = i + 1;
            }
            proof {
                assert(spec_views(entries@) =~= spec_plain_entries(v@));
            }
            join_entries(&entries)
        },
        RawCell::Raw(v) => utf8_lossy(v),
        RawCell::Undecodable => unsupported_sentinel(),
    }
}

/// The encoded triple of one fetched cell.
pub open spec fn spec_cell_triple(c: FetchedCell) -> (Seq<char>, Seq<char>, Seq<char>) {
    (
        c.name@,
        spec_tag_text(spec_tag_of(spec_column_type_of_oid(c.oid))),
        spec_cell_text(c.raw),
    )
}

/// The triple a `TypedValue` stands for.
pub open spec fn spec_typed_value_triple(tv: TypedValue) -> (Seq<char>, Seq<char>, Seq<char>) {
    (tv.name@, spec_tag_text(tv.tag), tv.value@)
}

/// The encoded triples of one row, in column order.
pub open spec fn spec_row_triples(r: FetchedRow) -> Seq<(Seq<char>, Seq<char>, Seq<char>)> {
    r.cells@.map_values(|c: FetchedCell| spec_cell_triple(c))
}

/// The triples a vector of encoded cells stands for, in order.
pub open spec fn spec_typed_value_triples(row: Seq<TypedValue>) -> Seq<
    (Seq<char>, Seq<char>, Seq<char>),
> {
    row.map_values(|tv: TypedValue| spec_typed_value_triple(tv))
}

/// The triples a whole encoded result stands for, row by row.
pub open spec fn spec_encoded_triples(out: Seq<Vec<TypedValue>>) -> Seq<
    Seq<(Seq<char>, Seq<char>, Seq<char>)>,
> {
    out.map_values(|row: Vec<TypedValue>| spec_typed_value_triples(row@))
}

/// The encoded triples of a whole result, in row order.
pub open spec fn spec_rows_triples(rows: Seq<FetchedRow>) -> Seq<
    Seq<(Seq<char>, Seq<char>, Seq<char>)>,
> {
    rows.map_values(|r: FetchedRow| spec_row_triples(r))
}

/// Encodes one fetched cell: the name is kept, the tag is the column type's
/// tag, and the value string is the cell's text.
pub fn encode_cell(c: &FetchedCell) -> (r: TypedValue)
    ensures
        spec_typed_value_triple(r) == spec_cell_triple(*c),
{
    TypedValue {
        name: c.name.clone(),
        tag: tag_of(column_type_of_oid(c.oid)),
        value: cell_text(&c.raw),
    }
}

/// Encodes one row, keeping the backend's column order.
pub fn encode_row(row: &FetchedRow) -> (r: Vec<TypedValue>)
    ensures
        spec_typed_value_triples(r@) == spec_row_triples(*row),
{
    let mut out: Vec<TypedValue> = Vec::new();
    let n: usize = row.cells.len();
    let mut i: usize = 0;
    while i < n
        invariant
            n == row.cells@.len(),
            i <= n,
            out@.len() == i as int,
            forall|j: int| 0 <= j < i ==> spec_typed_value_triple(#[trigger] out@[j])
                == spec_cell_triple(row.cells@[j]),
        decreases n - i,
    {
        out.push(encode_cell(&row.cells[i]));
        i = i + 1;
    }
    proof {
        assert(spec_typed_value_triples(out@) =~= spec_row_triples(*row));
    }
    out
}

/// Encodes a whole result, keeping the backend's row order and, inside each
/// row, its column order.
pub fn encode_rows(rows: &Vec<FetchedRow>) -> (r: Vec<Vec<TypedValue>>)
    ensures
        spec_encoded_triples(r@) == spec_rows_triples(rows@),
{
    let mut out: Vec<Vec<TypedValue>> = Vec::new();
    let n: usize = rows.len();
    let mut i: usize = 0;
    while i < n
        invariant
            n == rows@.len(),
            i <= n,
            out@.len() == i as int,
            forall|j: int| 0 <= j < i ==> spec_typed_value_triples((#[trigger] out@[j])@)
                == spec_row_triples(rows@[j]),
        decreases n - i,
    {
        out.push(encode_row(&rows[i]));
        i = i + 1;
    }
    proof {
        assert(spec_encoded_triples(out@) =~= spec_rows_triples(rows@));
    }
    out
}

/// A null cell encodes to the null sentinel whatever the column's declared
/// type, and always under that type's own tag.
pub proof fn lemma_null_encoding(name: String, oid: u32)
    ensures
        spec_cell_triple((FetchedCell { name, oid, raw: RawCell::Null })).2
            == spec_null_sentinel(),
{
}

/// A cell of a type with no registered decoder is tagged `string`, and its
/// value is the raw bytes decoded as best-effort UTF-8, or the
/// unsupported-type sentinel when decoding failed entirely.
pub proof fn lemma_fallback_encoding(name: String, bytes: Vec<u8>)
    ensures
        spec_tag_of(ColumnType::Other) == Tag::Str,
        spec_cell_text(RawCell::Raw(bytes)) == lossy_utf8(bytes@),
        spec_cell_text(RawCell::Undecodable) == spec_unsupported_sentinel(),
{
}

/// The decimal text of a signed value has at least one character.
proof fn lemma_idec_len(n: int)
    ensures
        spec_idec(n).len() >= 1,
{
    crate::numtext::lemma_udec_digits(n as nat);
    crate::numtext::lemma_udec_digits((-n) as nat);
}

/// A rendered integer array entry determines the element: `None` and the
/// `Some(...)` entries are pairwise distinct.
pub proof fn lemma_int_entry_injective(a: Option<i64>, b: Option<i64>)
    requires
        spec_int_entry(a) == spec_int_entry(b),
    ensures
        a == b,
{
    reveal_strlit("Some(");
    reveal_strlit(")");
    reveal_strlit("None");
    match (a, b) {
        (None, None) => {
        },
        (Some(x), Some(y)) => {
            let ea = spec_int_entry(a);
            let eb = spec_int_entry(b);
            let la = spec_idec(x as int).len();
            let lb = spec_idec(y as int).len();
            assert(ea.len() == 5 + la + 1);
            assert(eb.len() == 5 + lb + 1);
            assert(spec_idec(x as int) =~= ea.subrange(5, 5 + la as int));
            assert(spec_idec(y as int) =~= eb.subrange(5, 5 + lb as int));
            crate::numtext::lemma_idec_injective(x as int, y as int);
        },
        (Some(x), None) => {
            lemma_idec_len(x as int);
            assert(spec_int_entry(a).len() >= 7);
            assert(spec_int_entry(b).len() == 4);
        },
        (None, Some(y)) => {
            lemma_idec_len(y as int);
            assert(spec_int_entry(b).len() >= 7);
            assert(spec_int_entry(a).len() == 4);
        },
    }
}

/// A rendered boolean array entry determines the element.
pub proof fn lemma_bool_entry_injective(a: Option<bool>, b: Option<bool>)
    requires
        spec_bool_entry(a) == spec_bool_entry(b),
    ensures
        a == b,
{
    reveal_strlit("Some(");
    reveal_strlit(")");
    reveal_strlit("None");
    reveal_strlit("true");
    reveal_strlit("false");
    match (a, b) {
        (None, None) => {
        },
        (Some(x), Some(y)) => {
            assert(spec_bool_entry(a).len() == 5 + spec_bool_text(x).len() + 1);
            assert(spec_bool_entry(b).len() == 5 + spec_bool_text(y).len() + 1);
        },
        (Some(x), None) => {
            assert(spec_bool_entry(a).len() >= 10);
            assert(spec_bool_entry(b).len() == 4);
        },
        (None, Some(y)) => {
            assert(spec_bool_entry(b).len() >= 10);
            assert(spec_bool_entry(a).len() == 4);
        },
    }
}

/// A rendered integer array entry is nonempty and free of commas, so it can
/// be recovered from the joined array text.
proof fn lemma_int_entry_clean(o: Option<i64>)
    ensures
        spec_clean_entry(spec_int_entry(o), ','),
{
    reveal_strlit("Some(");
    reveal_strlit(")");
    reveal_strlit("None");
    match o {
        None => {
            assert("None"@ =~= seq!['N', 'o', 'n', 'e']);
            assert(spec_int_entry(o) == "None"@);
        },
        Some(x) => {
            crate::numtext::lemma_idec_chars(x as int);
            assert("Some("@ =~= seq!['S', 'o', 'm', 'e', '(']);
            assert(")"@ =~= seq![')']);
            let e = spec_int_entry(o);
            let l = spec_idec(x as int).len() as int;
            assert(e.len() == 5 + l + 1);
            assert forall|j: int| 0 <= j < e.len() implies e[j] != ',' by {
                if j < 5 {
                    assert(e[j] == "Some("@[j]);
                } else if j < 5 + l {
                    assert(e[j] == spec_idec(x as int)[j - 5]);
                } else {
                    assert(e[j] == ')');
                }
            }
        },
    }
}

/// A rendered boolean array entry is nonempty and free of commas.
proof fn lemma_bool_entry_clean(o: Option<bool>)
    ensures
        spec_clean_entry(spec_bool_entry(o), ','),
{
    reveal_strlit("Some(");
    reveal_strlit(")");
    reveal_strlit("None");
    reveal_strlit("true");
    reveal_strlit("false");
    match o {
        None => {
            assert("None"@ =~= seq!['N', 'o', 'n', 'e']);
            assert(spec_bool_entry(o) == "None"@);
        },
        Some(x) => {
            assert("Some("@ =~= seq!['S', 'o', 'm', 'e', '(']);
            assert(")"@ =~= seq![')']);
            assert("true"@ =~= seq!['t', 'r', 'u', 'e']);
            assert("false"@ =~= seq!['f', 'a', 'l', 's', 'e']);
            let e = spec_bool_entry(o);
            let l = spec_bool_text(x).len() as int;
            assert(e.len() == 5 + l + 1);
            assert forall|j: int| 0 <= j < e.len() implies e[j] != ',' by {
                if j < 5 {
                    assert(e[j] == "Some("@[j]);
                } else if j < 5 + l {
                    assert(e[j] == spec_bool_text(x)[j - 5]);
                } else {
                    assert(e[j] == ')');
                }
            }
        },
    }
}

/// A rendered text array entry determines the element: `None` is told apart
/// from `Some(...)`, and since escaping is lossless the quoted body
/// determines the element text.
pub proof fn lemma_text_entry_injective(a: Option<String>, b: Option<String>)
    requires
        spec_text_entry(a) == spec_text_entry(b),
    ensures
        (a is Some) <==> (b is Some),
        a matches Some(x) ==> (b matches Some(y) ==> x@ == y@),
{
    reveal_strlit("Some(");
    reveal_strlit(")");
    reveal_strlit("None");
    match (a, b) {
        (None, None) => {
        },
        (Some(x), Some(y)) => {
            let bx = seq!['"'] + spec_escaped(x@) + seq!['"'];
            let by = seq!['"'] + spec_escaped(y@) + seq!['"'];
            let ea = spec_text_entry(a);
            let eb = spec_text_entry(b);
            let lx = spec_escaped(x@).len() as int;
            let ly = spec_escaped(y@).len() as int;
            assert(ea == "Some("@ + bx + ")"@);
            assert(eb == "Some("@ + by + ")"@);
            assert(ea.len() == 5 + (lx + 2) + 1);
            assert(eb.len() == 5 + (ly + 2) + 1);
            assert(spec_escaped(x@) =~= ea.subrange(6, 6 + lx));
            assert(spec_escaped(y@) =~= eb.subrange(6, 6 + ly));
            crate::textutil::lemma_escaped_injective(x@, y@);
        },
        (Some(x), None) => {
            assert(spec_text_entry(a).len() >= 8);
            assert(spec_text_entry(b).len() == 4);
        },
        (None, Some(y)) => {
            assert(spec_text_entry(b).len() >= 8);
            assert(spec_text_entry(a).len() == 4);
        },
    }
}

/// The rendered text of an integer array determines the array: elements and
/// their order are recovered.
pub proof fn lemma_int_array_roundtrip(u: Seq<Option<i64>>, v: Seq<Option<i64>>)
    requires
        spec_array_text(spec_int_entries(u)) == spec_array_text(spec_int_entries(v)),
    ensures
        u == v,
{
    let eu = spec_int_entries(u);
    let ev = spec_int_entries(v);
    let tu = spec_array_text(eu);
    let tv = spec_array_text(ev);
    assert(spec_join(eu, seq![',', ' ']) =~= tu.subrange(1, tu.len() as int - 1));
    assert(spec_join(ev, seq![',', ' ']) =~= tv.subrange(1, tv.len() as int - 1));
    assert forall|i: int| 0 <= i < eu.len() implies spec_clean_entry(#[trigger] eu[i], ',') by {
        lemma_int_entry_clean(u[i]);
        assert(eu[i] == spec_int_entry(u[i]));
    }
    assert forall|i: int| 0 <= i < ev.len() implies spec_clean_entry(#[trigger] ev[i], ',') by {
        lemma_int_entry_clean(v[i]);
        assert(ev[i] == spec_int_entry(v[i]));
    }
    lemma_join_injective(eu, ev, seq![',', ' ']);
    assert forall|i: int| 0 <= i < u.len() implies u[i] == v[i] by {
        assert(eu[i] == spec_int_entry(u[i]));
        assert(ev[i] == spec_int_entry(v[i]));
        lemma_int_entry_injective(u[i], v[i]);
    }
    assert(u =~= v);
}

/// The rendered text of a boolean array determines the array.
pub proof fn lemma_bool_array_roundtrip(u: Seq<Option<bool>>, v: Seq<Option<bool>>)
    requires
        spec_array_text(spec_bool_entries(u)) == spec_array_text(spec_bool_entries(v)),
    ensures
        u == v,
{
    let eu = spec_bool_entries(u);
    let ev = spec_bool_entries(v);
    let tu = spec_array_text(eu);
    let tv = spec_array_text(ev);
    assert(spec_join(eu, seq![',', ' ']) =~= tu.subrange(1, tu.len() as int - 1));
    assert(spec_join(ev, seq![',', ' ']) =~= tv.subrange(1, tv.len() as int - 1));
    assert forall|i: int| 0 <= i < eu.len() implies spec_clean_entry(#[trigger] eu[i], ',') by {
        lemma_bool_entry_clean(u[i]);
        assert(eu[i] == spec_bool_entry(u[i]));
    }
    assert forall|i: int| 0 <= i < ev.len() implies spec_clean_entry(#[trigger] ev[i], ',') by {
        lemma_bool_entry_clean(v[i]);
        assert(ev[i] == spec_bool_entry(v[i]));
    }
    lemma_join_injective(eu, ev, seq![',', ' ']);
    assert forall|i: int| 0 <= i < u.len() implies u[i] == v[i] by {
        assert(eu[i] == spec_bool_entry(u[i]));
        assert(ev[i] == spec_bool_entry(v[i]));
        lemma_bool_entry_injective(u[i], v[i]);
    }
    assert(u =~= v);
}

/// Non-null encodings of the families the library decodes itself round-trip:
/// two booleans, two integers or two byte strings with the same value string
/// are the same value, and a text cell's value string is the text itself.
pub proof fn lemma_value_roundtrip(a: RawCell, b: RawCell)
    requires
        spec_cell_text(a) == spec_cell_text(b),
    ensures
        a is Bool && b is Bool ==> a == b,
        a is Int && b is Int ==> a == b,
        a is Bytes && b is Bytes ==> a->Bytes_0@ == b->Bytes_0@,
        a is Text && b is Text ==> a->Text_0@ == b->Text_0@,
{
    if a is Int && b is Int {
        crate::numtext::lemma_idec_injective(a->Int_0 as int, b->Int_0 as int);
    }
    if a is Bytes && b is Bytes {
        crate::bytestext::lemma_hex_injective(a->Bytes_0@, b->Bytes_0@);
    }
    if a is Bool && b is Bool {
        crate::textutil::lemma_bool_text_injective(a->Bool_0, b->Bool_0);
    }
}

} // verus!
