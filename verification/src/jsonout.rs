//! The wire shape of a query response: a JSON array of rows, each row a JSON
//! array of `[name, tag, value]` string triples, with every string escaped
//! exactly as the JSON serializer writes it. There are no nulls at the JSON
//! level; nullability lives inside the value strings.

use vstd::prelude::*;
use crate::bytestext::spec_hex_digit;
use crate::encode::TypedValue;
use crate::encode::spec_encoded_triples;
use crate::encode::spec_typed_value_triple;
use crate::encode::spec_typed_value_triples;
use crate::tags::tag_text;
use crate::textutil::concat_map;
use crate::textutil::spec_join;

verus! {

/// How one character is written inside a JSON string: the double quote,
/// backslash, backspace, tab, line feed, form feed and carriage return take
/// their two-character escape, every other control character below space a
/// six-character `\u00..` escape with lowercase hexadecimal digits, and
/// everything else stands for itself.
pub open spec fn spec_json_escape_char(c: char) -> Seq<char> {
    if c == '"' {
        seq!['\\', '"']
    } else if c == '\\' {
        seq!['\\', '\\']
    } else if c == '\u{8}' {
        seq!['\\', 'b']
    } else if c == '\t' {
        seq!['\\', 't']
    } else if c == '\n' {
        seq!['\\', 'n']
    } else if c == '\u{c}' {
        seq!['\\', 'f']
    } else if c == '\r' {
        seq!['\\', 'r']
    } else if (c as u32) < 32 {
        seq!['\\', 'u', '0', '0', spec_hex_digit(c as u32 as int / 16), spec_hex_digit(
            c as u32 as int % 16,
        )]
    } else {
        seq![c]
    }
}

/// A JSON string: the escaped characters between double quotes.
pub open spec fn spec_json_string(s: Seq<char>) -> Seq<char> {
    seq!['"'] + concat_map(s, |c: char| spec_json_escape_char(c)) + seq!['"']
}

/// A JSON array of strings, comma-separated, no spaces.
pub open spec fn spec_json_string_array(items: Seq<Seq<char>>) -> Seq<char> {
    seq!['['] + spec_join(items.map_values(|s: Seq<char>| spec_json_string(s)), seq![','])
        + seq![']']
}

/// A JSON array of string arrays.
pub open spec fn spec_json_row_array(rows: Seq<Seq<Seq<char>>>) -> Seq<char> {
    seq!['['] + spec_join(rows.map_values(|r: Seq<Seq<char>>| spec_json_string_array(r)), seq![','])
        + seq![']']
}

/// The whole response: a JSON array of row arrays.
pub open spec fn spec_json_response(rowsets: Seq<Seq<Seq<Seq<char>>>>) -> Seq<char> {
    seq!['['] + spec_join(
        rowsets.map_values(|r: Seq<Seq<Seq<char>>>| spec_json_row_array(r)),
        seq![','],
    ) + seq![']']
}

/// Relies on serde_json::to_string: a vector serializes as a JSON array with
/// a single comma between elements and no whitespace, and a string as a
/// double-quoted JSON string whose characters are escaped as
/// `spec_json_escape_char` says. On vectors and strings the call succeeds:
/// serialization fails only when a `Serialize` impl fails or a map has
/// non-string keys, and neither arises here — the writer is an in-memory
/// byte vector.
#[verifier::external_body]
pub(crate) fn json_encode(rows: &Vec<Vec<Vec<String>>>) -> (r: Result<String, String>)
    ensures
        r is Ok,
        r matches Ok(s) ==> s@ == spec_json_response(rows.deep_view()),
{
    match serde_json::to_string(rows) {
        Ok(s) => Ok(s),
        Err(e) => Err(e.to_string()),
    }
}

/// One encoded triple as the list of its three strings.
pub open spec fn spec_triple_list(t: (Seq<char>, Seq<char>, Seq<char>)) -> Seq<Seq<char>> {
    seq![t.0, t.1, t.2]
}

/// One row of triples in wire shape.
pub open spec fn spec_wire_row(row: Seq<(Seq<char>, Seq<char>, Seq<char>)>) -> Seq<Seq<Seq<char>>> {
    row.map_values(|t: (Seq<char>, Seq<char>, Seq<char>)| spec_triple_list(t))
}

/// A whole result of triples in wire shape.
pub open spec fn spec_wire(rows: Seq<Seq<(Seq<char>, Seq<char>, Seq<char>)>>) -> Seq<
    Seq<Seq<Seq<char>>>,
> {
    rows.map_values(|row: Seq<(Seq<char>, Seq<char>, Seq<char>)>| spec_wire_row(row))
}

/// Lowers one encoded cell to its three wire strings: name, tag text, value.
fn triple_strings(tv: &TypedValue) -> (r: Vec<String>)
    ensures
        r.deep_view() == spec_triple_list(spec_typed_value_triple(*tv)),
{
    let mut out: Vec<String> = Vec::new();
    out.push(tv.name.clone());
    out.push(tag_text(tv.tag));
    out.push(tv.value.clone());
    proof {
        assert(out.deep_view() =~= spec_triple_list(spec_typed_value_triple(*tv)));
    }
    out
}

/// Lowers a whole encoded result to wire shape, keeping row and column order.
pub fn wire_rows(encoded: &Vec<Vec<TypedValue>>) -> (w: Vec<Vec<Vec<String>>>)
    ensures
        w.deep_view() == spec_wire(spec_encoded_triples(encoded@)),
{
    let mut out: Vec<Vec<Vec<String>>> = Vec::new();
    let n: usize = encoded.len();
    let mut i: usize = 0;
    while i < n
        invariant
            n == encoded@.len(),
            i <= n,
            out@.len() == i as int,
            forall|j: int| 0 <= j < i ==> (#[trigger] out@[j]).deep_view() == spec_wire_row(
                spec_typed_value_triples(encoded@[j]@),
            ),
        decreases n - i,
    {
        let row = &encoded[i];
        let mut wrow: Vec<Vec<String>> = Vec::new();
        let m: usize = row.len();
        let mut k: usize = 0;
        while k < m
            invariant
                m == row@.len(),
                k <= m,
                wrow@.len() == k as int,
                forall|j: int| 0 <= j < k ==> (#[trigger] wrow@[j]).deep_view() == spec_triple_list(
                    spec_typed_value_triple(row@[j]),
                ),
            decreases m - k,
        {
            wrow.push(triple_strings(&row[k]));
            k = k + 1;
        }
        proof {
            assert(wrow.deep_view() =~= spec_wire_row(spec_typed_value_triples(row@)));
        }
        out.push(wrow);
        i = i + 1;
    }
    proof {
        assert(out.deep_view() =~= spec_wire(spec_encoded_triples(encoded@)));
    }
    out
}

} // verus!
