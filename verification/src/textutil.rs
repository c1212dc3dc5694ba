//! Small string-building blocks shared by the value encoder: the sentinel
//! strings, boolean rendering, character-wise escaping, and the spec-level
//! concatenation combinators the encoding contracts are written over.

use vstd::prelude::*;

verus! {

/// Relies on String::push: appends the given character to the end of the
/// string.
#[verifier::external_body]
pub(crate) fn push_char(s: &mut String, c: char)
    ensures
        final(s)@ == old(s)@.push(c),
{
    s.push(c);
}

/// The sentinel standing in for a null database value, whatever the column's
/// declared type.
pub open spec fn spec_null_sentinel() -> Seq<char> {
    "<<null>>"@
}

/// Returns the null sentinel string.
pub fn null_sentinel() -> (r: String)
    ensures
        r@ == spec_null_sentinel(),
{
    String::from_str("<<null>>")
}

/// The sentinel standing in for a value that could not be decoded at all.
pub open spec fn spec_unsupported_sentinel() -> Seq<char> {
    "<<unsupported type>>"@
}

/// Returns the unsupported-type sentinel string.
pub fn unsupported_sentinel() -> (r: String)
    ensures
        r@ == spec_unsupported_sentinel(),
{
    String::from_str("<<unsupported type>>")
}

/// The text of a boolean value.
pub open spec fn spec_bool_text(b: bool) -> Seq<char> {
    if b {
        "true"@
    } else {
        "false"@
    }
}

/// Renders a boolean as its text.
pub fn bool_text(b: bool) -> (r: String)
    ensures
        r@ == spec_bool_text(b),
{
    if b {
        String::from_str("true")
    } else {
        String::from_str("false")
    }
}

/// The two boolean texts differ, so the text determines the value.
pub proof fn lemma_bool_text_injective(a: bool, b: bool)
    requires
        spec_bool_text(a) == spec_bool_text(b),
    ensures
        a == b,
{
    reveal_strlit("true");
    reveal_strlit("false");
    assert("true"@.len() == 4);
    assert("false"@.len() == 5);
}

/// Concatenation of `f` applied to each element of `s`, in order.
pub open spec fn concat_map<A>(s: Seq<A>, f: spec_fn(A) -> Seq<char>) -> Seq<char>
    decreases s.len(),
{
    if s.len() == 0 {
        Seq::empty()
    } else {
        f(s[0]) + concat_map(s.drop_first(), f)
    }
}

/// Appending one element to the input appends its image to the output.
pub proof fn lemma_concat_map_push<A>(s: Seq<A>, c: A, f: spec_fn(A) -> Seq<char>)
    ensures
        concat_map(s.push(c), f) == concat_map(s, f) + f(c),
    decreases s.len(),
{
    if s.len() == 0 {
        assert(s.push(c).drop_first() =~= Seq::<A>::empty());
        assert(s.push(c)[0] == c);
        assert(concat_map(Seq::<A>::empty(), f) == Seq::<char>::empty());
        assert(concat_map(s.push(c), f) == f(c) + Seq::<char>::empty());
        assert(concat_map(s, f) == Seq::<char>::empty());
        assert(concat_map(s.push(c), f) =~= concat_map(s, f) + f(c));
    } else {
        assert(s.push(c).drop_first() =~= s.drop_first().push(c));
        lemma_concat_map_push(s.drop_first(), c, f);
        assert(concat_map(s.push(c), f) =~= concat_map(s, f) + f(c));
    }
}

/// The elements of `items` joined by `sep`.
pub open spec fn spec_join(items: Seq<Seq<char>>, sep: Seq<char>) -> Seq<char>
    decreases items.len(),
{
    if items.len() == 0 {
        Seq::empty()
    } else if items.len() == 1 {
        items[0]
    } else {
        items[0] + sep + spec_join(items.drop_first(), sep)
    }
}

/// Joining one more element appends a separator and the element, except to an
/// empty join.
pub proof fn lemma_join_push(items: Seq<Seq<char>>, x: Seq<char>, sep: Seq<char>)
    ensures
        items.len() == 0 ==> spec_join(items.push(x), sep) == x,
        items.len() > 0 ==> spec_join(items.push(x), sep) == spec_join(items, sep) + sep + x,
    decreases items.len(),
{
    if items.len() == 0 {
        assert(spec_join(items.push(x), sep) =~= x);
    } else if items.len() == 1 {
        assert(items.push(x).drop_first() =~= Seq::<Seq<char>>::empty().push(x));
        assert(spec_join(Seq::<Seq<char>>::empty().push(x), sep) == x);
        assert(items.push(x)[0] == items[0]);
        assert(spec_join(items.push(x), sep) == items[0] + sep + x);
        assert(spec_join(items, sep) == items[0]);
        assert(spec_join(items.push(x), sep) =~= spec_join(items, sep) + sep + x);
    } else {
        assert(items.push(x).drop_first() =~= items.drop_first().push(x));
        lemma_join_push(items.drop_first(), x, sep);
        assert(spec_join(items.push(x), sep) =~= spec_join(items, sep) + sep + x);
    }
}

/// A join entry that can be recovered from the joined text: nonempty, and
/// free of the character `c` that opens every separator.
pub open spec fn spec_clean_entry(e: Seq<char>, c: char) -> bool {
    e.len() > 0 && forall|j: int| 0 <= j < e.len() ==> e[j] != c
}

/// A join is at least as long as its first entry.
proof fn lemma_join_len(items: Seq<Seq<char>>, sep: Seq<char>)
    requires
        items.len() > 0,
    ensures
        spec_join(items, sep).len() >= items[0].len(),
{
}

/// Entries that are nonempty and free of the separator's first character are
/// recovered from their join: two equal joins come from equal entry
/// sequences.
pub proof fn lemma_join_injective(a: Seq<Seq<char>>, b: Seq<Seq<char>>, sep: Seq<char>)
    requires
        sep.len() > 0,
        forall|i: int| 0 <= i < a.len() ==> spec_clean_entry(#[trigger] a[i], sep[0]),
        forall|i: int| 0 <= i < b.len() ==> spec_clean_entry(#[trigger] b[i], sep[0]),
        spec_join(a, sep) == spec_join(b, sep),
    ensures
        a == b,
    decreases a.len(),
{
    let ja = spec_join(a, sep);
    let jb = spec_join(b, sep);
    if a.len() == 0 {
        if b.len() > 0 {
            lemma_join_len(b, sep);
            assert(false);
        }
        assert(a =~= b);
    } else if b.len() == 0 {
        lemma_join_len(a, sep);
        assert(false);
    } else {
        let ea = a[0];
        let eb = b[0];
        if a.len() > 1 {
            assert(ja == ea + sep + spec_join(a.drop_first(), sep));
        }
        if b.len() > 1 {
            assert(jb == eb + sep + spec_join(b.drop_first(), sep));
        }
        if ea.len() < eb.len() {
            if a.len() == 1 {
                lemma_join_len(b, sep);
                assert(ja.len() == ea.len());
                assert(false);
            } else {
                assert(ja[ea.len() as int] == sep[0]);
                assert(jb[ea.len() as int] == eb[ea.len() as int]);
                assert(false);
            }
        }
        if eb.len() < ea.len() {
            if b.len() == 1 {
                lemma_join_len(a, sep);
                assert(jb.len() == eb.len());
                assert(false);
            } else {
                assert(jb[eb.len() as int] == sep[0]);
                assert(ja[eb.len() as int] == ea[eb.len() as int]);
                assert(false);
            }
        }
        assert(ea.len() == eb.len());
        assert forall|j: int| 0 <= j < ea.len() implies ea[j] == eb[j] by {
            assert(ja[j] == ea[j]);
            assert(jb[j] == eb[j]);
        }
        assert(ea =~= eb);
        if a.len() == 1 && b.len() == 1 {
            assert(a =~= b);
        } else if a.len() == 1 {
            lemma_join_len(b.drop_first(), sep);
            assert(b.drop_first()[0] == b[1]);
            assert(jb.len() >= eb.len() + sep.len() + 1);
            assert(ja.len() == ea.len());
            assert(false);
        } else if b.len() == 1 {
            lemma_join_len(a.drop_first(), sep);
            assert(a.drop_first()[0] == a[1]);
            assert(ja.len() >= ea.len() + sep.len() + 1);
            assert(jb.len() == eb.len());
            assert(false);
        } else {
            let cut = ea.len() + sep.len();
            assert(spec_join(a.drop_first(), sep) =~= ja.skip(cut as int));
            assert(spec_join(b.drop_first(), sep) =~= jb.skip(cut as int));
            assert forall|i: int| 0 <= i < a.drop_first().len() implies spec_clean_entry(
                #[trigger] a.drop_first()[i],
                sep[0],
            ) by {
                assert(a.drop_first()[i] == a[i + 1]);
            }
            assert forall|i: int| 0 <= i < b.drop_first().len() implies spec_clean_entry(
                #[trigger] b.drop_first()[i],
                sep[0],
            ) by {
                assert(b.drop_first()[i] == b[i + 1]);
            }
            lemma_join_injective(a.drop_first(), b.drop_first(), sep);
            assert forall|i: int| 0 <= i < a.len() implies a[i] == b[i] by {
                if i > 0 {
                    assert(a[i] == a.drop_first()[i - 1]);
                    assert(b[i] == b.drop_first()[i - 1]);
                }
            }
            assert(a =~= b);
        }
    }
}

/// How one character is escaped inside a quoted array element: backslash,
/// double quote, line feed, carriage return and tab take a two-character
/// escape; every other character stands for itself.
pub open spec fn spec_escape_char(c: char) -> Seq<char> {
    if c == '\\' {
        seq!['\\', '\\']
    } else if c == '"' {
        seq!['\\', '"']
    } else if c == '\n' {
        seq!['\\', 'n']
    } else if c == '\r' {
        seq!['\\', 'r']
    } else if c == '\t' {
        seq!['\\', 't']
    } else {
        seq![c]
    }
}

/// A text escaped character by character.
pub open spec fn spec_escaped(s: Seq<char>) -> Seq<char> {
    concat_map(s, |c: char| spec_escape_char(c))
}

/// Escaping is lossless: two texts with the same escaped form are the same
/// text.
pub proof fn lemma_escaped_injective(s1: Seq<char>, s2: Seq<char>)
    requires
        spec_escaped(s1) == spec_escaped(s2),
    ensures
        s1 == s2,
    decreases s1.len(),
{
    if s1.len() == 0 && s2.len() == 0 {
        assert(s1 =~= s2);
    } else if s1.len() == 0 {
        assert(spec_escaped(s2).len() >= spec_escape_char(s2[0]).len());
        assert(spec_escaped(s1).len() == 0);
        assert(false);
    } else if s2.len() == 0 {
        assert(spec_escaped(s1).len() >= spec_escape_char(s1[0]).len());
        assert(spec_escaped(s2).len() == 0);
        assert(false);
    } else {
        let c1 = s1[0];
        let c2 = s2[0];
        let e1 = spec_escape_char(c1);
        let e2 = spec_escape_char(c2);
        assert(spec_escaped(s1) == e1 + spec_escaped(s1.drop_first()));
        assert(spec_escaped(s2) == e2 + spec_escaped(s2.drop_first()));
        assert(spec_escaped(s1)[0] == e1[0]);
        assert(spec_escaped(s2)[0] == e2[0]);
        if e1.len() == 2 && e2.len() == 2 {
            assert(spec_escaped(s1)[1] == e1[1]);
            assert(spec_escaped(s2)[1] == e2[1]);
            assert(c1 == c2);
        } else {
            assert(c1 == c2);
        }
        assert(e1 == e2);
        assert(spec_escaped(s1.drop_first()) =~= spec_escaped(s1).skip(e1.len() as int));
        assert(spec_escaped(s2.drop_first()) =~= spec_escaped(s2).skip(e2.len() as int));
        lemma_escaped_injective(s1.drop_first(), s2.drop_first());
        assert forall|i: int| 0 <= i < s1.len() implies s1[i] == s2[i] by {
            if i > 0 {
                assert(s1[i] == s1.drop_first()[i - 1]);
                assert(s2[i] == s2.drop_first()[i - 1]);
            }
        }
        assert(s1 =~= s2);
    }
}

/// Appends the escape of one character to `out`.
fn push_escaped_char(out: &mut String, c: char)
    ensures
        final(out)@ == old(out)@ + spec_escape_char(c),
{
    if c == '\\' {
        out.append("\\\\");
        proof {
            reveal_strlit("\\\\");
            assert(out@ =~= old(out)@ + spec_escape_char(c));
        }
    } else if c == '"' {
        out.append("\\\"");
        proof {
            reveal_strlit("\\\"");
            assert(out@ =~= old(out)@ + spec_escape_char(c));
        }
    } else if c == '\n' {
        out.append("\\n");
        proof {
            reveal_strlit("\\n");
            assert(out@ =~= old(out)@ + spec_escape_char(c));
        }
    } else if c == '\r' {
        out.append("\\r");
        proof {
            reveal_strlit("\\r");
            assert(out@ =~= old(out)@ + spec_escape_char(c));
        }
    } else if c == '\t' {
        out.append("\\t");
        proof {
            reveal_strlit("\\t");
            assert(out@ =~= old(out)@ + spec_escape_char(c));
        }
    } else {
        push_char(out, c);
        proof {
            assert(out@ =~= old(out)@ + spec_escape_char(c));
        }
    }
}

/// Appends `s` escaped character by character to `out`.
pub(crate) fn append_escaped(out: &mut String, s: &str)
    ensures
        final(out)@ == old(out)@ + spec_escaped(s@),
{
    let n: usize = s.unicode_len();
    let mut i: usize = 0;
    proof {
        assert(out@ =~= old(out)@ + spec_escaped(s@.take(0)));
    }
    while i < n
        invariant
            n == s@.len(),
            i <= n,
            out@ == old(out)@ + spec_escaped(s@.take(i as int)),
        decreases n - i,
    {
        let c: char = s.get_char(i);
        proof {
            assert(s@.take(i as int).push(c) =~= s@.take(i as int + 1));
            lemma_concat_map_push(s@.take(i as int), c, |ch: char| spec_escape_char(ch));
        }
        push_escaped_char(out, c);
        proof {
            assert(out@ =~= old(out)@ + spec_escaped(s@.take(i as int + 1)));
        }
        i = i + 1;
    }
    proof {
        assert(s@.take(n as int) =~= s@);
    }
}

} // verus!

