//! Texts: decimal and hexadecimal notation, the order of strings, joining.

use vstd::prelude::*;
use vstd::string::*;

verus! {

/// The sixteen hexadecimal digits, lower case.
pub open spec fn hex_digits() -> Seq<char> {
    seq!['0', '1', '2', '3', '4', '5', '6', '7', '8', '9', 'a', 'b', 'c', 'd', 'e', 'f']
}

/// The decimal notation of `n`: no sign, no leading zero, `"0"` for zero.
pub open spec fn spec_decimal(n: nat) -> Seq<char>
    decreases n,
{
    if n < 10 {
        seq![hex_digits()[n as int]]
    } else {
        spec_decimal(n / 10).push(hex_digits()[(n % 10) as int])
    }
}

/// The hexadecimal notation of `bytes`: two lower-case digits for each byte, high digit first.
pub open spec fn spec_hex(bytes: Seq<u8>) -> Seq<char>
    decreases bytes.len(),
{
    if bytes.len() == 0 {
        Seq::<char>::empty()
    } else {
        spec_hex(bytes.drop_last()).push(hex_digits()[(bytes.last() / 16) as int]).push(
            hex_digits()[(bytes.last() % 16) as int],
        )
    }
}

/// `a` comes before `b` in the order of strings: at the first position where they
/// differ `a` has the smaller character, or `a` is a proper prefix of `b`.
pub open spec fn spec_text_less(a: Seq<char>, b: Seq<char>) -> bool
    decreases a.len(),
{
    if b.len() == 0 {
        false
    } else if a.len() == 0 {
        true
    } else if a[0] != b[0] {
        (a[0] as u32) < (b[0] as u32)
    } else {
        spec_text_less(a.drop_first(), b.drop_first())
    }
}

/// The parts, with `sep` between each two of them.
pub open spec fn spec_join(parts: Seq<Seq<char>>, sep: Seq<char>) -> Seq<char>
    decreases parts.len(),
{
    if parts.len() == 0 {
        Seq::<char>::empty()
    } else if parts.len() == 1 {
        parts[0]
    } else {
        spec_join(parts.drop_last(), sep) + sep + parts.last()
    }
}

/// The views of the strings of `v`, in order.
pub open spec fn texts_of(v: Seq<String>) -> Seq<Seq<char>> {
    v.map_values(|s: String| s@)
}

/// Calls `hex::encode`, which writes each byte as two digits out of
/// `0123456789abcdef`, the high half first.
#[verifier::external_body]
pub(crate) fn hex_text(bytes: &Vec<u8>) -> (text: String)
    ensures
        text@ == spec_hex(bytes@),
{
    hex::encode(bytes)
}

/// Formats with std's `Display` for `u64`: the decimal notation, with no sign,
/// padding or leading zero.
#[verifier::external_body]
pub(crate) fn decimal_text(n: u64) -> (text: String)
    ensures
        text@ == spec_decimal(n as nat),
{
    format!("{}", n)
}

/// Compares with std's `<` on `str`, which orders strings by their bytes and
/// so by the code points of their characters, one position after the other.
#[verifier::external_body]
pub(crate) fn text_less(a: &str, b: &str) -> (less: bool)
    ensures
        less == spec_text_less(a@, b@),
{
    a < b
}

/// Joins `parts` with `sep` between each two of them.
pub fn join(parts: &Vec<String>, sep: &str) -> (text: String)
    ensures
        text@ == spec_join(texts_of(parts@), sep@),
{
    let mut text = String::new();
    let mut i: usize = 0;
    while i < parts.len()
        invariant
            i <= parts.len(),
            text@ == spec_join(texts_of(parts@).take(i as int), sep@),
        decreases parts.len() - i,
    {
        let ghost done = texts_of(parts@).take(i as int);
        let ghost next = texts_of(parts@).take(i + 1);
        proof {
            assert(next.drop_last() == done);
            assert(next.last() == parts@[i as int]@);
        }
        if i > 0 {
            text.append(sep);
        } else {
            assert(text@ + parts@[i as int]@ == parts@[i as int]@);
        }
        text.append(parts[i].as_str());
        i = i + 1;
    }
    proof {
        assert(texts_of(parts@).take(parts.len() as int) == texts_of(parts@));
    }
    text
}

/// No text comes before itself.
pub proof fn lemma_text_less_irreflexive(a: Seq<char>)
    ensures
        !spec_text_less(a, a),
    decreases a.len(),
{
    if a.len() > 0 {
        lemma_text_less_irreflexive(a.drop_first());
    }
}

/// Of two different texts one comes before the other.
pub proof fn lemma_text_less_total(a: Seq<char>, b: Seq<char>)
    ensures
        spec_text_less(a, b) || spec_text_less(b, a) || a == b,
    decreases a.len(),
{
    if a.len() == 0 || b.len() == 0 {
        if a.len() == 0 && b.len() == 0 {
            assert(a =~= b);
        }
    } else if a[0] == b[0] {
        lemma_text_less_total(a.drop_first(), b.drop_first());
        if a.drop_first() == b.drop_first() {
            assert(a =~= seq![a[0]] + a.drop_first());
            assert(b =~= seq![b[0]] + b.drop_first());
        }
    } else {
        lemma_code_injective(a[0], b[0]);
    }
}

/// Different characters have different code points.
proof fn lemma_code_injective(x: char, y: char)
    ensures
        x as u32 == y as u32 ==> x == y,
{
}

/// The order of texts is transitive.
pub proof fn lemma_text_less_transitive(a: Seq<char>, b: Seq<char>, c: Seq<char>)
    requires
        spec_text_less(a, b),
        spec_text_less(b, c),
    ensures
        spec_text_less(a, c),
    decreases a.len(),
{
    if a.len() > 0 && a[0] == b[0] && b[0] == c[0] {
        lemma_text_less_transitive(a.drop_first(), b.drop_first(), c.drop_first());
    }
}

/// Each text comes before all that follow it.
pub open spec fn strictly_increasing(rows: Seq<Seq<char>>) -> bool {
    forall|i: int, j: int| 0 <= i < j < rows.len() ==> spec_text_less(rows[i], rows[j])
}

/// `rows` lists the texts of the set, each once, in the order of texts.
pub open spec fn is_sorted_listing(rows: Seq<Seq<char>>, texts: Set<Seq<char>>) -> bool {
    &&& strictly_increasing(rows)
    &&& forall|t: Seq<char>| rows.contains(t) <==> texts.contains(t)
}

/// The texts of a set, each once, in the order of texts (for a finite set).
pub open spec fn spec_sorted_listing(texts: Set<Seq<char>>) -> Seq<Seq<char>> {
    choose|rows: Seq<Seq<char>>| is_sorted_listing(rows, texts)
}

/// A set of texts has at most one sorted listing.
pub proof fn lemma_sorted_listing_unique(
    a: Seq<Seq<char>>,
    b: Seq<Seq<char>>,
    texts: Set<Seq<char>>,
)
    requires
        is_sorted_listing(a, texts),
        is_sorted_listing(b, texts),
    ensures
        a == b,
    decreases a.len(),
{
    if a.len() == 0 {
        if b.len() > 0 {
            assert(b.contains(b[0]));
            assert(a.contains(b[0]));
        }
        assert(a =~= b);
    } else if b.len() == 0 {
        assert(a.contains(a[0]));
        assert(b.contains(a[0]));
    } else {
        // both end in the greatest text of the set
        let x = a.last();
        let y = b.last();
        assert(a.contains(x));
        assert(b.contains(x));
        assert(b.contains(y));
        assert(a.contains(y));
        let k = choose|k: int| 0 <= k < b.len() && b[k] == x;
        let m = choose|m: int| 0 <= m < a.len() && a[m] == y;
        if x != y {
            assert(k < b.len() - 1);
            assert(spec_text_less(x, y));
            assert(m < a.len() - 1);
            assert(spec_text_less(y, x));
            lemma_text_less_transitive(x, y, x);
            lemma_text_less_irreflexive(x);
        }
        let rest = texts.remove(x);
        let a1 = a.drop_last();
        let b1 = b.drop_last();
        assert forall|t: Seq<char>| a1.contains(t) <==> rest.contains(t) by {
            if a1.contains(t) {
                let i = choose|i: int| 0 <= i < a1.len() && a1[i] == t;
                assert(a[i] == t);
                assert(a.contains(t));
                if t == x {
                    assert(spec_text_less(a[i], a[a.len() - 1]));
                    lemma_text_less_irreflexive(x);
                }
            }
            if rest.contains(t) {
                assert(a.contains(t));
                let i = choose|i: int| 0 <= i < a.len() && a[i] == t;
                assert(i < a.len() - 1);
                assert(a1[i] == t);
            }
        }
        assert forall|t: Seq<char>| b1.contains(t) <==> rest.contains(t) by {
            if b1.contains(t) {
                let i = choose|i: int| 0 <= i < b1.len() && b1[i] == t;
                assert(b[i] == t);
                assert(b.contains(t));
                if t == x {
                    assert(spec_text_less(b[i], b[b.len() - 1]));
                    lemma_text_less_irreflexive(x);
                }
            }
            if rest.contains(t) {
                assert(b.contains(t));
                let i = choose|i: int| 0 <= i < b.len() && b[i] == t;
                assert(i < b.len() - 1);
                assert(b1[i] == t);
            }
        }
        lemma_sorted_listing_unique(a1, b1, rest);
        assert(a =~= a1.push(x));
        assert(b =~= b1.push(y));
    }
}

/// Puts `text` into a sorted listing, unless it is there already.
pub fn insert_sorted(rows: &mut Vec<String>, text: String)
    requires
        strictly_increasing(texts_of(old(rows)@)),
    ensures
        strictly_increasing(texts_of(final(rows)@)),
        forall|t: Seq<char>|
            texts_of(final(rows)@).contains(t) <==> (texts_of(old(rows)@).contains(t) || t
                == text@),
{
    let ghost before = texts_of(rows@);
    let mut i: usize = 0;
    while i < rows.len() && text_less(rows[i].as_str(), text.as_str())
        invariant
            i <= rows.len(),
            texts_of(rows@) == before,
            forall|j: int| 0 <= j < i ==> spec_text_less(before[j], text@),
        decreases rows.len() - i,
    {
        i = i + 1;
    }
    if i < rows.len() && rows[i] == text {
        assert(before[i as int] == text@);
        assert(before.contains(text@));
        return ;
    }
    proof {
        if i < rows.len() {
            lemma_text_less_total(before[i as int], text@);
            assert forall|j: int| i < j < before.len() implies spec_text_less(
                text@,
                before[j],
            ) by {
                lemma_text_less_transitive(text@, before[i as int], before[j]);
            }
        }
    }
    rows.insert(i, text);
    proof {
        let after = texts_of(rows@);
        assert(after =~= before.insert(i as int, text@));
        assert forall|t: Seq<char>| after.contains(t) <==> (before.contains(t) || t
            == text@) by {
            if after.contains(t) {
                let j = choose|j: int| 0 <= j < after.len() && after[j] == t;
                if j < i {
                    assert(before[j] == t);
                } else if j > i {
                    assert(before[j - 1] == t);
                }
            }
            if before.contains(t) {
                let j = choose|j: int| 0 <= j < before.len() && before[j] == t;
                if j < i {
                    assert(after[j] == t);
                } else {
                    assert(after[j + 1] == t);
                }
            }
            if t == text@ {
                assert(after[i as int] == t);
            }
        }
        assert forall|a: int, b: int| 0 <= a < b < after.len() implies spec_text_less(
            after[a],
            after[b],
        ) by {
            let pa = if a < i { a } else { a - 1 };
            let pb = if b < i { b } else { b - 1 };
            if a != i && b != i {
                assert(spec_text_less(before[pa], before[pb]));
            }
        }
    }
}

} // verus!
