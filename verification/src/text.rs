//! Character-sequence utilities: decimal rendering of integers and the
//! lexicographic order on character sequences that keeps the bound
//! parameter table sorted.

use vstd::prelude::*;
use vstd::string::*;

verus! {

/// The decimal digit character for a value below ten.
pub open spec fn dec_digit(d: nat) -> char {
    if d == 0 {
        '0'
    } else if d == 1 {
        '1'
    } else if d == 2 {
        '2'
    } else if d == 3 {
        '3'
    } else if d == 4 {
        '4'
    } else if d == 5 {
        '5'
    } else if d == 6 {
        '6'
    } else if d == 7 {
        '7'
    } else if d == 8 {
        '8'
    } else {
        '9'
    }
}

/// The decimal rendering of a natural number, most significant digit first.
pub open spec fn dec_chars(n: nat) -> Seq<char>
    decreases n,
{
    if n < 10 {
        seq![dec_digit(n)]
    } else {
        dec_chars(n / 10) + seq![dec_digit(n % 10)]
    }
}

/// The views of a sequence of strings.
pub open spec fn str_views(v: Seq<String>) -> Seq<Seq<char>> {
    Seq::new(v.len(), |i: int| v[i]@)
}

/// Clause fragments joined into statement text: every fragment is followed
/// by a single space, the last one included.
pub open spec fn space_join(fs: Seq<Seq<char>>) -> Seq<char>
    decreases fs.len(),
{
    if fs.len() == 0 {
        Seq::empty()
    } else {
        fs[0] + seq![' '] + space_join(fs.drop_first())
    }
}

/// Joining one more fragment appends it, followed by a space.
pub proof fn lemma_space_join_push(fs: Seq<Seq<char>>, x: Seq<char>)
    ensures
        space_join(fs.push(x)) == space_join(fs) + x + seq![' '],
    decreases fs.len(),
{
    if fs.len() == 0 {
        assert(fs.push(x).drop_first() =~= Seq::<Seq<char>>::empty());
        assert(fs.push(x)[0] == x);
        assert(fs.push(x).len() == 1);
        assert(space_join(fs.push(x)) == x + seq![' '] + space_join(Seq::<Seq<char>>::empty()));
        assert(space_join(Seq::<Seq<char>>::empty()) == Seq::<char>::empty());
        assert(space_join(fs) == Seq::<char>::empty());
        assert(x + seq![' '] + Seq::<char>::empty() =~= Seq::<char>::empty() + x + seq![' ']);
    } else {
        let t = fs.drop_first();
        assert(fs.push(x).drop_first() =~= t.push(x));
        assert(fs.push(x)[0] == fs[0]);
        lemma_space_join_push(t, x);
        assert(space_join(fs.push(x)) == fs[0] + seq![' '] + (space_join(t) + x + seq![' ']));
        assert(space_join(fs) == fs[0] + seq![' '] + space_join(t));
        assert(fs[0] + seq![' '] + (space_join(t) + x + seq![' ']) =~= (fs[0] + seq![' ']
            + space_join(t)) + x + seq![' ']);
    }
}

/// One-character string for a single decimal digit.
pub(crate) fn digit_string(d: u64) -> (s: &'static str)
    requires
        d < 10,
    ensures
        s@ == seq![dec_digit(d as nat)],
{
    proof {
        reveal_strlit("0");
        reveal_strlit("1");
        reveal_strlit("2");
        reveal_strlit("3");
        reveal_strlit("4");
        reveal_strlit("5");
        reveal_strlit("6");
        reveal_strlit("7");
        reveal_strlit("8");
        reveal_strlit("9");
    }
    match d {
        0 => "0",
        1 => "1",
        2 => "2",
        3 => "3",
        4 => "4",
        5 => "5",
        6 => "6",
        7 => "7",
        8 => "8",
        _ => "9",
    }
}

/// Strict lexicographic order on character sequences, comparing code
/// points; a proper prefix precedes every sequence that extends it.
pub open spec fn lex_lt(a: Seq<char>, b: Seq<char>) -> bool
    decreases a.len(),
{
    if b.len() == 0 {
        false
    } else if a.len() == 0 {
        true
    } else if a[0] != b[0] {
        (a[0] as int) < (b[0] as int)
    } else {
        lex_lt(a.drop_first(), b.drop_first())
    }
}

/// The order is irreflexive.
pub proof fn lemma_lex_lt_irrefl(a: Seq<char>)
    ensures
        !lex_lt(a, a),
    decreases a.len(),
{
    if a.len() > 0 {
        lemma_lex_lt_irrefl(a.drop_first());
    }
}

/// The order is total: two sequences are ordered one way or the other, or
/// they are equal.
pub proof fn lemma_lex_lt_total(a: Seq<char>, b: Seq<char>)
    ensures
        lex_lt(a, b) || lex_lt(b, a) || a == b,
    decreases a.len(),
{
    if a.len() == 0 && b.len() == 0 {
        assert(a =~= b);
    } else if a.len() > 0 && b.len() > 0 && a[0] == b[0] {
        lemma_lex_lt_total(a.drop_first(), b.drop_first());
        if a.drop_first() == b.drop_first() {
            assert(a.drop_first().len() == a.len() - 1);
            assert(b.drop_first().len() == b.len() - 1);
            assert(a.len() == b.len());
            assert forall|i: int| 0 <= i < a.len() implies a[i] == b[i] by {
                if i > 0 {
                    assert(a[i] == a.drop_first()[i - 1]);
                    assert(b[i] == b.drop_first()[i - 1]);
                }
            }
            assert(a =~= b);
        }
    } else if a.len() > 0 && b.len() > 0 && a[0] != b[0] {
        assert((a[0] as int) != (b[0] as int));
    }
}

/// The order is transitive.
pub proof fn lemma_lex_lt_trans(a: Seq<char>, b: Seq<char>, c: Seq<char>)
    requires
        lex_lt(a, b),
        lex_lt(b, c),
    ensures
        lex_lt(a, c),
    decreases a.len(),
{
    if a.len() > 0 && b.len() > 0 && c.len() > 0 && a[0] == b[0] && b[0] == c[0] {
        lemma_lex_lt_trans(a.drop_first(), b.drop_first(), c.drop_first());
    }
}

/// Compares two strings in the order that `lex_lt` describes.
pub fn str_lt(a: &str, b: &str) -> (r: bool)
    ensures
        r == lex_lt(a@, b@),
    decreases a@.len(),
{
    let b_len = b.unicode_len();
    if b_len == 0 {
        return false;
    }
    let a_len = a.unicode_len();
    if a_len == 0 {
        return true;
    }
    let ca = a.get_char(0);
    let cb = b.get_char(0);
    if ca != cb {
        ca < cb
    } else {
        let ta = a.substring_char(1, a_len);
        let tb = b.substring_char(1, b_len);
        assert(ta@ == a@.drop_first());
        assert(tb@ == b@.drop_first());
        str_lt(ta, tb)
    }
}

/// A decimal rendering has at least one digit, and exactly one for values
/// below ten.
pub proof fn lemma_dec_chars_len(n: nat)
    ensures
        dec_chars(n).len() >= 1,
        n < 10 <==> dec_chars(n).len() == 1,
    decreases n,
{
    if n >= 10 {
        lemma_dec_chars_len(n / 10);
    }
}

/// Distinct digits render as distinct characters.
pub proof fn lemma_dec_digit_injective(a: nat, b: nat)
    requires
        a < 10,
        b < 10,
        dec_digit(a) == dec_digit(b),
    ensures
        a == b,
{
}

/// Distinct numbers render as distinct decimal text.
pub proof fn lemma_dec_chars_injective(a: nat, b: nat)
    requires
        dec_chars(a) == dec_chars(b),
    ensures
        a == b,
    decreases a,
{
    lemma_dec_chars_len(a);
    lemma_dec_chars_len(b);
    if a < 10 && b < 10 {
        assert(dec_chars(a)[0] == dec_digit(a));
        assert(dec_chars(b)[0] == dec_digit(b));
        lemma_dec_digit_injective(a, b);
    } else if a < 10 || b < 10 {
        assert(dec_chars(a).len() != dec_chars(b).len());
    } else {
        let la = dec_chars(a).len();
        assert(dec_chars(a)[la - 1] == dec_digit(a % 10));
        assert(dec_chars(b)[la - 1] == dec_digit(b % 10));
        lemma_dec_digit_injective(a % 10, b % 10);
        assert(dec_chars(a / 10) =~= dec_chars(a).subrange(0, la - 1));
        assert(dec_chars(b / 10) =~= dec_chars(b).subrange(0, la - 1));
        lemma_dec_chars_injective(a / 10, b / 10);
    }
}

/// Compares two strings character by character.
pub fn str_eq(a: &str, b: &str) -> (r: bool)
    ensures
        r == (a@ == b@),
{
    let a_len = a.unicode_len();
    let b_len = b.unicode_len();
    if a_len != b_len {
        proof {
            assert(a@.len() != b@.len());
        }
        return false;
    }
    let mut i: usize = 0;
    while i < a_len
        invariant
            i <= a_len,
            a_len == a@.len(),
            b_len == b@.len(),
            a_len == b_len,
            forall|j: int| 0 <= j < i ==> a@[j] == b@[j],
        decreases a_len - i,
    {
        if a.get_char(i) != b.get_char(i) {
            return false;
        }
        i = i + 1;
    }
    proof {
        assert(a@ =~= b@);
    }
    true
}

/// Renders a number in decimal, as `dec_chars` describes.
pub fn u64_to_dec_string(n: u64) -> (s: String)
    ensures
        s@ == dec_chars(n as nat),
    decreases n,
{
    if n < 10 {
        String::from_str(digit_string(n))
    } else {
        let mut s = u64_to_dec_string(n / 10);
        s.append(digit_string(n % 10));
        s
    }
}

} // verus!
