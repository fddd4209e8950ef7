//! Small string-building helpers shared by the data model.

use vstd::prelude::*;
use vstd::multiset::Multiset;
use vstd::string::StrSliceExecFns;

verus! {

/// Relies on `String::from_iter` (via `Iterator::collect` on `std::vec::Vec`):
/// collecting an iterator of `char`s yields the string of exactly those
/// characters, in order.
#[verifier::external_body]
pub fn chars_to_string(v: &Vec<char>) -> (s: String)
    ensures
        s@ == v@,
{
    v.iter().collect()
}

/// The decimal digit character for `d`.
pub open spec fn spec_digit(d: int) -> char {
    if d == 0 {
        '0'
    } else if d == 1 {
        '1'
    } else if d == 2 {
        '2'
    } else if d == 3 {
        '3'
    } else if d == 4 {
        '4'
    } else if d == 5 {
        '5'
    } else if d == 6 {
        '6'
    } else if d == 7 {
        '7'
    } else if d == 8 {
        '8'
    } else {
        '9'
    }
}

/// The decimal digits of `n`, most significant first, with no sign and no
/// leading zero (except for `n == 0` itself).
pub open spec fn spec_nat_digits(n: nat) -> Seq<char>
    decreases n,
{
    if n < 10 {
        seq![spec_digit(n as int)]
    } else {
        spec_nat_digits(n / 10).push(spec_digit((n % 10) as int))
    }
}

/// The decimal rendering of an integer, with a leading minus sign when it
/// is negative.
pub open spec fn spec_int_str(n: int) -> Seq<char> {
    if n < 0 {
        seq!['-'] + spec_nat_digits((-n) as nat)
    } else {
        spec_nat_digits(n as nat)
    }
}

fn digit_char(d: u64) -> (c: char)
    requires
        d < 10,
    ensures
        c == spec_digit(d as int),
{
    if d == 0 {
        '0'
    } else if d == 1 {
        '1'
    } else if d == 2 {
        '2'
    } else if d == 3 {
        '3'
    } else if d == 4 {
        '4'
    } else if d == 5 {
        '5'
    } else if d == 6 {
        '6'
    } else if d == 7 {
        '7'
    } else if d == 8 {
        '8'
    } else {
        '9'
    }
}

fn push_digits(m: u64, out: &mut Vec<char>)
    ensures
        final(out)@ == old(out)@ + spec_nat_digits(m as nat),
    decreases m,
{
    if m < 10 {
        out.push(digit_char(m));
        proof {
            assert(out@ =~= old(out)@ + spec_nat_digits(m as nat));
        }
    } else {
        push_digits(m / 10, out);
        out.push(digit_char(m % 10));
        proof {
            assert(out@ =~= old(out)@ + spec_nat_digits(m as nat));
        }
    }
}

/// Render an unsigned number in decimal.
pub fn u64_to_string(n: u64) -> (s: String)
    ensures
        s@ == spec_nat_digits(n as nat),
{
    let mut v: Vec<char> = Vec::new();
    push_digits(n, &mut v);
    proof {
        assert(v@ =~= spec_nat_digits(n as nat));
    }
    chars_to_string(&v)
}

/// Render a signed number in decimal.
pub fn i64_to_string(n: i64) -> (s: String)
    ensures
        s@ == spec_int_str(n as int),
{
    if n >= 0 {
        u64_to_string(n as u64)
    } else {
        let mag: u64 = ((-(n + 1)) as u64) + 1;
        proof {
            assert(mag as int == -(n as int));
        }
        let mut v: Vec<char> = Vec::new();
        v.push('-');
        push_digits(mag, &mut v);
        proof {
            assert(v@ =~= spec_int_str(n as int));
        }
        chars_to_string(&v)
    }
}

/// Whether some element of `xs` has exactly the characters `x`.
pub open spec fn seq_contains_str(xs: Seq<String>, x: Seq<char>) -> bool {
    exists|i: int| 0 <= i < xs.len() && xs[i]@ == x
}

/// Whether some element of `v` has the same characters as `s`.
pub fn vec_contains_string(v: &Vec<String>, s: &String) -> (r: bool)
    ensures
        r == seq_contains_str(v@, s@),
{
    let n = v.len();
    let mut i: usize = 0;
    while i < n
        invariant
            i <= n,
            n == v@.len(),
            forall|j: int| 0 <= j < i ==> v@[j]@ != s@,
        decreases n - i,
    {
        if v[i] == *s {
            return true;
        }
        i = i + 1;
    }
    false
}

/// Keep the first occurrence of each string, dropping later duplicates:
/// the result has no duplicates and exactly the character-sequences of `v`.
pub fn dedup_strings(v: &Vec<String>) -> (r: Vec<String>)
    ensures
        forall|j1: int, j2: int| 0 <= j1 < j2 < r@.len() ==> r@[j1]@ != r@[j2]@,
        forall|j: int| #![trigger r@[j]] 0 <= j < r@.len() ==> seq_contains_str(v@, r@[j]@),
        forall|i: int| #![trigger v@[i]] 0 <= i < v@.len() ==> seq_contains_str(r@, v@[i]@),
{
    let n = v.len();
    let mut out: Vec<String> = Vec::new();
    let ghost mut wit: Seq<int> = Seq::empty();
    let ghost mut rwit: Seq<int> = Seq::empty();
    let mut i: usize = 0;
    while i < n
        invariant
            i <= n,
            n == v@.len(),
            forall|j1: int, j2: int| 0 <= j1 < j2 < out@.len() ==> out@[j1]@ != out@[j2]@,
            wit.len() == out@.len(),
            forall|j: int| #![trigger wit[j]]
                0 <= j < wit.len() ==> 0 <= wit[j] < i && v@[wit[j]]@ == out@[j]@,
            rwit.len() == i,
            forall|k: int| #![trigger rwit[k]]
                0 <= k < i ==> 0 <= rwit[k] < out@.len() && out@[rwit[k]]@ == v@[k]@,
        decreases n - i,
    {
        let ghost prev = out@;
        if !vec_contains_string(&out, &v[i]) {
            out.push(v[i].clone());
            proof {
                wit = wit.push(i as int);
                rwit = rwit.push(prev.len() as int);
                assert(out@[prev.len() as int]@ == v@[i as int]@);
            }
        } else {
            proof {
                let j0 = choose|j: int| 0 <= j < prev.len() && prev[j]@ == v@[i as int]@;
                rwit = rwit.push(j0);
                assert(out@[j0]@ == v@[i as int]@);
            }
        }
        i = i + 1;
    }
    proof {
        assert forall|j: int| #![trigger out@[j]] 0 <= j < out@.len() implies seq_contains_str(
            v@,
            out@[j]@,
        ) by {
            assert(v@[wit[j]]@ == out@[j]@);
        }
        assert forall|k: int| #![trigger v@[k]] 0 <= k < v@.len() implies seq_contains_str(
            out@,
            v@[k]@,
        ) by {
            assert(out@[rwit[k]]@ == v@[k]@);
        }
    }
    out
}

/// Whether `needle` occurs as a contiguous run inside `hay`.
pub open spec fn contains_sub(hay: Seq<char>, needle: Seq<char>) -> bool {
    exists|i: int|
        0 <= i <= hay.len() - needle.len() && #[trigger] hay.subrange(i, i + needle.len())
            == needle
}

fn matches_at(hay: &str, needle: &str, at: usize) -> (r: bool)
    requires
        at + needle@.len() <= hay@.len(),
        hay@.len() <= usize::MAX,
    ensures
        r == (hay@.subrange(at as int, at as int + needle@.len()) == needle@),
{
    let m = needle.unicode_len();
    let mut j: usize = 0;
    while j < m
        invariant
            j <= m,
            m == needle@.len(),
            at + m <= hay@.len(),
            hay@.len() <= usize::MAX,
            forall|j2: int| 0 <= j2 < j ==> hay@[at + j2] == needle@[j2],
        decreases m - j,
    {
        if hay.get_char(at + j) != needle.get_char(j) {
            proof {
                assert(hay@.subrange(at as int, at as int + needle@.len())[j as int] != needle@[
                    j as int
                ]);
            }
            return false;
        }
        j = j + 1;
    }
    proof {
        assert(hay@.subrange(at as int, at as int + needle@.len()) =~= needle@);
    }
    true
}

/// Whether `needle` occurs as a substring of `hay` (by characters).
pub fn str_contains_sub(hay: &str, needle: &str) -> (r: bool)
    ensures
        r == contains_sub(hay@, needle@),
{
    let n = hay.unicode_len();
    let m = needle.unicode_len();
    if m > n {
        return false;
    }
    if m == 0 {
        proof {
            assert(hay@.subrange(0, 0 + needle@.len() as int) =~= needle@);
        }
        return true;
    }
    let last: usize = n - m;
    let mut i: usize = 0;
    while i <= last
        invariant
            i <= last + 1,
            last == n - m,
            1 <= m <= n,
            n == hay@.len(),
            m == needle@.len(),
            forall|i2: int|
                0 <= i2 < i ==> #[trigger] hay@.subrange(i2, i2 + needle@.len()) != needle@,
        decreases last + 1 - i,
    {
        if matches_at(hay, needle, i) {
            return true;
        }
        i = i + 1;
    }
    false
}

/// Inserting an element anywhere in a sequence adds it to the multiset.
pub proof fn lemma_to_multiset_insert<A>(s: Seq<A>, pos: int, x: A)
    requires
        0 <= pos <= s.len(),
    ensures
        s.insert(pos, x).to_multiset() == s.to_multiset().insert(x),
{
    broadcast use vstd::seq_lib::group_to_multiset_ensures;

    let l = s.subrange(0, pos);
    let r = s.subrange(pos, s.len() as int);
    assert(s.insert(pos, x) =~= l + (seq![x] + r));
    vstd::seq_lib::lemma_multiset_commutative(l, seq![x] + r);
    vstd::seq_lib::lemma_multiset_commutative(seq![x], r);
    assert(s =~= l + r);
    vstd::seq_lib::lemma_multiset_commutative(l, r);
    assert(seq![x].drop_first() =~= Seq::<A>::empty());
    assert(seq![x].to_multiset() =~= Multiset::<A>::empty().insert(x));
    assert(s.insert(pos, x).to_multiset() =~= s.to_multiset().insert(x));
}

/// Lexicographic order on character sequences, by code point.
pub open spec fn lex_le(a: Seq<char>, b: Seq<char>) -> bool
    decreases a.len(),
{
    if a.len() == 0 {
        true
    } else if b.len() == 0 {
        false
    } else if (a[0] as u32) < (b[0] as u32) {
        true
    } else if (a[0] as u32) > (b[0] as u32) {
        false
    } else {
        lex_le(a.drop_first(), b.drop_first())
    }
}

/// The lexicographic order is total.
pub proof fn lemma_lex_total(a: Seq<char>, b: Seq<char>)
    ensures
        lex_le(a, b) || lex_le(b, a),
    decreases a.len(),
{
    if a.len() == 0 || b.len() == 0 {
    } else if (a[0] as u32) == (b[0] as u32) {
        lemma_lex_total(a.drop_first(), b.drop_first());
    }
}

/// The lexicographic order is transitive.
pub proof fn lemma_lex_trans(a: Seq<char>, b: Seq<char>, c: Seq<char>)
    requires
        lex_le(a, b),
        lex_le(b, c),
    ensures
        lex_le(a, c),
    decreases a.len(),
{
    if a.len() == 0 {
    } else if b.len() == 0 {
    } else if c.len() == 0 {
    } else {
        if (a[0] as u32) == (b[0] as u32) && (b[0] as u32) == (c[0] as u32) {
            lemma_lex_trans(a.drop_first(), b.drop_first(), c.drop_first());
        }
    }
}

/// Compare two strings in lexicographic code-point order.
pub fn str_lex_le(a: &str, b: &str) -> (r: bool)
    ensures
        r == lex_le(a@, b@),
{
    let la = a.unicode_len();
    let lb = b.unicode_len();
    let min: usize = if la < lb {
        la
    } else {
        lb
    };
    let mut i: usize = 0;
    proof {
        assert(a@.skip(0) =~= a@);
        assert(b@.skip(0) =~= b@);
    }
    while i < min
        invariant
            i <= min,
            la == a@.len(),
            lb == b@.len(),
            min == if la < lb {
                la
            } else {
                lb
            },
            lex_le(a@, b@) == lex_le(a@.skip(i as int), b@.skip(i as int)),
        decreases min - i,
    {
        let ca = a.get_char(i) as u32;
        let cb = b.get_char(i) as u32;
        proof {
            assert(a@.skip(i as int)[0] == a@[i as int]);
            assert(b@.skip(i as int)[0] == b@[i as int]);
            assert(a@.skip(i as int).drop_first() =~= a@.skip(i as int + 1));
            assert(b@.skip(i as int).drop_first() =~= b@.skip(i as int + 1));
        }
        if ca < cb {
            return true;
        }
        if ca > cb {
            return false;
        }
        i = i + 1;
    }
    proof {
        if la <= lb {
            assert(a@.skip(min as int) =~= Seq::<char>::empty());
        } else {
            assert(b@.skip(min as int) =~= Seq::<char>::empty());
            assert(a@.skip(min as int).len() > 0);
        }
    }
    la <= lb
}

} // verus!
