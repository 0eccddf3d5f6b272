//! Small verified building blocks for working with strings: prefix and
//! suffix stripping, substring replacement, lexicographic comparison, and
//! decimal formatting.

use vstd::prelude::*;

verus! {

/// Relies on `String::push`: appends the given character to the end of the
/// string.
#[verifier::external_body]
pub(crate) fn push_char(s: &mut String, c: char)
    ensures
        final(s)@ == old(s)@.push(c),
{
    s.push(c)
}

/// Whether the characters of `p` occur in `s` starting at position `i`.
pub open spec fn matches_at(s: Seq<char>, i: int, p: Seq<char>) -> bool {
    0 <= i && i + p.len() <= s.len() && s.subrange(i, i + p.len()) == p
}

/// Tests whether `p` occurs in `s` at character position `i`.
pub fn has_prefix_at(s: &str, i: usize, p: &str) -> (r: bool)
    requires
        i <= s@.len(),
    ensures
        r == matches_at(s@, i as int, p@),
{
    let s_len = s.unicode_len();
    let p_len = p.unicode_len();
    if p_len > s_len - i {
        assert(!matches_at(s@, i as int, p@));
        return false;
    }
    let mut j: usize = 0;
    while j < p_len
        invariant
            j <= p_len,
            i + p_len <= s_len,
            s_len == s@.len(),
            p_len == p@.len(),
            forall|k: int| 0 <= k < j ==> s@[i + k] == p@[k],
        decreases p_len - j,
    {
        if s.get_char(i + j) != p.get_char(j) {
            assert(s@.subrange(i as int, i + p@.len())[j as int] != p@[j as int]);
            return false;
        }
        j += 1;
    }
    assert(s@.subrange(i as int, i + p@.len()) =~= p@);
    true
}

/// Tests whether `s` starts with `p`.
pub fn has_prefix(s: &str, p: &str) -> (r: bool)
    ensures
        r == matches_at(s@, 0, p@),
{
    has_prefix_at(s, 0, p)
}

/// Tests whether two strings consist of the same characters.
pub fn str_equal(a: &str, b: &str) -> (r: bool)
    ensures
        r == (a@ == b@),
{
    let a_len = a.unicode_len();
    let b_len = b.unicode_len();
    if a_len != b_len {
        return false;
    }
    let mut i: usize = 0;
    while i < a_len
        invariant
            i <= a_len,
            a_len == a@.len(),
            a_len == b@.len(),
            forall|k: int| 0 <= k < i ==> a@[k] == b@[k],
        decreases a_len - i,
    {
        if a.get_char(i) != b.get_char(i) {
            return false;
        }
        i += 1;
    }
    assert(a@ =~= b@);
    true
}

/// `s` with every copy of the prefix `p` removed from the front, one after
/// the other.
pub open spec fn strip_prefix_rep(s: Seq<char>, p: Seq<char>) -> Seq<char>
    recommends
        p.len() > 0,
    decreases s.len(),
{
    if p.len() > 0 && matches_at(s, 0, p) && p.len() <= s.len() {
        strip_prefix_rep(s.skip(p.len() as int), p)
    } else {
        s
    }
}

/// Removes every repetition of the prefix `p` from the front of `s`.
pub fn strip_prefix_repeated(s: &str, p: &str) -> (r: String)
    requires
        p@.len() > 0,
    ensures
        r@ == strip_prefix_rep(s@, p@),
{
    let s_len = s.unicode_len();
    let p_len = p.unicode_len();
    let mut i: usize = 0;
    assert(s@.skip(0) =~= s@);
    while has_prefix_at(s, i, p)
        invariant
            i <= s_len,
            s_len == s@.len(),
            p_len == p@.len(),
            p_len > 0,
            strip_prefix_rep(s@.skip(i as int), p@) == strip_prefix_rep(s@, p@),
        decreases s_len - i,
    {
        assert(s@.skip(i as int).subrange(0, p@.len() as int) =~= s@.subrange(
            i as int,
            i + p@.len(),
        ));
        assert(s@.skip(i as int).skip(p@.len() as int) =~= s@.skip(i + p@.len() as int));
        i += p_len;
    }
    assert(!matches_at(s@.skip(i as int), 0, p@)) by {
        if matches_at(s@.skip(i as int), 0, p@) {
            assert(s@.subrange(i as int, i + p@.len()) =~= s@.skip(i as int).subrange(
                0,
                p@.len() as int,
            ));
        }
    }
    let rest = s.substring_char(i, s_len);
    rest.to_owned()
}

/// `s` with every copy of the suffix `p` removed from the back, one after
/// the other.
pub open spec fn strip_suffix_rep(s: Seq<char>, p: Seq<char>) -> Seq<char>
    recommends
        p.len() > 0,
    decreases s.len(),
{
    if p.len() > 0 && p.len() <= s.len() && matches_at(s, s.len() - p.len(), p) {
        strip_suffix_rep(s.take(s.len() - p.len()), p)
    } else {
        s
    }
}

/// Removes every repetition of the suffix `p` from the back of `s`.
pub fn strip_suffix_repeated(s: &str, p: &str) -> (r: String)
    requires
        p@.len() > 0,
    ensures
        r@ == strip_suffix_rep(s@, p@),
{
    let s_len = s.unicode_len();
    let p_len = p.unicode_len();
    let mut j: usize = s_len;
    assert(s@.take(s_len as int) =~= s@);
    loop
        invariant
            j <= s_len,
            s_len == s@.len(),
            p_len == p@.len(),
            p_len > 0,
            strip_suffix_rep(s@.take(j as int), p@) == strip_suffix_rep(s@, p@),
        ensures
            j <= s_len,
            strip_suffix_rep(s@, p@) == s@.take(j as int),
        decreases j,
    {
        let keep_going = if j >= p_len {
            has_prefix_at(s, j - p_len, p)
        } else {
            false
        };
        if keep_going {
            assert(s@.take(j as int).subrange(j - p@.len(), j as int) =~= s@.subrange(
                j - p@.len(),
                j as int,
            ));
            assert(matches_at(s@.take(j as int), j - p@.len(), p@));
            assert(s@.take(j as int).take(j - p@.len()) =~= s@.take(j - p@.len()));
            j -= p_len;
        } else {
            assert(!matches_at(s@.take(j as int), j - p@.len(), p@)) by {
                if j >= p@.len() && matches_at(s@.take(j as int), j - p@.len(), p@) {
                    assert(s@.subrange(j - p@.len(), j as int) =~= s@.take(j as int).subrange(
                        j - p@.len(),
                        j as int,
                    ));
                }
            }
            assert(strip_suffix_rep(s@.take(j as int), p@) == s@.take(j as int));
            break;
        }
    }
    let rest = s.substring_char(0, j);
    assert(s@.subrange(0, j as int) =~= s@.take(j as int));
    rest.to_owned()
}

/// `s` with every occurrence of `from` replaced by `to`, scanning from the
/// left and never rescanning replaced text.
pub open spec fn replace_seq(s: Seq<char>, from: Seq<char>, to: Seq<char>) -> Seq<char>
    recommends
        from.len() > 0,
    decreases s.len(),
{
    if from.len() == 0 || s.len() == 0 {
        s
    } else if matches_at(s, 0, from) {
        to + replace_seq(s.skip(from.len() as int), from, to)
    } else {
        seq![s[0]] + replace_seq(s.skip(1), from, to)
    }
}

/// Replaces every occurrence of `from` in `s` by `to`.
pub fn replace_all(s: &str, from: &str, to: &str) -> (r: String)
    requires
        from@.len() > 0,
    ensures
        r@ == replace_seq(s@, from@, to@),
{
    let s_len = s.unicode_len();
    let from_len = from.unicode_len();
    let mut out = String::new();
    let mut i: usize = 0;
    assert(s@.skip(0) =~= s@);
    assert(Seq::<char>::empty() + replace_seq(s@, from@, to@) =~= replace_seq(s@, from@, to@));
    while i < s_len
        invariant
            i <= s_len,
            s_len == s@.len(),
            from_len == from@.len(),
            from_len > 0,
            replace_seq(s@, from@, to@) == out@ + replace_seq(s@.skip(i as int), from@, to@),
        decreases s_len - i,
    {
        if has_prefix_at(s, i, from) {
            assert(s@.skip(i as int).subrange(0, from@.len() as int) =~= s@.subrange(
                i as int,
                i + from@.len(),
            ));
            assert(s@.skip(i as int).skip(from@.len() as int) =~= s@.skip(i + from@.len() as int));
            out.append(to);
            i += from_len;
        } else {
            assert(!matches_at(s@.skip(i as int), 0, from@)) by {
                if matches_at(s@.skip(i as int), 0, from@) {
                    assert(s@.subrange(i as int, i + from@.len()) =~= s@.skip(i as int).subrange(
                        0,
                        from@.len() as int,
                    ));
                }
            }
            let c = s.get_char(i);
            let ghost prev = out@;
            push_char(&mut out, c);
            assert(s@.skip(i as int).skip(1) =~= s@.skip(i + 1));
            assert(replace_seq(s@.skip(i as int), from@, to@) == seq![s@[i as int]] + replace_seq(
                s@.skip(i + 1),
                from@,
                to@,
            ));
            assert(out@ + replace_seq(s@.skip(i + 1), from@, to@) =~= prev + replace_seq(
                s@.skip(i as int),
                from@,
                to@,
            ));
            i += 1;
        }
    }
    assert(replace_seq(s@.skip(s_len as int), from@, to@) =~= Seq::<char>::empty());
    assert(out@ =~= out@ + Seq::<char>::empty());
    out
}

/// Strict lexicographic order on character sequences, by unicode value.
pub open spec fn seq_char_lt(a: Seq<char>, b: Seq<char>) -> bool
    decreases a.len(),
{
    if b.len() == 0 {
        false
    } else if a.len() == 0 {
        true
    } else if a[0] != b[0] {
        (a[0] as int) < (b[0] as int)
    } else {
        seq_char_lt(a.skip(1), b.skip(1))
    }
}

/// Tests whether `a` comes strictly before `b` in lexicographic order.
pub fn str_less(a: &str, b: &str) -> (r: bool)
    ensures
        r == seq_char_lt(a@, b@),
{
    let a_len = a.unicode_len();
    let b_len = b.unicode_len();
    let mut i: usize = 0;
    assert(a@.skip(0) =~= a@);
    assert(b@.skip(0) =~= b@);
    loop
        invariant
            i <= a_len,
            i <= b_len,
            a_len == a@.len(),
            b_len == b@.len(),
            forall|k: int| 0 <= k < i ==> a@[k] == b@[k],
            seq_char_lt(a@, b@) == seq_char_lt(a@.skip(i as int), b@.skip(i as int)),
        decreases a_len - i,
    {
        if i >= b_len {
            assert(b@.skip(i as int).len() == 0);
            return false;
        }
        if i >= a_len {
            assert(a@.skip(i as int).len() == 0 && b@.skip(i as int).len() > 0);
            return true;
        }
        let ca = a.get_char(i);
        let cb = b.get_char(i);
        if ca != cb {
            return (ca as u32) < (cb as u32);
        }
        assert(a@.skip(i as int).skip(1) =~= a@.skip(i + 1));
        assert(b@.skip(i as int).skip(1) =~= b@.skip(i + 1));
        i += 1;
    }
}

/// The lexicographic order never holds of a sequence and itself.
pub proof fn lemma_seq_char_lt_irreflexive(a: Seq<char>)
    ensures
        !seq_char_lt(a, a),
    decreases a.len(),
{
    if a.len() > 0 {
        lemma_seq_char_lt_irreflexive(a.skip(1));
    }
}

/// Two distinct sequences are ordered one way or the other.
pub proof fn lemma_seq_char_lt_connected(a: Seq<char>, b: Seq<char>)
    requires
        a != b,
    ensures
        seq_char_lt(a, b) || seq_char_lt(b, a),
    decreases a.len(),
{
    if b.len() == 0 || a.len() == 0 {
        assert(a.len() != 0 || b.len() != 0) by {
            if a.len() == 0 && b.len() == 0 {
                assert(a =~= b);
            }
        }
    } else if a[0] == b[0] {
        assert(a.skip(1) != b.skip(1)) by {
            if a.skip(1) == b.skip(1) {
                assert(a.skip(1).len() == b.skip(1).len());
                assert(a.len() == b.len());
                assert forall|k: int| 0 <= k < a.len() implies a[k] == b[k] by {
                    if k > 0 {
                        assert(a.skip(1) =~= a.subrange(1, a.len() as int));
                        assert(b.skip(1) =~= b.subrange(1, b.len() as int));
                        assert(a.subrange(1, a.len() as int)[k - 1] == a[k]);
                        assert(b.subrange(1, b.len() as int)[k - 1] == b[k]);
                    }
                }
                assert(a =~= b);
            }
        }
        lemma_seq_char_lt_connected(a.skip(1), b.skip(1));
    }
}

/// The lexicographic order is transitive.
pub proof fn lemma_seq_char_lt_transitive(a: Seq<char>, b: Seq<char>, c: Seq<char>)
    requires
        seq_char_lt(a, b),
        seq_char_lt(b, c),
    ensures
        seq_char_lt(a, c),
    decreases a.len(),
{
    if a.len() > 0 && b.len() > 0 && c.len() > 0 {
        if a[0] == b[0] && b[0] == c[0] {
            lemma_seq_char_lt_transitive(a.skip(1), b.skip(1), c.skip(1));
        }
    }
}

/// The character for one decimal digit.
pub open spec fn digit_char(d: int) -> char {
    if d == 0 {
        '0'
    } else if d == 1 {
        '1'
    } else if d == 2 {
        '2'
    } else if d == 3 {
        '3'
    } else if d == 4 {
        '4'
    } else if d == 5 {
        '5'
    } else if d == 6 {
        '6'
    } else if d == 7 {
        '7'
    } else if d == 8 {
        '8'
    } else {
        '9'
    }
}

/// The decimal digits of `n`, most significant first.
pub open spec fn dec_chars(n: int) -> Seq<char>
    recommends
        n >= 0,
    decreases n,
{
    if n < 10 {
        seq![digit_char(n)]
    } else {
        dec_chars(n / 10).push(digit_char(n % 10))
    }
}

fn append_digit(out: &mut String, d: u64)
    requires
        d < 10,
    ensures
        final(out)@ == old(out)@ + seq![digit_char(d as int)],
{
    let c: char = match d {
        0 => '0',
        1 => '1',
        2 => '2',
        3 => '3',
        4 => '4',
        5 => '5',
        6 => '6',
        7 => '7',
        8 => '8',
        _ => '9',
    };
    push_char(out, c);
    assert(old(out)@.push(c) =~= old(out)@ + seq![digit_char(d as int)]);
}

/// Appends the decimal representation of `n` to `out`.
pub fn append_decimal(out: &mut String, n: u64)
    ensures
        final(out)@ == old(out)@ + dec_chars(n as int),
    decreases n,
{
    if n < 10 {
        append_digit(out, n);
    } else {
        append_decimal(out, n / 10);
        append_digit(out, n % 10);
        assert((old(out)@ + dec_chars(n as int / 10)) + seq![digit_char(n as int % 10)] =~= old(
            out,
        )@ + dec_chars(n as int));
    }
}

/// The decimal representation of `n`.
pub fn decimal_string(n: u64) -> (r: String)
    ensures
        r@ == dec_chars(n as int),
{
    let mut out = String::new();
    append_decimal(&mut out, n);
    assert(Seq::<char>::empty() + dec_chars(n as int) =~= dec_chars(n as int));
    out
}

} // verus!
