use vstd::prelude::*;

verus! {

/// The pieces of `s` cut at every occurrence of `sep`: an empty piece
/// stands between two adjoining separators, before a leading one and after
/// a trailing one, exactly as textual splitting gives them.
pub open spec fn split_parts(s: Seq<char>, sep: char) -> Seq<Seq<char>>
    decreases s.len(),
{
    if s.len() == 0 {
        seq![Seq::<char>::empty()]
    } else if s[0] == sep {
        seq![Seq::<char>::empty()] + split_parts(s.skip(1), sep)
    } else {
        let rest = split_parts(s.skip(1), sep);
        seq![seq![s[0]] + rest[0]] + rest.skip(1)
    }
}

/// The non-empty pieces among `parts`, in order.
pub open spec fn keep_non_empty(parts: Seq<Seq<char>>) -> Seq<Seq<char>>
    decreases parts.len(),
{
    if parts.len() == 0 {
        Seq::<Seq<char>>::empty()
    } else if parts.last().len() > 0 {
        keep_non_empty(parts.drop_last()).push(parts.last())
    } else {
        keep_non_empty(parts.drop_last())
    }
}

/// The non-empty pieces of `s` cut at `sep`, in order: what splitting on
/// the separator and discarding empty pieces leaves.
pub open spec fn split_fields(s: Seq<char>, sep: char) -> Seq<Seq<char>> {
    keep_non_empty(split_parts(s, sep))
}

/// `sep` occurs nowhere in `s`.
pub open spec fn sep_free(s: Seq<char>, sep: char) -> bool {
    forall|i: int| 0 <= i < s.len() ==> s[i] != sep
}

/// Splitting yields at least one piece.
pub proof fn lemma_split_parts_len(s: Seq<char>, sep: char)
    ensures
        split_parts(s, sep).len() >= 1,
    decreases s.len(),
{
    if s.len() == 0 {
    } else if s[0] == sep {
        lemma_split_parts_len(s.skip(1), sep);
    } else {
        lemma_split_parts_len(s.skip(1), sep);
    }
}

/// A separator-free prefix joins the first piece of whatever follows it.
pub proof fn lemma_split_prepend_clean(a: Seq<char>, rest: Seq<char>, sep: char)
    requires
        sep_free(a, sep),
    ensures
        split_parts(a + rest, sep) =~~= seq![a + split_parts(rest, sep)[0]] + split_parts(
            rest,
            sep,
        ).skip(1),
    decreases a.len(),
{
    lemma_split_parts_len(rest, sep);
    if a.len() == 0 {
        assert(a + rest =~= rest);
        assert(a + split_parts(rest, sep)[0] =~= split_parts(rest, sep)[0]);
        assert(seq![split_parts(rest, sep)[0]] + split_parts(rest, sep).skip(1) =~= split_parts(
            rest,
            sep,
        ));
    } else {
        let t = a + rest;
        assert(t[0] == a[0]);
        assert(t[0] != sep);
        assert(t.skip(1) =~= a.skip(1) + rest);
        lemma_split_prepend_clean(a.skip(1), rest, sep);
        let r = split_parts(rest, sep);
        let q = split_parts(a.skip(1) + rest, sep);
        assert(q =~~= seq![a.skip(1) + r[0]] + r.skip(1));
        assert(split_parts(t, sep) =~~= seq![seq![t[0]] + q[0]] + q.skip(1));
        assert(seq![t[0]] + (a.skip(1) + r[0]) =~= a + r[0]);
        assert(q.skip(1) =~~= r.skip(1));
    }
}

/// A separator-free text is one single piece.
pub proof fn lemma_split_clean(a: Seq<char>, sep: char)
    requires
        sep_free(a, sep),
    ensures
        split_parts(a, sep) =~~= seq![a],
{
    lemma_split_prepend_clean(a, Seq::<char>::empty(), sep);
    assert(a + Seq::<char>::empty() =~= a);
    assert(split_parts(Seq::<char>::empty(), sep) =~~= seq![Seq::<char>::empty()]);
}

/// Cutting at the first separator: the separator-free piece before it,
/// then the pieces of what follows.
pub proof fn lemma_split_at_sep(a: Seq<char>, rest: Seq<char>, sep: char)
    requires
        sep_free(a, sep),
    ensures
        split_parts(a + seq![sep] + rest, sep) =~~= seq![a] + split_parts(rest, sep),
{
    let t = seq![sep] + rest;
    assert(t[0] == sep);
    assert(t.skip(1) =~= rest);
    assert(split_parts(t, sep) =~~= seq![Seq::<char>::empty()] + split_parts(rest, sep));
    lemma_split_prepend_clean(a, t, sep);
    assert(a + seq![sep] + rest =~= a + t);
    lemma_split_parts_len(rest, sep);
    assert(split_parts(t, sep)[0] =~= Seq::<char>::empty());
    assert(a + split_parts(t, sep)[0] =~= a);
    assert(split_parts(t, sep).skip(1) =~~= split_parts(rest, sep));
}

/// Cuts `s` at every occurrence of `sep` and keeps the non-empty pieces,
/// in order.
#[verifier::loop_isolation(false)]
pub fn split_non_empty(s: &str, sep: char) -> (r: Vec<String>)
    ensures
        r@.len() == split_fields(s@, sep).len(),
        forall|k: int| 0 <= k < r@.len() ==> r@[k]@ == split_fields(s@, sep)[k],
{
    let n = s.unicode_len();
    let mut parts: Vec<String> = Vec::new();
    let ghost mut parts_v: Seq<Seq<char>> = Seq::<Seq<char>>::empty();
    let mut start: usize = 0;
    let mut i: usize = 0;
    proof {
        assert(s@.subrange(0, n as int) =~= s@);
        assert(Seq::<Seq<char>>::empty() + split_parts(s@, sep) =~~= split_parts(s@, sep));
    }
    while i < n
        invariant
            n == s@.len(),
            0 <= start <= i <= n,
            forall|k: int| start <= k < i ==> s@[k] != sep,
            parts@.len() == parts_v.len(),
            forall|k: int| 0 <= k < parts_v.len() ==> parts@[k]@ == parts_v[k],
            split_parts(s@, sep) =~~= parts_v + split_parts(
                s@.subrange(start as int, n as int),
                sep,
            ),
        decreases n - i,
    {
        let c = s.get_char(i);
        if c == sep {
            let piece = s.substring_char(start, i).to_owned();
            proof {
                let a = s@.subrange(start as int, i as int);
                let tail = s@.subrange(i as int + 1, n as int);
                assert(sep_free(a, sep));
                assert(s@.subrange(start as int, n as int) =~= a + seq![sep] + tail);
                lemma_split_at_sep(a, tail, sep);
                parts_v = parts_v.push(a);
            }
            parts.push(piece);
            start = i + 1;
        }
        i += 1;
    }
    let piece = s.substring_char(start, n).to_owned();
    proof {
        let a = s@.subrange(start as int, n as int);
        assert(sep_free(a, sep));
        lemma_split_clean(a, sep);
        parts_v = parts_v.push(a);
        assert(split_parts(s@, sep) =~~= parts_v);
    }
    parts.push(piece);
    let m = parts.len();
    let mut out: Vec<String> = Vec::new();
    let mut j: usize = 0;
    while j < m
        invariant
            m == parts@.len() == parts_v.len(),
            0 <= j <= m,
            forall|k: int| 0 <= k < parts_v.len() ==> parts@[k]@ == parts_v[k],
            out@.len() == keep_non_empty(parts_v.take(j as int)).len(),
            forall|k: int|
                0 <= k < out@.len() ==> out@[k]@ == keep_non_empty(parts_v.take(j as int))[k],
        decreases m - j,
    {
        proof {
            let pre = parts_v.take(j as int);
            let e = parts_v[j as int];
            assert(parts_v.take(j as int + 1) =~~= pre.push(e));
            assert(pre.push(e).drop_last() =~~= pre);
            assert(pre.push(e).last() == e);
            assert(keep_non_empty(parts_v.take(j as int + 1)) == (if e.len() > 0 {
                keep_non_empty(pre).push(e)
            } else {
                keep_non_empty(pre)
            }));
        }
        if !parts[j].as_str().is_empty() {
            out.push(parts[j].clone());
        }
        j += 1;
    }
    proof {
        assert(parts_v.take(m as int) =~~= parts_v);
        assert(keep_non_empty(parts_v) =~~= split_fields(s@, sep));
    }
    out
}

/// A decimal digit.
pub open spec fn is_digit(c: char) -> bool {
    '0' as u32 <= c as u32 && c as u32 <= '9' as u32
}

/// The number one digit stands for.
pub open spec fn digit_value(c: char) -> int {
    c as u32 - '0' as u32
}

/// Every character is a decimal digit.
pub open spec fn all_digits(s: Seq<char>) -> bool {
    forall|i: int| 0 <= i < s.len() ==> is_digit(s[i])
}

/// The number a digit string denotes, most significant digit first.
pub open spec fn dec_value(s: Seq<char>) -> int
    decreases s.len(),
{
    if s.len() == 0 {
        0
    } else {
        dec_value(s.drop_last()) * 10 + digit_value(s.last())
    }
}

/// A digit string denotes a number that is not negative.
pub proof fn lemma_dec_value_nonneg(s: Seq<char>)
    requires
        all_digits(s),
    ensures
        dec_value(s) >= 0,
    decreases s.len(),
{
    if s.len() > 0 {
        assert(all_digits(s.drop_last()));
        lemma_dec_value_nonneg(s.drop_last());
    }
}

/// Reading one more digit multiplies the value so far by ten and adds the
/// digit.
pub proof fn lemma_dec_value_take_step(s: Seq<char>, i: int)
    requires
        0 <= i < s.len(),
    ensures
        dec_value(s.take(i + 1)) == dec_value(s.take(i)) * 10 + digit_value(s[i]),
{
    assert(s.take(i + 1).drop_last() =~= s.take(i));
    assert(s.take(i + 1).last() == s[i]);
}

/// A prefix of a digit string never denotes more than the whole string.
pub proof fn lemma_dec_value_take_le(s: Seq<char>, i: int)
    requires
        all_digits(s),
        0 <= i <= s.len(),
    ensures
        dec_value(s.take(i)) <= dec_value(s),
    decreases s.len() - i,
{
    if i == s.len() {
        assert(s.take(i) =~= s);
    } else {
        lemma_dec_value_take_step(s, i);
        assert(all_digits(s.take(i)));
        lemma_dec_value_nonneg(s.take(i));
        lemma_dec_value_take_le(s, i + 1);
    }
}

/// Reads a whole string as an unsigned decimal number: every character a
/// digit, no sign, no blanks. `None` where the string is empty, where a
/// character is not a digit, and where the value does not fit in `u64`.
#[verifier::loop_isolation(false)]
pub fn parse_u64(s: &str) -> (r: Option<u64>)
    ensures
        r is Some <==> (s@.len() > 0 && all_digits(s@) && dec_value(s@) <= u64::MAX),
        r matches Some(v) ==> v == dec_value(s@),
{
    let n = s.unicode_len();
    if n == 0 {
        return None;
    }
    let mut acc: u64 = 0;
    let mut i: usize = 0;
    while i < n
        invariant
            n == s@.len(),
            0 <= i <= n,
            all_digits(s@.take(i as int)),
            acc == dec_value(s@.take(i as int)),
        decreases n - i,
    {
        let c = s.get_char(i);
        let v = c as u32;
        if v < 48 || v > 57 {
            proof {
                assert(!is_digit(s@[i as int]));
                assert(!all_digits(s@));
            }
            return None;
        }
        proof {
            assert(is_digit(s@[i as int]));
            assert(all_digits(s@.take(i as int + 1)));
            lemma_dec_value_take_step(s@, i as int);
        }
        let d = (v - 48) as u64;
        let wide: u128 = (acc as u128) * 10 + (d as u128);
        if wide > u64::MAX as u128 {
            proof {
                if all_digits(s@) {
                    lemma_dec_value_take_le(s@, i as int + 1);
                }
            }
            return None;
        }
        acc = wide as u64;
        i += 1;
    }
    proof {
        assert(s@.take(n as int) =~= s@);
    }
    Some(acc)
}

} // verus!
