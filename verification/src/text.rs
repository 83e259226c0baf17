//! Verified text helpers: the pieces a separator cuts a string into, the
//! string that joins pieces back, equality, and decimal numerals.

use vstd::prelude::*;
use vstd::std_specs::iter::IteratorSpec;

verus! {

broadcast use vstd::string::group_string_axioms;

/// The characters of `s`, in order.
pub fn chars_of(s: &str) -> (res: Vec<char>)
    ensures
        res@ == s@,
{
    let mut res: Vec<char> = Vec::new();
    let mut it = s.chars();
    loop
        invariant
            res@ + it.remaining() == s@,
            it.obeys_prophetic_iter_laws(),
            it.decrease() is Some,
        decreases it.decrease()->0,
    {
        let ghost before = it.remaining();
        match it.next() {
            Some(c) => {
                res.push(c);
                assert(res@ + it.remaining() =~= s@) by {
                    assert(before =~= seq![c] + it.remaining());
                }
            },
            None => {
                assert(res@ =~= s@);
                return res;
            },
        }
    }
}


/// The pieces that the separator `sep` cuts `s` into, as `str::split` yields
/// them: one more piece than there are separators, empty pieces included.
pub open spec fn split(s: Seq<char>, sep: char) -> Seq<Seq<char>>
    decreases s.len(),
{
    if s.len() == 0 {
        seq![Seq::empty()]
    } else {
        let init = split(s.drop_last(), sep);
        if s.last() == sep {
            init.push(Seq::empty())
        } else {
            init.update(init.len() - 1, init.last().push(s.last()))
        }
    }
}

/// `parts` joined with `sep` between each two of them, as `[String]::join` does.
pub open spec fn join(parts: Seq<Seq<char>>, sep: Seq<char>) -> Seq<char>
    decreases parts.len(),
{
    if parts.len() == 0 {
        Seq::empty()
    } else if parts.len() == 1 {
        parts[0]
    } else {
        join(parts.drop_last(), sep) + sep + parts.last()
    }
}

/// Splitting always yields at least one piece.
pub proof fn lemma_split_nonempty(s: Seq<char>, sep: char)
    ensures
        split(s, sep).len() >= 1,
    decreases s.len(),
{
    if s.len() > 0 {
        lemma_split_nonempty(s.drop_last(), sep);
    }
}

/// A string that holds the separator is cut into at least two pieces.
pub proof fn lemma_split_at_least_two(s: Seq<char>, sep: char)
    requires
        s.contains(sep),
    ensures
        split(s, sep).len() >= 2,
    decreases s.len(),
{
    lemma_split_nonempty(s.drop_last(), sep);
    if s.last() != sep {
        let i = choose|i: int| 0 <= i < s.len() && s[i] == sep;
        assert(s.drop_last()[i] == sep);
        lemma_split_at_least_two(s.drop_last(), sep);
    }
}

/// A string without the separator is its own single piece.
pub proof fn lemma_split_without_sep(s: Seq<char>, sep: char)
    requires
        !s.contains(sep),
    ensures
        split(s, sep) == seq![s],
    decreases s.len(),
{
    if s.len() > 0 {
        assert(!s.drop_last().contains(sep)) by {
            if s.drop_last().contains(sep) {
                let i = choose|i: int| 0 <= i < s.drop_last().len() && s.drop_last()[i] == sep;
                assert(s[i] == sep);
            }
        }
        lemma_split_without_sep(s.drop_last(), sep);
        assert(s.last() != sep) by {
            assert(s[s.len() - 1] == s.last());
        }
        assert(s.drop_last().push(s.last()) =~= s);
        assert(split(s, sep) =~= seq![s]);
    } else {
        assert(s =~= Seq::<char>::empty());
    }
}

/// Characters other than the separator extend the last piece.
pub proof fn lemma_split_append_plain(s: Seq<char>, b: Seq<char>, sep: char)
    requires
        !b.contains(sep),
    ensures
        split(s + b, sep) == split(s, sep).update(
            split(s, sep).len() - 1,
            split(s, sep).last() + b,
        ),
    decreases b.len(),
{
    lemma_split_nonempty(s, sep);
    if b.len() == 0 {
        assert(s + b =~= s);
        assert(split(s, sep).last() + b =~= split(s, sep).last());
        assert(split(s, sep).update(split(s, sep).len() - 1, split(s, sep).last())
            =~= split(s, sep));
    } else {
        let b0 = b.drop_last();
        assert(!b0.contains(sep)) by {
            if b0.contains(sep) {
                let i = choose|i: int| 0 <= i < b0.len() && b0[i] == sep;
                assert(b[i] == sep);
            }
        }
        assert(b.last() != sep) by {
            assert(b[b.len() - 1] == b.last());
        }
        lemma_split_append_plain(s, b0, sep);
        assert((s + b).drop_last() =~= s + b0);
        assert((s + b).last() == b.last());
        let init = split(s + b0, sep);
        lemma_split_nonempty(s + b0, sep);
        assert(init.len() == split(s, sep).len());
        assert(init.last() == split(s, sep).last() + b0);
        assert(split(s, sep).last() + b0 + seq![b.last()] =~= split(s, sep).last() + b);
        assert(init.last().push(b.last()) =~= split(s, sep).last() + b);
        assert(split(s + b, sep) == init.update(init.len() - 1, init.last().push(b.last())));
        assert(split(s + b, sep) =~= split(s, sep).update(
            split(s, sep).len() - 1,
            split(s, sep).last() + b,
        ));
    }
}

/// Splitting the join of separator-free pieces gives the pieces back.
pub proof fn lemma_split_join(parts: Seq<Seq<char>>, sep: char)
    requires
        parts.len() >= 1,
        forall|i: int| 0 <= i < parts.len() ==> !(#[trigger] parts[i]).contains(sep),
    ensures
        split(join(parts, seq![sep]), sep) == parts,
    decreases parts.len(),
{
    if parts.len() == 1 {
        lemma_split_without_sep(parts[0], sep);
        assert(seq![parts[0]] =~= parts);
    } else {
        let init = parts.drop_last();
        assert(forall|i: int| 0 <= i < init.len() ==> init[i] == parts[i]);
        lemma_split_join(init, sep);
        let j = join(init, seq![sep]);
        assert(join(parts, seq![sep]) == j + seq![sep] + parts.last());
        assert(split(j.push(sep), sep) == split(j, sep).push(Seq::empty())) by {
            assert(j.push(sep).drop_last() =~= j);
        }
        assert(j + seq![sep] =~= j.push(sep));
        assert(!parts.last().contains(sep)) by {
            assert(parts[parts.len() - 1] == parts.last());
        }
        lemma_split_append_plain(j + seq![sep], parts.last(), sep);
        assert(Seq::<char>::empty() + parts.last() =~= parts.last());
        assert(split(join(parts, seq![sep]), sep) =~= parts);
    }
}

/// Joining the pieces of `s` with the separator gives back `s`.
pub proof fn lemma_join_split(s: Seq<char>, sep: char)
    ensures
        join(split(s, sep), seq![sep]) == s,
    decreases s.len(),
{
    if s.len() == 0 {
        assert(split(s, sep)[0] =~= s);
    } else {
        let init = split(s.drop_last(), sep);
        lemma_split_nonempty(s.drop_last(), sep);
        lemma_join_split(s.drop_last(), sep);
        let parts = split(s, sep);
        if s.last() == sep {
            assert(parts.drop_last() =~= init);
            assert(join(parts, seq![sep]) =~= s);
        } else if init.len() == 1 {
            assert(join(parts, seq![sep]) =~= s);
        } else {
            assert(parts.drop_last() =~= init.drop_last());
            assert(parts.last() == init.last().push(s.last()));
            assert(join(init, seq![sep]) == join(init.drop_last(), seq![sep]) + seq![sep]
                + init.last());
            assert(s =~= s.drop_last().push(s.last()));
            assert(join(parts, seq![sep]) =~= s);
        }
    }
}

/// Whether `a` and `b` hold the same characters.
pub fn str_eq(a: &str, b: &str) -> (res: bool)
    ensures
        res == (a@ == b@),
{
    let ac = chars_of(a);
    let bc = chars_of(b);
    if ac.len() != bc.len() {
        return false;
    }
    let mut i: usize = 0;
    while i < ac.len()
        invariant
            ac@ == a@,
            bc@ == b@,
            ac.len() == bc.len(),
            i <= ac.len(),
            forall|j: int| 0 <= j < i ==> ac@[j] == bc@[j],
        decreases ac.len() - i,
    {
        if ac[i] != bc[i] {
            assert(a@[i as int] != b@[i as int]);
            return false;
        }
        i += 1;
    }
    assert(a@ =~= b@);
    true
}

/// Whether `s` holds the character `c` somewhere.
pub fn contains_char(s: &str, c: char) -> (res: bool)
    ensures
        res == s@.contains(c),
{
    let cs = chars_of(s);
    let mut i: usize = 0;
    while i < cs.len()
        invariant
            cs@ == s@,
            i <= cs.len(),
            forall|j: int| 0 <= j < i ==> cs@[j] != c,
        decreases cs.len() - i,
    {
        if cs[i] == c {
            assert(s@[i as int] == c);
            return true;
        }
        i += 1;
    }
    false
}

/// Whether `s` begins with the character `c`.
pub fn starts_with_char(s: &str, c: char) -> (res: bool)
    ensures
        res == (s@.len() > 0 && s@[0] == c),
{
    let cs = chars_of(s);
    cs.len() > 0 && cs[0] == c
}

/// The pieces of `s` between occurrences of `sep`, in order.
pub fn split_str(s: &str, sep: char) -> (res: Vec<String>)
    ensures
        res.len() == split(s@, sep).len(),
        forall|i: int| 0 <= i < res.len() ==> #[trigger] res[i]@ == split(s@, sep)[i],
{
    let cs = chars_of(s);
    let mut res: Vec<String> = Vec::new();
    let mut start: usize = 0;
    let mut i: usize = 0;
    while i < cs.len()
        invariant
            cs@ == s@,
            start <= i <= cs.len(),
            res.len() + 1 == split(s@.take(i as int), sep).len(),
            forall|j: int| 0 <= j < res.len() ==> #[trigger] res[j]@ == split(s@.take(i as int), sep)[j],
            split(s@.take(i as int), sep).last() == s@.subrange(start as int, i as int),
        decreases cs.len() - i,
    {
        let ghost prev = split(s@.take(i as int), sep);
        assert(s@.take(i + 1).drop_last() =~= s@.take(i as int));
        assert(s@.take(i + 1).last() == cs@[i as int]);
        proof {
            lemma_split_nonempty(s@.take(i as int), sep);
        }
        if cs[i] == sep {
            let piece = String::from_str(s.substring_char(start, i));
            res.push(piece);
            start = i + 1;
            i += 1;
            assert(s@.subrange(start as int, i as int) =~= Seq::<char>::empty());
            assert forall|j: int| 0 <= j < res.len() implies #[trigger] res[j]@ == split(
                s@.take(i as int),
                sep,
            )[j] by {
                if j < res.len() - 1 {
                    assert(res[j]@ == prev[j]);
                }
            }
        } else {
            i += 1;
            assert(s@.subrange(start as int, i as int) =~= s@.subrange(
                start as int,
                i - 1,
            ).push(cs@[i - 1]));
        }
    }
    assert(s@.take(cs.len() as int) =~= s@);
    let last = String::from_str(s.substring_char(start, cs.len()));
    res.push(last);
    proof {
        lemma_split_nonempty(s@, sep);
    }
    assert forall|j: int| 0 <= j < res.len() implies #[trigger] res[j]@ == split(s@, sep)[j] by {
        if j < res.len() - 1 {
            assert(res[j]@ == split(s@.take(cs.len() as int), sep)[j]);
        }
    }
    res
}

/// The strings of `parts`, joined with `sep` between each two of them.
pub fn join_strings(parts: &Vec<String>, sep: &str) -> (res: String)
    ensures
        res@ == join(parts@.map_values(|p: String| p@), sep@),
{
    let ghost views = parts@.map_values(|p: String| p@);
    let mut res = String::new();
    let mut i: usize = 0;
    while i < parts.len()
        invariant
            i <= parts.len(),
            views == parts@.map_values(|p: String| p@),
            res@ == join(views.take(i as int), sep@),
        decreases parts.len() - i,
    {
        assert(views.take(i + 1).drop_last() =~= views.take(i as int));
        if i > 0 {
            res.append(sep);
        }
        res.append(parts[i].as_str());
        i += 1;
        if i == 1 {
            assert(res@ =~= join(views.take(i as int), sep@)) by {
                assert(views.take(1)[0] == views[0]);
            }
        }
    }
    assert(views.take(parts.len() as int) =~= views);
    res
}


/// `fmt` with every `{}` in it replaced by `cols`, left to right, as
/// `str::replace("{}", cols)` gives it.
pub open spec fn fill(fmt: Seq<char>, cols: Seq<char>) -> Seq<char>
    decreases fmt.len(),
{
    if fmt.len() == 0 {
        Seq::empty()
    } else if fmt.len() >= 2 && fmt[0] == '{' && fmt[1] == '}' {
        cols + fill(fmt.skip(2), cols)
    } else {
        seq![fmt[0]] + fill(fmt.skip(1), cols)
    }
}

/// Text without an opening brace passes through `fill` unchanged.
pub proof fn lemma_fill_plain_prefix(a: Seq<char>, rest: Seq<char>, cols: Seq<char>)
    requires
        !a.contains('{'),
    ensures
        fill(a + rest, cols) == a + fill(rest, cols),
    decreases a.len(),
{
    if a.len() > 0 {
        let s = a + rest;
        assert(s[0] == a[0]);
        assert(a[0] != '{') by {
            if a[0] == '{' {
                assert(a.contains('{'));
            }
        }
        assert(s.skip(1) =~= a.skip(1) + rest);
        assert(!a.skip(1).contains('{')) by {
            if a.skip(1).contains('{') {
                let i = choose|i: int| 0 <= i < a.skip(1).len() && a.skip(1)[i] == '{';
                assert(a[i + 1] == '{');
            }
        }
        lemma_fill_plain_prefix(a.skip(1), rest, cols);
        assert(seq![a[0]] + a.skip(1) =~= a);
        assert(fill(s, cols) =~= a + fill(rest, cols));
    } else {
        assert(a + rest =~= rest);
    }
}

/// A format with one `{}` between brace-free text is filled at that place.
pub proof fn lemma_fill_once(a: Seq<char>, b: Seq<char>, cols: Seq<char>)
    requires
        !a.contains('{'),
        !b.contains('{'),
    ensures
        fill(a + seq!['{', '}'] + b, cols) == a + cols + b,
{
    let rest = seq!['{', '}'] + b;
    assert(a + seq!['{', '}'] + b =~= a + rest);
    lemma_fill_plain_prefix(a, rest, cols);
    assert(rest.skip(2) =~= b);
    lemma_fill_plain_prefix(b, Seq::empty(), cols);
    assert(b + Seq::<char>::empty() =~= b);
    assert(fill(Seq::<char>::empty(), cols) =~= Seq::<char>::empty());
    assert(fill(rest, cols) =~= cols + b);
    assert(a + (cols + b) =~= a + cols + b);
}

/// `fmt` with every `{}` in it replaced by `cols`.
pub fn fill_placeholder(fmt: &str, cols: &str) -> (res: String)
    ensures
        res@ == fill(fmt@, cols@),
{
    let fc = chars_of(fmt);
    let n = fc.len();
    let mut res = String::new();
    let mut i: usize = 0;
    assert(fmt@.skip(0) =~= fmt@);
    while i < n
        invariant
            fc@ == fmt@,
            n == fc.len(),
            i <= n,
            fill(fmt@, cols@) == res@ + fill(fmt@.skip(i as int), cols@),
        decreases n - i,
    {
        let ghost rest = fmt@.skip(i as int);
        if i + 1 < n && fc[i] == '{' && fc[i + 1] == '}' {
            assert(rest.skip(2) =~= fmt@.skip(i + 2));
            res.append(cols);
            i += 2;
        } else {
            assert(rest.skip(1) =~= fmt@.skip(i + 1));
            res.append(fmt.substring_char(i, i + 1));
            assert(fmt@.subrange(i as int, i + 1) =~= seq![rest[0]]);
            i += 1;
        }
    }
    assert(fmt@.skip(n as int) =~= Seq::<char>::empty());
    assert(res@ + Seq::<char>::empty() =~= res@);
    res
}

/// The character of the decimal digit `d`.
pub open spec fn digit_char(d: int) -> char {
    if d == 0 {
        '0'
    } else if d == 1 {
        '1'
    } else if d == 2 {
        '2'
    } else if d == 3 {
        '3'
    } else if d == 4 {
        '4'
    } else if d == 5 {
        '5'
    } else if d == 6 {
        '6'
    } else if d == 7 {
        '7'
    } else if d == 8 {
        '8'
    } else {
        '9'
    }
}

/// The decimal numeral of `n`, without leading zeros.
pub open spec fn decimal(n: nat) -> Seq<char>
    decreases n,
{
    if n < 10 {
        seq![digit_char(n as int)]
    } else {
        decimal(n / 10).push(digit_char((n % 10) as int))
    }
}

/// The decimal numeral of `i`, with a leading `-` when it is negative, as
/// `Display` writes an integer.
pub open spec fn signed_decimal(i: int) -> Seq<char> {
    if i < 0 {
        seq!['-'] + decimal((-i) as nat)
    } else {
        decimal(i as nat)
    }
}

fn digit_str(d: u64) -> (res: &'static str)
    requires
        d < 10,
    ensures
        res@ == seq![digit_char(d as int)],
{
    if d == 0 {
        proof { reveal_strlit("0"); }
        "0"
    } else if d == 1 {
        proof { reveal_strlit("1"); }
        "1"
    } else if d == 2 {
        proof { reveal_strlit("2"); }
        "2"
    } else if d == 3 {
        proof { reveal_strlit("3"); }
        "3"
    } else if d == 4 {
        proof { reveal_strlit("4"); }
        "4"
    } else if d == 5 {
        proof { reveal_strlit("5"); }
        "5"
    } else if d == 6 {
        proof { reveal_strlit("6"); }
        "6"
    } else if d == 7 {
        proof { reveal_strlit("7"); }
        "7"
    } else if d == 8 {
        proof { reveal_strlit("8"); }
        "8"
    } else {
        proof { reveal_strlit("9"); }
        "9"
    }
}

/// The decimal numeral of `n`.
pub fn decimal_string(n: u64) -> (res: String)
    ensures
        res@ == decimal(n as nat),
    decreases n,
{
    if n < 10 {
        String::from_str(digit_str(n))
    } else {
        let mut res = decimal_string(n / 10);
        res.append(digit_str(n % 10));
        res
    }
}

/// The decimal numeral of `i`, signed.
pub fn signed_decimal_string(i: i64) -> (res: String)
    ensures
        res@ == signed_decimal(i as int),
{
    if i < 0 {
        let magnitude: u64 = if i == i64::MIN {
            9223372036854775808u64
        } else {
            (-i) as u64
        };
        let mut res = String::from_str("-");
        proof { reveal_strlit("-"); }
        res.append(decimal_string(magnitude).as_str());
        res
    } else {
        decimal_string(i as u64)
    }
}

} // verus!
