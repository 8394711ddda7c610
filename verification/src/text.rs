//! Character-sequence utilities shared by the tools: line splitting and
//! joining, substring search and replacement, tab expansion, decimal
//! formatting and parsing, and lexicographic ordering.
use vstd::prelude::*;
use vstd::std_specs::iter::IteratorSpec;

verus! {

/// The character for one decimal digit.
pub open spec fn digit_char(d: int) -> char {
    if d == 0 {
        '0'
    } else if d == 1 {
        '1'
    } else if d == 2 {
        '2'
    } else if d == 3 {
        '3'
    } else if d == 4 {
        '4'
    } else if d == 5 {
        '5'
    } else if d == 6 {
        '6'
    } else if d == 7 {
        '7'
    } else if d == 8 {
        '8'
    } else {
        '9'
    }
}

/// Decimal rendering of a non-negative integer, most significant digit first.
pub open spec fn dec_digits(n: nat) -> Seq<char>
    decreases n,
{
    if n < 10 {
        seq![digit_char(n as int)]
    } else {
        dec_digits(n / 10) + seq![digit_char((n % 10) as int)]
    }
}

fn digit_to_char(d: u64) -> (c: char)
    requires
        d < 10,
    ensures
        c == digit_char(d as int),
{
    if d == 0 {
        '0'
    } else if d == 1 {
        '1'
    } else if d == 2 {
        '2'
    } else if d == 3 {
        '3'
    } else if d == 4 {
        '4'
    } else if d == 5 {
        '5'
    } else if d == 6 {
        '6'
    } else if d == 7 {
        '7'
    } else if d == 8 {
        '8'
    } else {
        '9'
    }
}

/// Appends the decimal rendering of `n` to `out`.
pub fn push_dec_u64(out: &mut Vec<char>, n: u64)
    ensures
        final(out)@ == old(out)@ + dec_digits(n as nat),
    decreases n,
{
    if n < 10 {
        let c = digit_to_char(n);
        out.push(c);
    } else {
        push_dec_u64(out, n / 10);
        let c = digit_to_char(n % 10);
        out.push(c);
        proof {
            assert(out@ =~= old(out)@ + dec_digits(n as nat));
        }
    }
}

/// Appends the decimal rendering of `n` to `out`.
pub fn push_dec_u128(out: &mut Vec<char>, n: u128)
    ensures
        final(out)@ == old(out)@ + dec_digits(n as nat),
    decreases n,
{
    if n < 10 {
        let c = digit_to_char((n % 10) as u64);
        out.push(c);
    } else {
        push_dec_u128(out, n / 10);
        let c = digit_to_char((n % 10) as u64);
        out.push(c);
        proof {
            assert(out@ =~= old(out)@ + dec_digits(n as nat));
        }
    }
}

/// Decimal rendering of a signed integer: a minus sign for negative values,
/// then the digits of the magnitude.
pub open spec fn dec_digits_signed(n: int) -> Seq<char> {
    if n < 0 {
        seq!['-'] + dec_digits((-n) as nat)
    } else {
        dec_digits(n as nat)
    }
}

/// Appends the decimal rendering of the signed value `n` to `out`.
pub fn push_dec_i64(out: &mut Vec<char>, n: i64)
    ensures
        final(out)@ == old(out)@ + dec_digits_signed(n as int),
{
    if n < 0 {
        out.push('-');
        let m: u64 = if n == i64::MIN {
            9223372036854775808u64
        } else {
            (-n) as u64
        };
        push_dec_u64(out, m);
        proof {
            assert(out@ =~= old(out)@ + dec_digits_signed(n as int));
        }
    } else {
        push_dec_u64(out, n as u64);
    }
}

/// Whether `pat` occurs in `s` starting at index `i`.
pub open spec fn matches_at(s: Seq<char>, pat: Seq<char>, i: int) -> bool {
    0 <= i && i + pat.len() <= s.len() && s.subrange(i, i + pat.len() as int) == pat
}

/// Whether `pat` occurs anywhere in `s` at or after index `from`.
pub open spec fn has_match_from(s: Seq<char>, pat: Seq<char>, from: int) -> bool {
    exists|i: int| from <= i && matches_at(s, pat, i)
}

/// Compares `v[i..i+pat.len()]` with `pat`.
fn check_match(v: &Vec<char>, pat: &Vec<char>, i: usize) -> (r: bool)
    requires
        i + pat@.len() <= v@.len(),
    ensures
        r == matches_at(v@, pat@, i as int),
{
    let n = pat.len();
    let vlen = v.len();
    let mut j: usize = 0;
    while j < n
        invariant
            n == pat@.len(),
            vlen == v@.len(),
            i + n <= vlen,
            j <= n,
            forall|k: int| 0 <= k < j ==> v@[i + k] == pat@[k],
        decreases n - j,
    {
        if v[i + j] != pat[j] {
            proof {
                assert(v@.subrange(i as int, i + pat@.len() as int)[j as int] != pat@[j as int]);
            }
            return false;
        }
        j += 1;
    }
    proof {
        assert(v@.subrange(i as int, i + pat@.len() as int) =~= pat@);
    }
    true
}

/// Finds the first occurrence of `pat` in `v` at or after `from`.
pub fn find_sub(v: &Vec<char>, pat: &Vec<char>, from: usize) -> (r: Option<usize>)
    requires
        pat@.len() >= 1,
    ensures
        match r {
            Some(i) => from <= i && matches_at(v@, pat@, i as int) && forall|j: int|
                from <= j < i ==> !matches_at(v@, pat@, j),
            None => !has_match_from(v@, pat@, from as int),
        },
{
    if v.len() < pat.len() {
        return None;
    }
    let vlen = v.len();
    let limit = vlen - pat.len();
    let mut i: usize = from;
    while i <= limit
        invariant
            pat@.len() >= 1,
            vlen == v@.len(),
            limit == vlen - pat@.len(),
            from <= i,
            forall|j: int| from <= j < i ==> !matches_at(v@, pat@, j),
        decreases limit + 1 - i,
    {
        if check_match(v, pat, i) {
            return Some(i);
        }
        i += 1;
    }
    None
}

/// The number of occurrences of `pat` in `s`, counted greedily from the
/// left: after a match the count continues past the matched characters, so
/// overlapping occurrences count once. An empty pattern matches between
/// every pair of characters and at both ends.
pub open spec fn count_occurrences(s: Seq<char>, pat: Seq<char>) -> nat
    decreases s.len(),
{
    if pat.len() == 0 {
        s.len() + 1
    } else if s.len() < pat.len() {
        0
    } else if matches_at(s, pat, 0) {
        1 + count_occurrences(s.skip(pat.len() as int), pat)
    } else {
        count_occurrences(s.skip(1), pat)
    }
}

/// A match of `pat` within `s.skip(k)` is a match within `s`, shifted.
pub proof fn lemma_matches_skip(s: Seq<char>, pat: Seq<char>, k: int, i: int)
    requires
        0 <= k <= s.len(),
        0 <= i,
    ensures
        matches_at(s, pat, k + i) == matches_at(s.skip(k), pat, i),
{
    if i + pat.len() <= s.len() - k {
        assert(s.skip(k).subrange(i, i + pat.len() as int) =~= s.subrange(
            k + i,
            k + i + pat.len() as int,
        ));
    }
}

/// Counting from the first match: one, plus the matches past it.
pub proof fn lemma_count_first(s: Seq<char>, pat: Seq<char>, i: int)
    requires
        pat.len() >= 1,
        matches_at(s, pat, i),
        forall|j: int| 0 <= j < i ==> !matches_at(s, pat, j),
    ensures
        count_occurrences(s, pat) == 1 + count_occurrences(s.skip(i + pat.len()), pat),
    decreases i,
{
    if i == 0 {
        assert(count_occurrences(s, pat) == 1 + count_occurrences(s.skip(pat.len() as int), pat));
    } else {
        assert(!matches_at(s, pat, 0));
        assert(s.len() >= pat.len());
        lemma_matches_skip(s, pat, 1, i - 1);
        assert forall|j: int| 0 <= j < i - 1 implies !matches_at(s.skip(1), pat, j) by {
            lemma_matches_skip(s, pat, 1, j);
        }
        lemma_count_first(s.skip(1), pat, i - 1);
        assert(s.skip(1).skip(i - 1 + pat.len()) =~= s.skip(i + pat.len()));
    }
}

/// No match anywhere means a count of zero.
pub proof fn lemma_count_none(s: Seq<char>, pat: Seq<char>)
    requires
        pat.len() >= 1,
        !has_match_from(s, pat, 0),
    ensures
        count_occurrences(s, pat) == 0,
    decreases s.len(),
{
    if s.len() < pat.len() {
    } else {
        assert(!matches_at(s, pat, 0));
        assert forall|j: int| 0 <= j implies !matches_at(s.skip(1), pat, j) by {
            lemma_matches_skip(s, pat, 1, j);
            assert(!matches_at(s, pat, 1 + j));
        }
        assert(!has_match_from(s.skip(1), pat, 0));
        lemma_count_none(s.skip(1), pat);
    }
}

/// A match anywhere means a count of at least one.
pub proof fn lemma_count_pos(s: Seq<char>, pat: Seq<char>)
    requires
        pat.len() >= 1,
        has_match_from(s, pat, 0),
    ensures
        count_occurrences(s, pat) >= 1,
    decreases s.len(),
{
    let i = choose|i: int| 0 <= i && matches_at(s, pat, i);
    if matches_at(s, pat, 0) {
    } else {
        assert(i >= 1);
        lemma_matches_skip(s, pat, 1, i - 1);
        assert(matches_at(s.skip(1), pat, i - 1));
        lemma_count_pos(s.skip(1), pat);
    }
}

/// The index of the first occurrence of `pat` in `s` (meaningful only when
/// one exists).
pub open spec fn first_hit(s: Seq<char>, pat: Seq<char>) -> int {
    choose|i: int|
        matches_at(s, pat, i) && (forall|j: int| 0 <= j < i ==> !matches_at(s, pat, j))
}

/// The first occurrence index of a pattern is unique.
pub proof fn lemma_first_hit_unique(s: Seq<char>, pat: Seq<char>, i: int)
    requires
        matches_at(s, pat, i),
        forall|j: int| 0 <= j < i ==> !matches_at(s, pat, j),
    ensures
        first_hit(s, pat) == i,
{
    let c = first_hit(s, pat);
    assert(matches_at(s, pat, c) && (forall|j: int| 0 <= j < c ==> !matches_at(s, pat, j))) by {
        assert(matches_at(s, pat, i) && (forall|j: int| 0 <= j < i ==> !matches_at(s, pat, j)));
    }
    if c < i {
        assert(!matches_at(s, pat, c));
    }
    if c > i {
        assert(!matches_at(s, pat, i));
    }
}

/// The first line of `s` ends at the first newline (or at the end of `s`
/// when there is none).
pub proof fn lemma_line_split_first(s: Seq<char>, k: int)
    requires
        0 <= k <= s.len(),
        forall|j: int| 0 <= j < k ==> s[j] != '\n',
        k < s.len() ==> s[k] == '\n',
    ensures
        line_split(s)[0] == s.take(k),
    decreases s.len(),
{
    if k == 0 {
        if s.len() == 0 {
            assert(line_split(s)[0] =~= s.take(0));
        } else {
            assert(s[0] == '\n');
            assert(line_split(s)[0] =~= s.take(0));
        }
    } else {
        assert(s[0] != '\n');
        lemma_line_split_len(s.skip(1));
        assert forall|j: int| 0 <= j < k - 1 implies s.skip(1)[j] != '\n' by {
            assert(s.skip(1)[j] == s[j + 1]);
        }
        if k - 1 < s.skip(1).len() {
            assert(s.skip(1)[k - 1] == s[k]);
        }
        lemma_line_split_first(s.skip(1), k - 1);
        assert(line_split(s)[0] == seq![s[0]] + line_split(s.skip(1))[0]);
        assert(seq![s[0]] + s.skip(1).take(k - 1) =~= s.take(k));
    }
}

/// Copies `v[a..b]`.
pub fn subrange_chars(v: &Vec<char>, a: usize, b: usize) -> (r: Vec<char>)
    requires
        a <= b <= v@.len(),
    ensures
        r@ == v@.subrange(a as int, b as int),
{
    let mut out: Vec<char> = Vec::new();
    let mut i: usize = a;
    while i < b
        invariant
            a <= i <= b <= v@.len(),
            out@ == v@.subrange(a as int, i as int),
        decreases b - i,
    {
        let c = v[i];
        out.push(c);
        proof {
            assert(v@.subrange(a as int, i + 1) =~= v@.subrange(a as int, i as int).push(c));
        }
        i += 1;
    }
    proof {
        assert(out@ =~= v@.subrange(a as int, b as int));
    }
    out
}

/// The lines of `s`, split on newline characters. Splitting the empty
/// sequence gives one empty line, so the result always has at least one line.
pub open spec fn line_split(s: Seq<char>) -> Seq<Seq<char>>
    decreases s.len(),
{
    if s.len() == 0 {
        seq![Seq::empty()]
    } else if s[0] == '\n' {
        seq![Seq::<char>::empty()] + line_split(s.skip(1))
    } else {
        let rest = line_split(s.skip(1));
        seq![seq![s[0]] + rest[0]] + rest.skip(1)
    }
}

/// The lines joined back with newline separators.
pub open spec fn line_join(ls: Seq<Seq<char>>) -> Seq<char>
    decreases ls.len(),
{
    if ls.len() == 0 {
        Seq::empty()
    } else if ls.len() == 1 {
        ls[0]
    } else {
        ls[0] + seq!['\n'] + line_join(ls.skip(1))
    }
}

pub proof fn lemma_line_split_len(s: Seq<char>)
    ensures
        line_split(s).len() >= 1,
    decreases s.len(),
{
    if s.len() == 0 {
    } else if s[0] == '\n' {
        lemma_line_split_len(s.skip(1));
    } else {
        lemma_line_split_len(s.skip(1));
    }
}

/// Splitting and joining are inverse: joining the lines of `s` gives `s` back.
pub proof fn lemma_join_split(s: Seq<char>)
    ensures
        line_join(line_split(s)) == s,
    decreases s.len(),
{
    if s.len() == 0 {
        assert(line_join(line_split(s)) =~~= s);
    } else if s[0] == '\n' {
        lemma_join_split(s.skip(1));
        lemma_line_split_len(s.skip(1));
        let ls = seq![Seq::<char>::empty()] + line_split(s.skip(1));
        assert(ls.skip(1) =~~= line_split(s.skip(1)));
        assert(line_join(ls) =~~= s);
    } else {
        lemma_join_split(s.skip(1));
        lemma_line_split_len(s.skip(1));
        let rest = line_split(s.skip(1));
        let ls = seq![seq![s[0]] + rest[0]] + rest.skip(1);
        if rest.len() == 1 {
            assert(ls.len() == 1);
            assert(line_join(ls) == seq![s[0]] + rest[0]);
            assert(line_join(rest) == rest[0]);
            assert(line_join(ls) =~~= s);
        } else {
            assert(ls.len() >= 2);
            assert(ls.skip(1) =~~= rest.skip(1));
            assert(line_join(ls) == (seq![s[0]] + rest[0]) + seq!['\n'] + line_join(rest.skip(1)));
            assert(line_join(rest) == rest[0] + seq!['\n'] + line_join(rest.skip(1)));
            assert(line_join(ls) =~~= seq![s[0]] + line_join(rest));
            assert(line_join(ls) =~~= s);
        }
    }
}

/// Extending the text by one character either extends the last line (any
/// other character) or opens a new empty line (a newline).
pub proof fn lemma_line_split_push(s: Seq<char>, c: char)
    ensures
        c == '\n' ==> line_split(s.push(c)) == line_split(s) + seq![Seq::<char>::empty()],
        c != '\n' ==> line_split(s.push(c)) == line_split(s).drop_last().push(
            line_split(s).last().push(c),
        ),
    decreases s.len(),
{
    lemma_line_split_len(s);
    if s.len() == 0 {
        assert(s =~~= Seq::<char>::empty());
        assert(line_split(s) == seq![Seq::<char>::empty()]);
        assert(s.push(c).len() == 1);
        assert(s.push(c)[0] == c);
        assert(s.push(c).skip(1) =~~= Seq::<char>::empty());
        assert(line_split(s.push(c).skip(1)) == seq![Seq::<char>::empty()]);
        if c == '\n' {
            assert(line_split(s.push(c)) == seq![Seq::<char>::empty()] + line_split(
                s.push(c).skip(1),
            ));
            assert(line_split(s.push(c)) =~~= line_split(s) + seq![Seq::<char>::empty()]);
        } else {
            assert(line_split(s.push(c)) == seq![seq![c] + line_split(s.push(c).skip(1))[0]]
                + line_split(s.push(c).skip(1)).skip(1));
            assert(line_split(s.push(c)) =~~= line_split(s).drop_last().push(
                line_split(s).last().push(c),
            ));
        }
    } else {
        lemma_line_split_push(s.skip(1), c);
        lemma_line_split_len(s.skip(1));
        assert(s.push(c).skip(1) =~~= s.skip(1).push(c));
        assert(s.push(c)[0] == s[0]);
        let rest = line_split(s.skip(1));
        let restp = line_split(s.skip(1).push(c));
        if s[0] == '\n' {
            if c == '\n' {
                assert(line_split(s.push(c)) == seq![Seq::<char>::empty()] + restp);
                assert(line_split(s.push(c)) =~~= line_split(s) + seq![Seq::<char>::empty()]);
            } else {
                assert(line_split(s.push(c)) == seq![Seq::<char>::empty()] + restp);
                assert(line_split(s).last() == rest.last());
                assert(line_split(s.push(c)) =~~= line_split(s).drop_last().push(
                    line_split(s).last().push(c),
                ));
            }
        } else {
            if c == '\n' {
                assert(restp == rest + seq![Seq::<char>::empty()]);
                assert(restp[0] == rest[0]);
                assert(line_split(s.push(c)) == seq![seq![s[0]] + restp[0]] + restp.skip(1));
                assert(restp.skip(1) =~~= rest.skip(1) + seq![Seq::<char>::empty()]);
                assert(line_split(s.push(c)) =~~= line_split(s) + seq![Seq::<char>::empty()]);
            } else {
                assert(restp == rest.drop_last().push(rest.last().push(c)));
                if rest.len() == 1 {
                    assert(restp[0] == rest[0].push(c));
                    assert(line_split(s.push(c)) == seq![seq![s[0]] + restp[0]] + restp.skip(1));
                    assert(line_split(s) == seq![seq![s[0]] + rest[0]] + rest.skip(1));
                    assert(line_split(s).len() == 1 + rest.skip(1).len());
                    assert(seq![s[0]] + rest[0].push(c) =~~= (seq![s[0]] + rest[0]).push(c));
                    assert(line_split(s.push(c)) =~~= line_split(s).drop_last().push(
                        line_split(s).last().push(c),
                    ));
                } else {
                    assert(restp[0] == rest[0]);
                    assert(line_split(s.push(c)) == seq![seq![s[0]] + restp[0]] + restp.skip(1));
                    assert(restp.skip(1) =~~= rest.skip(1).drop_last().push(rest.last().push(c)));
                    assert(line_split(s).last() == rest.last());
                    assert(line_split(s.push(c)) =~~= line_split(s).drop_last().push(
                        line_split(s).last().push(c),
                    ));
                }
            }
        }
    }
}

/// Joining one more line appends a newline separator and that line.
pub proof fn lemma_line_join_push(ls: Seq<Seq<char>>, l: Seq<char>)
    ensures
        ls.len() == 0 ==> line_join(ls.push(l)) == l,
        ls.len() > 0 ==> line_join(ls.push(l)) == line_join(ls) + seq!['\n'] + l,
    decreases ls.len(),
{
    if ls.len() == 0 {
        assert(line_join(ls.push(l)) == ls.push(l)[0]);
        assert(ls.push(l)[0] == l);
    } else if ls.len() == 1 {
        assert(ls.push(l).skip(1) =~~= seq![l]);
        assert(line_join(ls.push(l)) == ls[0] + seq!['\n'] + line_join(seq![l]));
        assert(line_join(ls) == ls[0]);
    } else {
        lemma_line_join_push(ls.skip(1), l);
        assert(ls.push(l).skip(1) =~~= ls.skip(1).push(l));
        assert(line_join(ls.push(l)) == ls[0] + seq!['\n'] + line_join(ls.skip(1).push(l)));
        assert(line_join(ls.push(l)) =~~= line_join(ls) + seq!['\n'] + l);
    }
}

/// The deep view of a vector of character vectors.
pub open spec fn lines_view(ls: Seq<Vec<char>>) -> Seq<Seq<char>> {
    ls.map_values(|l: Vec<char>| l@)
}

/// Splits `v` into its lines.
pub fn split_lines(v: &Vec<char>) -> (r: Vec<Vec<char>>)
    ensures
        lines_view(r@) == line_split(v@),
{
    let mut out: Vec<Vec<char>> = Vec::new();
    let mut cur: Vec<char> = Vec::new();
    let mut i: usize = 0;
    while i < v.len()
        invariant
            i <= v@.len(),
            lines_view(out@).push(cur@) == line_split(v@.take(i as int)),
        decreases v@.len() - i,
    {
        proof {
            assert(v@.take(i + 1) =~= v@.take(i as int).push(v@[i as int]));
            lemma_line_split_push(v@.take(i as int), v@[i as int]);
            lemma_line_split_len(v@.take(i as int));
        }
        let c = v[i];
        if c == '\n' {
            out.push(cur);
            cur = Vec::new();
            proof {
                assert(lines_view(out@).push(cur@) =~~= line_split(v@.take(i + 1)));
            }
        } else {
            cur.push(c);
            proof {
                assert(lines_view(out@).push(cur@) =~~= line_split(v@.take(i + 1)));
            }
        }
        i += 1;
    }
    out.push(cur);
    proof {
        assert(v@.take(v@.len() as int) =~= v@);
        assert(lines_view(out@) =~~= line_split(v@));
    }
    out
}

/// Joins lines with newline separators.
pub fn join_lines(ls: &Vec<Vec<char>>) -> (r: Vec<char>)
    ensures
        r@ == line_join(lines_view(ls@)),
{
    let mut out: Vec<char> = Vec::new();
    let mut i: usize = 0;
    while i < ls.len()
        invariant
            i <= ls@.len(),
            out@ == line_join(lines_view(ls@).take(i as int)),
        decreases ls@.len() - i,
    {
        proof {
            assert(lines_view(ls@).take(i + 1) =~~= lines_view(ls@).take(i as int).push(
                ls@[i as int]@,
            ));
            lemma_line_join_push(lines_view(ls@).take(i as int), ls@[i as int]@);
        }
        if i > 0 {
            out.push('\n');
        }
        let mut j: usize = 0;
        let ghost base = out@;
        while j < ls[i].len()
            invariant
                i < ls@.len(),
                j <= ls@[i as int]@.len(),
                out@ == base + ls@[i as int]@.take(j as int),
            decreases ls@[i as int]@.len() - j,
        {
            let c = ls[i][j];
            out.push(c);
            proof {
                assert(base + ls@[i as int]@.take(j + 1) =~= (base + ls@[i as int]@.take(
                    j as int,
                )).push(c));
            }
            j += 1;
        }
        proof {
            assert(ls@[i as int]@.take(ls@[i as int]@.len() as int) =~= ls@[i as int]@);
            if i == 0 {
                assert(lines_view(ls@).take(0int) =~= Seq::<Seq<char>>::empty());
                assert(out@ =~= line_join(lines_view(ls@).take(i + 1)));
            } else {
                assert(out@ =~= line_join(lines_view(ls@).take(i + 1)));
            }
        }
        i += 1;
    }
    proof {
        assert(lines_view(ls@).take(ls@.len() as int) =~~= lines_view(ls@));
    }
    out
}

/// The number of occurrences of character `c` in `s`.
pub open spec fn count_char(s: Seq<char>, c: char) -> nat
    decreases s.len(),
{
    if s.len() == 0 {
        0
    } else {
        count_char(s.drop_last(), c) + if s.last() == c {
            1nat
        } else {
            0nat
        }
    }
}

/// Counts the occurrences of `c` in `v`.
pub fn count_char_in(v: &Vec<char>, c: char) -> (r: usize)
    ensures
        r == count_char(v@, c),
        r <= v@.len(),
{
    let mut i: usize = 0;
    let mut cnt: usize = 0;
    while i < v.len()
        invariant
            i <= v@.len(),
            cnt == count_char(v@.take(i as int), c),
            cnt <= i,
        decreases v@.len() - i,
    {
        proof {
            assert(v@.take(i + 1).drop_last() =~= v@.take(i as int));
            assert(v@.take(i + 1).last() == v@[i as int]);
        }
        if v[i] == c {
            cnt += 1;
        }
        i += 1;
    }
    proof {
        assert(v@.take(v@.len() as int) =~= v@);
    }
    cnt
}

pub proof fn lemma_count_char_skip(s: Seq<char>, c: char)
    requires
        s.len() > 0,
    ensures
        count_char(s, c) == count_char(s.skip(1), c) + if s[0] == c {
            1nat
        } else {
            0nat
        },
    decreases s.len(),
{
    if s.len() == 1 {
        assert(s.skip(1) =~= Seq::<char>::empty());
        assert(s.drop_last() =~= Seq::<char>::empty());
        assert(s.last() == s[0]);
    } else {
        lemma_count_char_skip(s.drop_last(), c);
        assert(s.drop_last().skip(1) =~= s.skip(1).drop_last());
        assert(s.drop_last()[0] == s[0]);
        assert(s.skip(1).last() == s.last());
        assert(s.skip(1).len() > 0);
        assert(count_char(s.skip(1), c) == count_char(s.skip(1).drop_last(), c) + if s.skip(
            1,
        ).last() == c {
            1nat
        } else {
            0nat
        });
    }
}

/// The number of lines is one more than the number of newline characters.
pub proof fn lemma_line_split_count(s: Seq<char>)
    ensures
        line_split(s).len() == count_char(s, '\n') + 1,
    decreases s.len(),
{
    if s.len() == 0 {
    } else {
        lemma_line_split_count(s.skip(1));
        lemma_count_char_skip(s, '\n');
        lemma_line_split_len(s.skip(1));
    }
}

/// A prefix has at most as many occurrences of `c`.
pub proof fn lemma_count_char_take(s: Seq<char>, c: char, k: int)
    requires
        0 <= k <= s.len(),
    ensures
        count_char(s.take(k), c) <= count_char(s, c),
    decreases s.len(),
{
    if k == s.len() {
        assert(s.take(k) =~= s);
    } else {
        assert(s.drop_last().take(k) =~= s.take(k));
        lemma_count_char_take(s.drop_last(), c, k);
    }
}

/// Copies the lines `v[a..b]`.
pub fn subrange_lines(v: &Vec<Vec<char>>, a: usize, b: usize) -> (r: Vec<Vec<char>>)
    requires
        a <= b <= v@.len(),
    ensures
        lines_view(r@) == lines_view(v@).subrange(a as int, b as int),
{
    let mut out: Vec<Vec<char>> = Vec::new();
    proof {
        assert(lines_view(out@) =~~= lines_view(v@).subrange(a as int, a as int));
    }
    let mut i: usize = a;
    while i < b
        invariant
            a <= i <= b <= v@.len(),
            lines_view(out@) == lines_view(v@).subrange(a as int, i as int),
        decreases b - i,
    {
        let l = v[i].clone();
        proof {
            assert forall|j: int| 0 <= j < l@.len() implies l@[j] == v@[i as int]@[j] by {
                assert(cloned::<char>(v@[i as int]@[j], l@[j]));
            }
            assert(l@ =~= v@[i as int]@);
            assert(lines_view(out@.push(l)) =~~= lines_view(out@).push(l@));
            assert(lines_view(v@).subrange(a as int, i + 1) =~~= lines_view(v@).subrange(
                a as int,
                i as int,
            ).push(lines_view(v@)[i as int]));
            assert(lines_view(out@.push(l)) =~~= lines_view(v@).subrange(a as int, i + 1));
        }
        out.push(l);
        i += 1;
    }
    out
}

/// A sequence holds at most its length in occurrences of `c`.
pub proof fn lemma_count_char_le(s: Seq<char>, c: char)
    ensures
        count_char(s, c) <= s.len(),
    decreases s.len(),
{
    if s.len() > 0 {
        lemma_count_char_le(s.drop_last(), c);
    }
}

/// Appends copies of the lines of `src` to `out`.
pub fn append_lines(out: &mut Vec<Vec<char>>, src: &Vec<Vec<char>>)
    ensures
        lines_view(final(out)@) == lines_view(old(out)@) + lines_view(src@),
{
    let mut i: usize = 0;
    proof {
        assert(lines_view(out@) =~~= lines_view(old(out)@) + lines_view(src@).take(0int));
    }
    while i < src.len()
        invariant
            i <= src@.len(),
            lines_view(out@) == lines_view(old(out)@) + lines_view(src@).take(i as int),
        decreases src@.len() - i,
    {
        let l = src[i].clone();
        proof {
            assert forall|j: int| 0 <= j < l@.len() implies l@[j] == src@[i as int]@[j] by {
                assert(cloned::<char>(src@[i as int]@[j], l@[j]));
            }
            assert(l@ =~= src@[i as int]@);
            assert(lines_view(out@.push(l)) =~~= lines_view(out@).push(l@));
            assert(lines_view(src@).take(i + 1) =~~= lines_view(src@).take(i as int).push(l@));
            assert(lines_view(out@.push(l)) =~~= lines_view(old(out)@) + lines_view(src@).take(
                i + 1,
            ));
        }
        out.push(l);
        i += 1;
    }
    proof {
        assert(lines_view(src@).take(src@.len() as int) =~~= lines_view(src@));
    }
}

/// Four spaces: the expansion of one tab character.
pub open spec fn tab_spaces() -> Seq<char> {
    seq![' ', ' ', ' ', ' ']
}

/// Expanding tabs grows the text by at most a factor of four.
pub proof fn lemma_expand_tabs_len(s: Seq<char>)
    ensures
        expand_tabs_spec(s).len() <= 4 * s.len(),
    decreases s.len(),
{
    if s.len() == 0 {
    } else {
        lemma_expand_tabs_len(s.drop_last());
    }
}

/// `s` with every tab character replaced by four spaces.
pub open spec fn expand_tabs_spec(s: Seq<char>) -> Seq<char>
    decreases s.len(),
{
    if s.len() == 0 {
        Seq::empty()
    } else {
        expand_tabs_spec(s.drop_last()) + if s.last() == '\t' {
            tab_spaces()
        } else {
            seq![s.last()]
        }
    }
}

/// Replaces every tab in `v` by four spaces.
pub fn expand_tabs(v: &Vec<char>) -> (r: Vec<char>)
    ensures
        r@ == expand_tabs_spec(v@),
{
    let mut out: Vec<char> = Vec::new();
    let mut i: usize = 0;
    while i < v.len()
        invariant
            i <= v@.len(),
            out@ == expand_tabs_spec(v@.take(i as int)),
        decreases v@.len() - i,
    {
        proof {
            assert(v@.take(i + 1).drop_last() =~= v@.take(i as int));
            assert(v@.take(i + 1).last() == v@[i as int]);
        }
        if v[i] == '\t' {
            out.push(' ');
            out.push(' ');
            out.push(' ');
            out.push(' ');
            proof {
                assert(out@ =~= expand_tabs_spec(v@.take(i + 1)));
            }
        } else {
            let c = v[i];
            out.push(c);
            proof {
                assert(out@ =~= expand_tabs_spec(v@.take(i + 1)));
            }
        }
        i += 1;
    }
    proof {
        assert(v@.take(v@.len() as int) =~= v@);
    }
    out
}

/// Whitespace for the purposes of trimming.
pub open spec fn is_space(c: char) -> bool {
    c == ' ' || c == '\t' || c == '\n' || c == '\r'
}

/// `s` without leading whitespace.
pub open spec fn trim_start_spec(s: Seq<char>) -> Seq<char>
    decreases s.len(),
{
    if s.len() > 0 && is_space(s[0]) {
        trim_start_spec(s.skip(1))
    } else {
        s
    }
}

/// `s` without trailing whitespace.
pub open spec fn trim_end_spec(s: Seq<char>) -> Seq<char>
    decreases s.len(),
{
    if s.len() > 0 && is_space(s.last()) {
        trim_end_spec(s.drop_last())
    } else {
        s
    }
}

/// `s` without leading or trailing whitespace.
pub open spec fn trim_spec(s: Seq<char>) -> Seq<char> {
    trim_end_spec(trim_start_spec(s))
}

fn is_space_char(c: char) -> (r: bool)
    ensures
        r == is_space(c),
{
    c == ' ' || c == '\t' || c == '\n' || c == '\r'
}

/// Removes leading and trailing whitespace.
#[verifier::rlimit(50)]
pub fn trim_chars(v: &Vec<char>) -> (r: Vec<char>)
    ensures
        r@ == trim_spec(v@),
{
    proof {
        assert(v@.skip(0int) =~= v@);
    }
    let mut a: usize = 0;
    while a < v.len() && is_space_char(v[a])
        invariant
            a <= v@.len(),
            trim_start_spec(v@) == trim_start_spec(v@.skip(a as int)),
        decreases v@.len() - a,
    {
        proof {
            assert(v@.skip(a as int)[0] == v@[a as int]);
            assert(v@.skip(a as int).skip(1) =~= v@.skip(a + 1));
        }
        a += 1;
    }
    proof {
        assert(v@.skip(v@.len() as int).len() == 0);
        if a < v@.len() {
            assert(v@.skip(a as int)[0] == v@[a as int]);
        }
        assert(trim_start_spec(v@.skip(a as int)) == v@.skip(a as int));
    }
    let ghost s1 = v@.skip(a as int);
    proof {
        assert(v@.subrange(a as int, v@.len() as int) =~= s1);
    }
    let mut b: usize = v.len();
    while b > a && is_space_char(v[b - 1])
        invariant
            a <= b <= v@.len(),
            s1 == v@.skip(a as int),
            trim_end_spec(s1) == trim_end_spec(v@.subrange(a as int, b as int)),
        decreases b,
    {
        proof {
            let cur = v@.subrange(a as int, b as int);
            assert(cur.last() == v@[b - 1]);
            assert(cur.drop_last() =~= v@.subrange(a as int, b - 1));
        }
        b -= 1;
    }
    proof {
        let cur = v@.subrange(a as int, b as int);
        if b > a {
            assert(cur.last() == v@[b - 1]);
        }
        assert(trim_end_spec(cur) == cur);
    }
    let mut out: Vec<char> = Vec::new();
    let mut i: usize = a;
    while i < b
        invariant
            a <= i <= b <= v@.len(),
            out@ == v@.subrange(a as int, i as int),
        decreases b - i,
    {
        let c = v[i];
        out.push(c);
        proof {
            assert(v@.subrange(a as int, i + 1) =~= v@.subrange(a as int, i as int).push(
                v@[i as int],
            ));
        }
        i += 1;
    }
    proof {
        assert(v@.subrange(a as int, a as int) =~= s1.subrange(0, 0));
        assert(out@ == trim_spec(v@));
    }
    out
}

/// Lexicographic order on character sequences, by code point.
pub open spec fn lex_le(a: Seq<char>, b: Seq<char>) -> bool
    decreases a.len(),
{
    if a.len() == 0 {
        true
    } else if b.len() == 0 {
        false
    } else if a[0] != b[0] {
        (a[0] as int) < (b[0] as int)
    } else {
        lex_le(a.skip(1), b.skip(1))
    }
}

/// The order is total: two sequences are always comparable.
pub proof fn lemma_lex_total(a: Seq<char>, b: Seq<char>)
    ensures
        lex_le(a, b) || lex_le(b, a),
    decreases a.len(),
{
    if a.len() == 0 || b.len() == 0 {
    } else if a[0] != b[0] {
    } else {
        lemma_lex_total(a.skip(1), b.skip(1));
    }
}

/// Compares two character vectors lexicographically.
pub fn lex_le_chars(a: &Vec<char>, b: &Vec<char>) -> (r: bool)
    ensures
        r == lex_le(a@, b@),
{
    proof {
        assert(a@.skip(0int) =~= a@);
        assert(b@.skip(0int) =~= b@);
    }
    let mut i: usize = 0;
    while i < a.len() && i < b.len()
        invariant
            i <= a@.len(),
            i <= b@.len(),
            lex_le(a@, b@) == lex_le(a@.skip(i as int), b@.skip(i as int)),
            forall|k: int| 0 <= k < i ==> a@[k] == b@[k],
        decreases a@.len() - i,
    {
        let ca = a[i];
        let cb = b[i];
        proof {
            assert(a@.skip(i as int)[0] == a@[i as int]);
            assert(b@.skip(i as int)[0] == b@[i as int]);
            assert(a@.skip(i as int).skip(1) =~= a@.skip(i + 1));
            assert(b@.skip(i as int).skip(1) =~= b@.skip(i + 1));
        }
        if ca != cb {
            return ca < cb;
        }
        i += 1;
    }
    proof {
        assert(a@.skip(i as int).len() == a@.len() - i);
        assert(b@.skip(i as int).len() == b@.len() - i);
    }
    a.len() <= b.len()
}

/// Adjacent pairs are in lexicographic order.
pub open spec fn sorted_lex(ls: Seq<Seq<char>>) -> bool {
    forall|i: int| 0 <= i && i + 1 < ls.len() ==> lex_le(#[trigger] ls[i], ls[i + 1])
}

/// Sorts lines lexicographically (insertion sort); keeps the multiset of
/// lines.
pub fn sort_lines(v: Vec<Vec<char>>) -> (r: Vec<Vec<char>>)
    ensures
        sorted_lex(lines_view(r@)),
        lines_view(r@).to_multiset() == lines_view(v@).to_multiset(),
{
    broadcast use vstd::seq_lib::to_multiset_insert;
    broadcast use vstd::seq_lib::group_to_multiset_ensures;

    let mut out: Vec<Vec<char>> = Vec::new();
    let mut i: usize = 0;
    proof {
        assert(lines_view(v@.take(0int)) =~= Seq::<Seq<char>>::empty());
        assert(lines_view(out@) =~= Seq::<Seq<char>>::empty());
    }
    while i < v.len()
        invariant
            i <= v@.len(),
            sorted_lex(lines_view(out@)),
            lines_view(out@).to_multiset() == lines_view(v@.take(i as int)).to_multiset(),
        decreases v@.len() - i,
    {
        broadcast use vstd::seq_lib::to_multiset_insert;
        broadcast use vstd::seq_lib::group_to_multiset_ensures;

        let x = v[i].clone();
        proof {
            assert(x@ == v@[i as int]@);
            assert(lines_view(v@.take(i + 1)) =~= lines_view(v@.take(i as int)).push(
                v@[i as int]@,
            ));
        }
        let mut p: usize = 0;
        while p < out.len() && lex_le_chars(&out[p], &x)
            invariant
                p <= out@.len(),
                forall|k: int| 0 <= k < p ==> lex_le(lines_view(out@)[k], x@),
            decreases out@.len() - p,
        {
            p += 1;
        }
        proof {
            if p < out@.len() {
                lemma_lex_total(out@[p as int]@, x@);
                assert(lex_le(x@, lines_view(out@)[p as int]));
            }
            assert(lines_view(out@.insert(p as int, x)) =~~= lines_view(out@).insert(
                p as int,
                x@,
            ));
        }
        let ghost old_out = out@;
        out.insert(p, x);
        proof {
            assert(out@ == old_out.insert(p as int, x));
            let lo = lines_view(old_out);
            let ln = lines_view(out@);
            assert(ln =~~= lo.insert(p as int, x@));
            assert forall|k: int| 0 <= k && k + 1 < ln.len() implies lex_le(
                #[trigger] ln[k],
                ln[k + 1],
            ) by {
                if k + 1 < p {
                    assert(ln[k] == lo[k] && ln[k + 1] == lo[k + 1]);
                } else if k + 1 == p {
                    assert(ln[k] == lo[k] && ln[k + 1] == x@);
                } else if k == p {
                    assert(ln[k] == x@ && ln[k + 1] == lo[k]);
                } else {
                    assert(ln[k] == lo[k - 1] && ln[k + 1] == lo[k]);
                }
            }
        }
        i += 1;
    }
    proof {
        assert(v@.take(v@.len() as int) =~= v@);
    }
    out
}

/// `n` space characters.
pub open spec fn spaces(n: nat) -> Seq<char>
    decreases n,
{
    if n == 0 {
        Seq::empty()
    } else {
        spaces((n - 1) as nat) + seq![' ']
    }
}

/// `s` left-padded with spaces to width `w` (unchanged if already wider).
pub open spec fn pad_left_spec(s: Seq<char>, w: nat) -> Seq<char> {
    if s.len() >= w {
        s
    } else {
        spaces((w - s.len()) as nat) + s
    }
}

/// Appends `s` left-padded with spaces to width `w`.
pub fn push_padded(out: &mut Vec<char>, s: &Vec<char>, w: usize)
    ensures
        final(out)@ == old(out)@ + pad_left_spec(s@, w as nat),
{
    let ghost base = out@;
    if s.len() < w {
        let k = w - s.len();
        let mut j: usize = 0;
        while j < k
            invariant
                j <= k,
                out@ == base + spaces(j as nat),
            decreases k - j,
        {
            out.push(' ');
            proof {
                assert(base + spaces((j + 1) as nat) =~= (base + spaces(j as nat)).push(' '));
            }
            j += 1;
        }
    }
    let ghost mid = out@;
    let mut j: usize = 0;
    while j < s.len()
        invariant
            j <= s@.len(),
            out@ == mid + s@.take(j as int),
        decreases s@.len() - j,
    {
        let c = s[j];
        out.push(c);
        proof {
            assert(mid + s@.take(j + 1) =~= (mid + s@.take(j as int)).push(c));
        }
        j += 1;
    }
    proof {
        assert(s@.take(s@.len() as int) =~= s@);
        assert(out@ =~= base + pad_left_spec(s@, w as nat));
    }
}

/// Whether `c` is a decimal digit.
pub open spec fn is_digit(c: char) -> bool {
    48 <= (c as int) && (c as int) <= 57
}

fn digit_value(c: char) -> (d: u64)
    requires
        is_digit(c),
    ensures
        d == (c as int) - 48,
{
    if c == '0' {
        0
    } else if c == '1' {
        1
    } else if c == '2' {
        2
    } else if c == '3' {
        3
    } else if c == '4' {
        4
    } else if c == '5' {
        5
    } else if c == '6' {
        6
    } else if c == '7' {
        7
    } else if c == '8' {
        8
    } else {
        9
    }
}

/// The numeric value of a digit string, most significant digit first.
pub open spec fn dec_val(s: Seq<char>) -> nat
    decreases s.len(),
{
    if s.len() == 0 {
        0
    } else {
        dec_val(s.drop_last()) * 10 + ((s.last() as int) - 48) as nat
    }
}

/// Whether every character of `s` is a decimal digit.
pub open spec fn all_digits(s: Seq<char>) -> bool {
    forall|i: int| 0 <= i < s.len() ==> is_digit(#[trigger] s[i])
}

proof fn lemma_dec_val_prefix(s: Seq<char>, i: int)
    requires
        0 <= i <= s.len(),
    ensures
        dec_val(s.take(i)) <= dec_val(s),
    decreases s.len(),
{
    if i == s.len() {
        assert(s.take(i) =~= s);
    } else {
        assert(s.take(s.len() - 1) =~= s.drop_last());
        assert(s.drop_last().take(i) =~= s.take(i));
        lemma_dec_val_prefix(s.drop_last(), i);
    }
}

/// Parses a non-empty all-digit string as a number. Fails exactly on the
/// empty string, on any non-digit character, and on values over `u32::MAX`.
pub fn parse_u32(v: &Vec<char>) -> (r: Option<u32>)
    ensures
        match r {
            Some(n) => v@.len() >= 1 && all_digits(v@) && n == dec_val(v@),
            None => v@.len() == 0 || !all_digits(v@) || dec_val(v@) > u32::MAX,
        },
{
    if v.len() == 0 {
        return None;
    }
    let mut acc: u64 = 0;
    let mut i: usize = 0;
    while i < v.len()
        invariant
            i <= v@.len(),
            acc == dec_val(v@.take(i as int)),
            acc <= u32::MAX,
            all_digits(v@.take(i as int)),
        decreases v@.len() - i,
    {
        let c = v[i];
        proof {
            assert(v@.take(i + 1).drop_last() =~= v@.take(i as int));
            assert(v@.take(i + 1).last() == v@[i as int]);
        }
        if c < '0' || c > '9' {
            proof {
                assert(!is_digit(v@[i as int]));
            }
            return None;
        }
        let d: u64 = digit_value(c);
        acc = acc * 10 + d;
        proof {
            assert(is_digit(v@[i as int]));
            assert forall|k: int| 0 <= k < i + 1 implies is_digit(#[trigger] v@.take(i + 1)[k]) by {
                assert(v@.take(i + 1)[k] == v@[k]);
                if k < i {
                    assert(v@.take(i as int)[k] == v@[k]);
                }
            }
        }
        if acc > 0xffff_ffff {
            proof {
                lemma_dec_val_prefix(v@, i + 1);
            }
            return None;
        }
        i += 1;
    }
    proof {
        assert(v@.take(v@.len() as int) =~= v@);
    }
    Some(acc as u32)
}

/// The characters of a string, as a vector.
pub fn str_to_chars(s: &str) -> (r: Vec<char>)
    ensures
        r@ == s@,
{
    broadcast use vstd::string::next_postcondition;
    broadcast use vstd::string::axiom_spec_iter;

    let mut out: Vec<char> = Vec::new();
    let mut it = s.chars();
    proof {
        assert(it.remaining() == s@);
    }
    loop
        invariant
            out@ + it.remaining() == s@,
            it.decrease() is Some,
        decreases it.decrease()->0,
    {
        match it.next() {
            Some(c) => {
                out.push(c);
                proof {
                    assert(out@ + it.remaining() =~= s@);
                }
            },
            None => {
                proof {
                    assert(out@ =~= s@);
                }
                return out;
            },
        }
    }
}

/// Relies on `String: FromIterator<char>` (via `Iterator::collect`): the
/// collected string consists of exactly the iterated characters in order.
#[verifier::external_body]
pub(crate) fn chars_to_string(v: &Vec<char>) -> (r: String)
    ensures
        r@ == v@,
{
    v.iter().collect()
}

/// Appends every character of `s` to `out`.
pub fn push_str_chars(out: &mut Vec<char>, s: &str)
    ensures
        final(out)@ == old(out)@ + s@,
{
    let v = str_to_chars(s);
    push_chars(out, &v);
}

/// Appends every character of `s` to `out`.
pub fn push_chars(out: &mut Vec<char>, s: &Vec<char>)
    ensures
        final(out)@ == old(out)@ + s@,
{
    let mut i: usize = 0;
    while i < s.len()
        invariant
            i <= s@.len(),
            out@ == old(out)@ + s@.take(i as int),
        decreases s@.len() - i,
    {
        let c = s[i];
        out.push(c);
        proof {
            assert(old(out)@ + s@.take(i + 1) =~= (old(out)@ + s@.take(i as int)).push(c));
        }
        i += 1;
    }
    proof {
        assert(s@.take(s@.len() as int) =~= s@);
    }
}

/// Whether two character vectors hold the same characters.
pub fn chars_equal(a: &Vec<char>, b: &Vec<char>) -> (r: bool)
    ensures
        r == (a@ == b@),
{
    if a.len() != b.len() {
        return false;
    }
    let mut i: usize = 0;
    while i < a.len()
        invariant
            a@.len() == b@.len(),
            i <= a@.len(),
            forall|k: int| 0 <= k < i ==> a@[k] == b@[k],
        decreases a@.len() - i,
    {
        if a[i] != b[i] {
            return false;
        }
        i += 1;
    }
    proof {
        assert(a@ =~= b@);
    }
    true
}

} // verus!
