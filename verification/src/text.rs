//! Verified building blocks for text handling: trimming, substring search,
//! replacement, word removal and decimal formatting, all over `Vec<char>`
//! values whose views are `Seq<char>`.

use vstd::prelude::*;

verus! {

/// The whitespace characters that delimit words in post text.
pub open spec fn is_space_char(c: char) -> bool {
    c == ' ' || c == '\n' || c == '\t' || c == '\r'
}

pub fn is_space(c: char) -> (r: bool)
    ensures
        r == is_space_char(c),
{
    c == ' ' || c == '\n' || c == '\t' || c == '\r'
}

pub open spec fn trim_start_spec(s: Seq<char>) -> Seq<char>
    decreases s.len(),
{
    if s.len() == 0 {
        s
    } else if is_space_char(s[0]) {
        trim_start_spec(s.drop_first())
    } else {
        s
    }
}

pub open spec fn trim_end_spec(s: Seq<char>) -> Seq<char>
    decreases s.len(),
{
    if s.len() == 0 {
        s
    } else if is_space_char(s.last()) {
        trim_end_spec(s.drop_last())
    } else {
        s
    }
}

/// The text with leading and trailing whitespace removed.
pub open spec fn trim_spec(s: Seq<char>) -> Seq<char> {
    trim_end_spec(trim_start_spec(s))
}

/// The text with its trailing run of non-whitespace characters removed.
pub open spec fn tail_word_removed(s: Seq<char>) -> Seq<char>
    decreases s.len(),
{
    if s.len() == 0 {
        s
    } else if !is_space_char(s.last()) {
        tail_word_removed(s.drop_last())
    } else {
        s
    }
}

/// One shortening step: the last word goes, and so does the whitespace
/// before it.
pub open spec fn drop_word_spec(s: Seq<char>) -> Seq<char> {
    trim_spec(tail_word_removed(s))
}

pub open spec fn starts_with_spec(s: Seq<char>, p: Seq<char>) -> bool {
    p.len() <= s.len() && s.take(p.len() as int) == p
}

pub open spec fn match_at_spec(s: Seq<char>, i: int, p: Seq<char>) -> bool {
    0 <= i && i + p.len() <= s.len() && s.subrange(i, i + p.len()) == p
}

pub open spec fn contains_spec(s: Seq<char>, p: Seq<char>) -> bool {
    exists|i: int| match_at_spec(s, i, p)
}

/// Every occurrence of `from` replaced by `to`, scanning left to right over
/// the original text only, the way `str::replace` does it.
pub open spec fn replace_all_spec(s: Seq<char>, from: Seq<char>, to: Seq<char>) -> Seq<char>
    decreases s.len(),
{
    if from.len() == 0 {
        s
    } else if s.len() < from.len() {
        s
    } else if s.take(from.len() as int) == from {
        to + replace_all_spec(s.skip(from.len() as int), from, to)
    } else {
        seq![s[0]] + replace_all_spec(s.drop_first(), from, to)
    }
}

pub open spec fn dec_digit(d: int) -> char {
    if d == 0 {
        '0'
    } else if d == 1 {
        '1'
    } else if d == 2 {
        '2'
    } else if d == 3 {
        '3'
    } else if d == 4 {
        '4'
    } else if d == 5 {
        '5'
    } else if d == 6 {
        '6'
    } else if d == 7 {
        '7'
    } else if d == 8 {
        '8'
    } else {
        '9'
    }
}

/// The decimal digits of a number, most significant first.
pub open spec fn dec_str_spec(n: nat) -> Seq<char>
    decreases n,
{
    if n < 10 {
        seq![dec_digit(n as int)]
    } else {
        dec_str_spec(n / 10) + seq![dec_digit(n as int % 10)]
    }
}

pub proof fn lemma_trim_start(s: Seq<char>)
    ensures
        trim_start_spec(s).len() <= s.len(),
        trim_start_spec(s).len() > 0 ==> !is_space_char(trim_start_spec(s)[0]),
        trim_start_spec(s).len() == s.len() ==> trim_start_spec(s) == s,
    decreases s.len(),
{
    if s.len() > 0 && is_space_char(s[0]) {
        lemma_trim_start(s.drop_first());
    }
}

pub proof fn lemma_trim_end(s: Seq<char>)
    ensures
        trim_end_spec(s).len() <= s.len(),
        trim_end_spec(s).len() > 0 ==> !is_space_char(trim_end_spec(s).last()),
        trim_end_spec(s) == s.take(trim_end_spec(s).len() as int),
    decreases s.len(),
{
    if s.len() > 0 && is_space_char(s.last()) {
        lemma_trim_end(s.drop_last());
        assert(s.drop_last().take(trim_end_spec(s).len() as int) =~= s.take(
            trim_end_spec(s).len() as int,
        ));
    } else if s.len() > 0 {
        assert(s.take(s.len() as int) =~= s);
    }
}

/// A text that is empty or free of whitespace at both ends trims to itself.
pub proof fn lemma_trim_noop(s: Seq<char>)
    requires
        s.len() == 0 || (!is_space_char(s[0]) && !is_space_char(s.last())),
    ensures
        trim_spec(s) == s,
{
    if s.len() == 0 {
        assert(trim_start_spec(s) == s);
    } else {
        assert(trim_start_spec(s) == s);
        assert(trim_end_spec(s) == s);
    }
}

pub proof fn lemma_trim_props(s: Seq<char>)
    ensures
        trim_spec(s).len() <= s.len(),
        trim_spec(s).len() > 0 ==> !is_space_char(trim_spec(s)[0]) && !is_space_char(
            trim_spec(s).last(),
        ),
        trim_spec(trim_spec(s)) == trim_spec(s),
{
    let t1 = trim_start_spec(s);
    let t = trim_end_spec(t1);
    lemma_trim_start(s);
    lemma_trim_end(t1);
    if t.len() > 0 {
        assert(t[0] == t1[0]);
    }
    lemma_trim_noop(t);
}

pub proof fn lemma_tail_word_removed(s: Seq<char>)
    ensures
        tail_word_removed(s).len() <= s.len(),
        s.len() > 0 && !is_space_char(s.last()) ==> tail_word_removed(s).len() < s.len(),
    decreases s.len(),
{
    if s.len() > 0 && !is_space_char(s.last()) {
        lemma_tail_word_removed(s.drop_last());
    }
}

/// Removing the last word of a non-empty text makes it strictly shorter.
pub proof fn lemma_drop_word_strict(s: Seq<char>)
    requires
        s.len() > 0,
    ensures
        drop_word_spec(s).len() < s.len(),
{
    lemma_tail_word_removed(s);
    let r = tail_word_removed(s);
    lemma_trim_props(r);
    if is_space_char(s.last()) {
        assert(r == s);
        lemma_trim_start(s);
        let t1 = trim_start_spec(s);
        lemma_trim_end(t1);
        if t1.len() == s.len() {
            assert(t1 == s);
            assert(trim_end_spec(t1).len() < t1.len());
        }
    }
}

pub fn seq_eq(a: &Vec<char>, b: &Vec<char>) -> (r: bool)
    ensures
        r == (a@ == b@),
{
    if a.len() != b.len() {
        assert(a@.len() != b@.len());
        return false;
    }
    let n: usize = a.len();
    let mut i: usize = 0;
    while i < n
        invariant
            i <= n,
            n == a@.len() == b@.len(),
            forall|k: int| 0 <= k < i ==> a@[k] == b@[k],
        decreases n - i,
    {
        if a[i] != b[i] {
            return false;
        }
        i += 1;
    }
    proof {
        assert(a@ =~= b@);
    }
    true
}

pub fn match_at(v: &Vec<char>, i: usize, pat: &Vec<char>) -> (r: bool)
    requires
        i + pat@.len() <= v@.len(),
    ensures
        r == match_at_spec(v@, i as int, pat@),
{
    let n: usize = v.len();
    let m: usize = pat.len();
    let mut j: usize = 0;
    while j < m
        invariant
            j <= m,
            n == v@.len(),
            m == pat@.len(),
            i + m <= n,
            forall|k: int| 0 <= k < j ==> v@[i + k] == pat@[k],
        decreases m - j,
    {
        if v[i + j] != pat[j] {
            assert(v@.subrange(i as int, i + m) != pat@) by {
                assert(v@.subrange(i as int, i + m)[j as int] == v@[i + j]);
            }
            return false;
        }
        j += 1;
    }
    proof {
        assert(v@.subrange(i as int, i + m) =~= pat@);
    }
    true
}

pub fn starts_with_chars(v: &Vec<char>, pat: &Vec<char>) -> (r: bool)
    ensures
        r == starts_with_spec(v@, pat@),
{
    if pat.len() > v.len() {
        return false;
    }
    let r = match_at(v, 0, pat);
    proof {
        assert(v@.subrange(0, pat@.len() as int) == v@.take(pat@.len() as int));
    }
    r
}

pub fn contains_chars(v: &Vec<char>, pat: &Vec<char>) -> (r: bool)
    ensures
        r == contains_spec(v@, pat@),
{
    let n: usize = v.len();
    let m: usize = pat.len();
    if m > n {
        proof {
            assert(!contains_spec(v@, pat@)) by {
                assert(forall|i: int| !match_at_spec(v@, i, pat@));
            }
        }
        return false;
    }
    if m == 0 {
        proof {
            assert(v@.subrange(0, 0) =~= pat@);
            assert(match_at_spec(v@, 0, pat@));
        }
        return true;
    }
    let mut i: usize = 0;
    while i <= n - m
        invariant
            0 < m <= n,
            n == v@.len(),
            m == pat@.len(),
            i <= n - m + 1,
            forall|k: int| 0 <= k < i ==> !match_at_spec(v@, k, pat@),
        decreases n - m + 1 - i,
    {
        if match_at(v, i, pat) {
            return true;
        }
        i += 1;
    }
    proof {
        assert(forall|k: int| match_at_spec(v@, k, pat@) ==> 0 <= k && k + m <= n);
        assert(!contains_spec(v@, pat@));
    }
    false
}

pub fn trim_chars(v: &Vec<char>) -> (r: Vec<char>)
    ensures
        r@ == trim_spec(v@),
{
    let n: usize = v.len();
    proof {
        assert(v@.skip(0) =~= v@);
    }
    let mut a: usize = 0;
    while a < n && is_space(v[a])
        invariant
            a <= n,
            n == v@.len(),
            trim_start_spec(v@) == trim_start_spec(v@.skip(a as int)),
        decreases n - a,
    {
        proof {
            assert(v@.skip(a as int).drop_first() =~= v@.skip(a + 1));
        }
        a += 1;
    }
    proof {
        if a < n {
            assert(trim_start_spec(v@.skip(a as int)) == v@.skip(a as int));
        } else {
            assert(v@.skip(a as int) =~= Seq::<char>::empty());
        }
    }
    let mut b: usize = n;
    while b > a && is_space(v[b - 1])
        invariant
            a <= b <= n,
            n == v@.len(),
            trim_start_spec(v@) == v@.skip(a as int),
            trim_end_spec(v@.skip(a as int)) == trim_end_spec(v@.subrange(a as int, b as int)),
        decreases b,
    {
        proof {
            let cur = v@.subrange(a as int, b as int);
            assert(cur.last() == v@[b - 1]);
            assert(cur.drop_last() =~= v@.subrange(a as int, b - 1));
        }
        b -= 1;
    }
    proof {
        let cur = v@.subrange(a as int, b as int);
        if b > a {
            assert(cur.last() == v@[b - 1]);
            assert(trim_end_spec(cur) == cur);
        } else {
            assert(cur =~= Seq::<char>::empty());
        }
        assert(v@.skip(a as int) =~= v@.subrange(a as int, n as int));
    }
    let mut out: Vec<char> = Vec::new();
    let mut i: usize = a;
    while i < b
        invariant
            a <= i <= b <= n,
            n == v@.len(),
            out@ =~= v@.subrange(a as int, i as int),
        decreases b - i,
    {
        out.push(v[i]);
        i += 1;
    }
    proof {
        assert(out@ =~= v@.subrange(a as int, b as int));
    }
    out
}

/// Removes the trailing word and any whitespace left before it.
pub fn drop_last_word(v: &Vec<char>) -> (r: Vec<char>)
    ensures
        r@ == drop_word_spec(v@),
{
    let n: usize = v.len();
    proof {
        assert(v@.take(n as int) =~= v@);
    }
    let mut b: usize = n;
    while b > 0 && !is_space(v[b - 1])
        invariant
            b <= n,
            n == v@.len(),
            tail_word_removed(v@) == tail_word_removed(v@.take(b as int)),
        decreases b,
    {
        proof {
            let cur = v@.take(b as int);
            assert(cur.last() == v@[b - 1]);
            assert(cur.drop_last() =~= v@.take(b - 1));
        }
        b -= 1;
    }
    proof {
        let cur = v@.take(b as int);
        if b > 0 {
            assert(cur.last() == v@[b - 1]);
            assert(tail_word_removed(cur) == cur);
        } else {
            assert(cur =~= Seq::<char>::empty());
            assert(tail_word_removed(cur) == cur);
        }
    }
    let mut head: Vec<char> = Vec::new();
    let mut i: usize = 0;
    while i < b
        invariant
            i <= b <= n,
            n == v@.len(),
            head@ =~= v@.take(b as int).take(i as int),
        decreases b - i,
    {
        proof {
            assert(v@.take(b as int)[i as int] == v@[i as int]);
        }
        head.push(v[i]);
        i += 1;
    }
    proof {
        assert(head@ =~= v@.take(b as int));
    }
    trim_chars(&head)
}

/// Appends all of `v` to `out`.
pub fn push_all(out: &mut Vec<char>, v: &Vec<char>)
    ensures
        final(out)@ == old(out)@ + v@,
{
    let n: usize = v.len();
    let mut i: usize = 0;
    while i < n
        invariant
            i <= n,
            n == v@.len(),
            out@ =~= old(out)@ + v@.take(i as int),
        decreases n - i,
    {
        out.push(v[i]);
        i += 1;
    }
    proof {
        assert(old(out)@ + v@.take(n as int) =~= old(out)@ + v@);
    }
}

/// The tail of `v` from position `i` on.
pub fn tail_from(v: &Vec<char>, i: usize) -> (r: Vec<char>)
    requires
        i <= v@.len(),
    ensures
        r@ == v@.skip(i as int),
{
    let n: usize = v.len();
    let mut out: Vec<char> = Vec::new();
    let mut j: usize = i;
    while j < n
        invariant
            i <= j <= n,
            n == v@.len(),
            out@ =~= v@.subrange(i as int, j as int),
        decreases n - j,
    {
        out.push(v[j]);
        j += 1;
    }
    proof {
        assert(out@ =~= v@.skip(i as int));
    }
    out
}

pub fn replace_all(v: &Vec<char>, from: &Vec<char>, to: &Vec<char>) -> (r: Vec<char>)
    ensures
        r@ == replace_all_spec(v@, from@, to@),
{
    let n: usize = v.len();
    let m: usize = from.len();
    if m == 0 {
        return tail_from(v, 0);
    }
    let mut out: Vec<char> = Vec::new();
    proof {
        assert(v@.skip(0) =~= v@);
    }
    let mut i: usize = 0;
    while i < n && n - i >= m
        invariant
            i <= n,
            n == v@.len(),
            m == from@.len(),
            m > 0,
            replace_all_spec(v@, from@, to@) == out@ + replace_all_spec(
                v@.skip(i as int),
                from@,
                to@,
            ),
        decreases n - i,
    {
        let ghost rest = v@.skip(i as int);
        let ghost out_prev = out@;
        if match_at(v, i, from) {
            proof {
                assert(rest.take(m as int) =~= v@.subrange(i as int, i + m));
                assert(rest.skip(m as int) =~= v@.skip(i + m));
                assert(replace_all_spec(rest, from@, to@) == to@ + replace_all_spec(
                    v@.skip(i + m),
                    from@,
                    to@,
                ));
                assert((out_prev + to@) + replace_all_spec(v@.skip(i + m), from@, to@) =~= out_prev
                    + (to@ + replace_all_spec(v@.skip(i + m), from@, to@)));
            }
            push_all(&mut out, to);
            i += m;
        } else {
            proof {
                assert(rest.take(m as int) =~= v@.subrange(i as int, i + m));
                assert(rest[0] == v@[i as int]);
                assert(rest.drop_first() =~= v@.skip(i + 1));
                assert(replace_all_spec(rest, from@, to@) == seq![v@[i as int]]
                    + replace_all_spec(v@.skip(i + 1), from@, to@));
                assert((out_prev + seq![v@[i as int]]) + replace_all_spec(
                    v@.skip(i + 1),
                    from@,
                    to@,
                ) =~= out_prev + (seq![v@[i as int]] + replace_all_spec(v@.skip(i + 1), from@, to@)));
            }
            let c = v[i];
            out.push(c);
            proof {
                assert(out@ =~= out_prev + seq![v@[i as int]]);
            }
            i += 1;
        }
    }
    let ghost tail = v@.skip(i as int);
    proof {
        assert(tail.len() < m || tail.len() == 0);
        assert(replace_all_spec(tail, from@, to@) == tail);
    }
    let mut j: usize = i;
    while j < n
        invariant
            i <= j <= n,
            n == v@.len(),
            out@ =~= old_prefix(v@, from@, to@, i as int) + v@.subrange(i as int, j as int),
        decreases n - j,
    {
        out.push(v[j]);
        proof {
            assert(old_prefix(v@, from@, to@, i as int) + v@.subrange(i as int, j + 1) =~= (
            old_prefix(v@, from@, to@, i as int) + v@.subrange(i as int, j as int)).push(
                v@[j as int],
            ));
        }
        j += 1;
    }
    proof {
        assert(v@.subrange(i as int, n as int) =~= v@.skip(i as int));
        assert(out@ =~= old_prefix(v@, from@, to@, i as int) + v@.skip(i as int));
        assert(out@ =~= replace_all_spec(v@, from@, to@));
    }
    out
}

/// The part of the replacement already emitted once the scan stands at `i`.
pub open spec fn old_prefix(v: Seq<char>, from: Seq<char>, to: Seq<char>, i: int) -> Seq<char> {
    replace_all_spec(v, from, to).subrange(
        0,
        replace_all_spec(v, from, to).len() - v.skip(i).len(),
    )
}

/// Removes every occurrence of `from` from the text.
pub fn remove_all(v: &Vec<char>, from: &Vec<char>) -> (r: Vec<char>)
    ensures
        r@ == replace_all_spec(v@, from@, Seq::<char>::empty()),
{
    let empty: Vec<char> = Vec::new();
    let r = replace_all(v, from, &empty);
    proof {
        assert(empty@ =~= Seq::<char>::empty());
    }
    r
}

/// The decimal digits of `n`, most significant first.
pub fn u64_chars(n: u64) -> (r: Vec<char>)
    ensures
        r@ == dec_str_spec(n as nat),
    decreases n,
{
    let d: u64 = n % 10;
    let c: char = if d == 0 {
        '0'
    } else if d == 1 {
        '1'
    } else if d == 2 {
        '2'
    } else if d == 3 {
        '3'
    } else if d == 4 {
        '4'
    } else if d == 5 {
        '5'
    } else if d == 6 {
        '6'
    } else if d == 7 {
        '7'
    } else if d == 8 {
        '8'
    } else {
        '9'
    };
    if n < 10 {
        let mut out: Vec<char> = Vec::new();
        out.push(c);
        proof {
            assert(out@ =~= seq![dec_digit(n as int)]);
        }
        out
    } else {
        let mut out = u64_chars(n / 10);
        out.push(c);
        proof {
            assert(out@ =~= dec_str_spec(n as nat / 10) + seq![dec_digit(n as int % 10)]);
        }
        out
    }
}

} // verus!
