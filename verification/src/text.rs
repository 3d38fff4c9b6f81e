use vstd::prelude::*;

verus! {

/// Appends one character to a string by calling `String::push`; the contract
/// claims that the string's characters become the old ones followed by `c`.
#[verifier::external_body]
pub(crate) fn push_char(s: &mut String, c: char)
    ensures
        final(s)@ == old(s)@.push(c),
{
    s.push(c);
}

/// The characters of a string slice, in order.
pub fn chars_of(s: &str) -> (v: Vec<char>)
    ensures
        v@ == s@,
{
    let mut v: Vec<char> = Vec::new();
    for c in it: s.chars()
        invariant
            v@ == it.seq().take(it.index() as int),
            it.seq() == s@,
    {
        v.push(c);
    }
    v
}

/// A string holding exactly the given characters.
pub fn string_of(v: &Vec<char>) -> (s: String)
    ensures
        s@ == v@,
{
    let mut s = String::new();
    let mut i: usize = 0;
    while i < v.len()
        invariant
            i <= v.len(),
            s@ == v@.take(i as int),
        decreases v.len() - i,
    {
        push_char(&mut s, v[i]);
        assert(v@.take(i + 1) =~= v@.take(i as int).push(v@[i as int]));
        i += 1;
    }
    assert(v@.take(v.len() as int) =~= v@);
    s
}

} // verus!

verus! {

/// Whether a character has the Unicode `White_Space` property, which is what
/// `char::is_whitespace` tests.
pub open spec fn is_ws(c: char) -> bool {
    let u = c as u32;
    (0x9 <= u && u <= 0xd) || u == 0x20 || u == 0x85 || u == 0xa0 || u == 0x1680 || (0x2000 <= u
        && u <= 0x200a) || u == 0x2028 || u == 0x2029 || u == 0x202f || u == 0x205f || u == 0x3000
}

/// `s` with its leading whitespace removed.
pub open spec fn trim_start(s: Seq<char>) -> Seq<char>
    decreases s.len(),
{
    if s.len() > 0 && is_ws(s[0]) {
        trim_start(s.drop_first())
    } else {
        s
    }
}

/// `s` with its trailing whitespace removed.
pub open spec fn trim_end(s: Seq<char>) -> Seq<char>
    decreases s.len(),
{
    if s.len() > 0 && is_ws(s.last()) {
        trim_end(s.drop_last())
    } else {
        s
    }
}

/// `s` with whitespace removed at both ends.
pub open spec fn trim(s: Seq<char>) -> Seq<char> {
    trim_end(trim_start(s))
}

/// Whether `s` holds only whitespace.
pub open spec fn is_blank(s: Seq<char>) -> bool {
    forall|i: int| 0 <= i < s.len() ==> is_ws(#[trigger] s[i])
}

pub fn char_is_ws(c: char) -> (b: bool)
    ensures
        b == is_ws(c),
{
    let u = c as u32;
    (0x9 <= u && u <= 0xd) || u == 0x20 || u == 0x85 || u == 0xa0 || u == 0x1680 || (0x2000 <= u
        && u <= 0x200a) || u == 0x2028 || u == 0x2029 || u == 0x202f || u == 0x205f || u == 0x3000
}

proof fn lemma_trim_start_skip(s: Seq<char>, i: int)
    requires
        0 <= i <= s.len(),
        forall|j: int| 0 <= j < i ==> is_ws(#[trigger] s[j]),
    ensures
        trim_start(s) == trim_start(s.skip(i)),
    decreases i,
{
    if i > 0 {
        lemma_trim_start_skip(s.drop_first(), i - 1);
        assert(s.drop_first().skip(i - 1) =~= s.skip(i));
    } else {
        assert(s.skip(0) =~= s);
    }
}

proof fn lemma_trim_end_take(s: Seq<char>, i: int)
    requires
        0 <= i <= s.len(),
        forall|j: int| i <= j < s.len() ==> is_ws(#[trigger] s[j]),
    ensures
        trim_end(s) == trim_end(s.take(i)),
    decreases s.len() - i,
{
    if i < s.len() {
        lemma_trim_end_take(s.drop_last(), i);
        assert(s.drop_last().take(i) =~= s.take(i));
    } else {
        assert(s.take(i) =~= s);
    }
}

/// The index of the first non-whitespace character of `v`, or its length.
fn first_non_ws(v: &Vec<char>) -> (i: usize)
    ensures
        i <= v.len(),
        trim_start(v@) == v@.skip(i as int),
        forall|j: int| 0 <= j < i ==> is_ws(#[trigger] v@[j]),
{
    let mut i: usize = 0;
    while i < v.len() && char_is_ws(v[i])
        invariant
            i <= v.len(),
            forall|j: int| 0 <= j < i ==> is_ws(#[trigger] v@[j]),
        decreases v.len() - i,
    {
        i += 1;
    }
    proof {
        lemma_trim_start_skip(v@, i as int);
    }
    i
}

/// One past the index of the last non-whitespace character of `v` at or after `lo`, or `lo`.
fn end_non_ws(v: &Vec<char>, lo: usize) -> (i: usize)
    requires
        lo <= v.len(),
    ensures
        lo <= i <= v.len(),
        trim_end(v@) == trim_end(v@.take(i as int)),
        i > lo ==> !is_ws(v@[i - 1]),
        forall|j: int| i <= j < v.len() ==> is_ws(#[trigger] v@[j]),
{
    let mut i: usize = v.len();
    while i > lo && char_is_ws(v[i - 1])
        invariant
            lo <= i <= v.len(),
            forall|j: int| i <= j < v.len() ==> is_ws(#[trigger] v@[j]),
        decreases i,
    {
        i -= 1;
    }
    proof {
        lemma_trim_end_take(v@, i as int);
    }
    i
}

/// The characters of `v` from `lo` up to `hi`.
pub fn slice_chars(v: &Vec<char>, lo: usize, hi: usize) -> (r: Vec<char>)
    requires
        lo <= hi <= v.len(),
    ensures
        r@ == v@.subrange(lo as int, hi as int),
{
    let mut r: Vec<char> = Vec::new();
    let mut i: usize = lo;
    while i < hi
        invariant
            lo <= i <= hi,
            hi <= v.len(),
            r@ == v@.subrange(lo as int, i as int),
        decreases hi - i,
    {
        r.push(v[i]);
        assert(v@.subrange(lo as int, i + 1) =~= v@.subrange(lo as int, i as int).push(v@[i as int]));
        i += 1;
    }
    r
}

proof fn lemma_trim_end_of_nonws_last(s: Seq<char>)
    requires
        s.len() == 0 || !is_ws(s.last()),
    ensures
        trim_end(s) == s,
{
}

/// `str::trim_end`.
pub fn trim_end_chars(v: &Vec<char>) -> (r: Vec<char>)
    ensures
        r@ == trim_end(v@),
{
    let j = end_non_ws(v, 0);
    let r = slice_chars(v, 0, j);
    proof {
        assert(v@.subrange(0, j as int) =~= v@.take(j as int));
        lemma_trim_end_of_nonws_last(v@.take(j as int));
    }
    r
}

/// `str::trim`.
pub fn trim_chars(v: &Vec<char>) -> (r: Vec<char>)
    ensures
        r@ == trim(v@),
{
    let i = first_non_ws(v);
    let j = end_non_ws(v, i);
    let r = slice_chars(v, i, j);
    proof {
        let t = v@.skip(i as int);
        assert(forall|k: int| 0 <= k < t.len() ==> t[k] == v@[i + k]);
        lemma_trim_end_take(t, j - i);
        assert(t.take(j - i) =~= v@.subrange(i as int, j as int));
        if j > i {
            lemma_trim_end_of_nonws_last(v@.subrange(i as int, j as int));
        }
    }
    r
}

} // verus!

verus! {

/// The number of characters of `s` before the first one that `p` holds of.
pub open spec fn seg_len(s: Seq<char>, p: spec_fn(char) -> bool) -> nat
    decreases s.len(),
{
    if s.len() == 0 || p(s[0]) {
        0
    } else {
        1 + seg_len(s.drop_first(), p)
    }
}

/// The pieces of `s` between the characters that `p` holds of (`str::split`
/// with a predicate): there is always one more piece than separators.
pub open spec fn split_by(s: Seq<char>, p: spec_fn(char) -> bool) -> Seq<Seq<char>>
    decreases s.len(),
{
    let k = seg_len(s, p);
    if k >= s.len() {
        seq![s]
    } else {
        seq![s.take(k as int)] + split_by(s.skip(k + 1int), p)
    }
}

/// The predicate "is this character".
pub open spec fn is_char(c: char) -> spec_fn(char) -> bool {
    |x: char| x == c
}

/// `str::split` on one character.
pub open spec fn split(s: Seq<char>, c: char) -> Seq<Seq<char>> {
    split_by(s, is_char(c))
}

/// The pieces that are not empty.
pub open spec fn non_empty(ps: Seq<Seq<char>>) -> Seq<Seq<char>>
    decreases ps.len(),
{
    if ps.len() == 0 {
        ps
    } else if ps[0].len() == 0 {
        non_empty(ps.drop_first())
    } else {
        seq![ps[0]] + non_empty(ps.drop_first())
    }
}

/// `str::split_whitespace`: the maximal runs of non-whitespace characters.
pub open spec fn words(s: Seq<char>) -> Seq<Seq<char>> {
    non_empty(split_by(s, |x: char| is_ws(x)))
}

proof fn lemma_seg_len_bound(s: Seq<char>, p: spec_fn(char) -> bool)
    ensures
        seg_len(s, p) <= s.len(),
        seg_len(s, p) < s.len() ==> p(s[seg_len(s, p) as int]),
        forall|j: int| 0 <= j < seg_len(s, p) ==> !p(#[trigger] s[j]),
    decreases s.len(),
{
    if s.len() > 0 && !p(s[0]) {
        lemma_seg_len_bound(s.drop_first(), p);
        assert forall|j: int| 0 <= j < seg_len(s, p) implies !p(#[trigger] s[j]) by {
            if j > 0 {
                assert(s[j] == s.drop_first()[j - 1]);
            }
        }
    }
}

proof fn lemma_seg_len_concat(a: Seq<char>, b: Seq<char>, p: spec_fn(char) -> bool)
    requires
        forall|j: int| 0 <= j < a.len() ==> !p(#[trigger] a[j]),
    ensures
        seg_len(a + b, p) == a.len() + seg_len(b, p),
    decreases a.len(),
{
    if a.len() > 0 {
        assert((a + b).drop_first() =~= a.drop_first() + b);
        assert(!p(a[0]));
        assert((a + b)[0] == a[0]);
        lemma_seg_len_concat(a.drop_first(), b, p);
    } else {
        assert(a + b =~= b);
    }
}

/// Splitting a piece free of separators followed by a separator.
proof fn lemma_split_at_sep(cur: Seq<char>, rest: Seq<char>, p: spec_fn(char) -> bool)
    requires
        forall|j: int| 0 <= j < cur.len() ==> !p(#[trigger] cur[j]),
        rest.len() > 0,
        p(rest[0]),
    ensures
        split_by(cur + rest, p) == seq![cur] + split_by(rest.skip(1), p),
{
    lemma_seg_len_concat(cur, rest, p);
    assert(seg_len(rest, p) == 0);
    assert((cur + rest).take(cur.len() as int) =~= cur);
    assert((cur + rest).skip(cur.len() + 1int) =~= rest.skip(1));
}

/// Splitting a piece free of separators.
proof fn lemma_split_last(cur: Seq<char>, p: spec_fn(char) -> bool)
    requires
        forall|j: int| 0 <= j < cur.len() ==> !p(#[trigger] cur[j]),
    ensures
        split_by(cur, p) == seq![cur],
{
    lemma_seg_len_concat(cur, Seq::empty(), p);
    assert(cur + Seq::<char>::empty() =~= cur);
}

/// `str::split` on one character.
pub fn split_chars(v: &Vec<char>, c: char) -> (r: Vec<Vec<char>>)
    ensures
        r@.len() == split(v@, c).len(),
        forall|i: int| 0 <= i < r@.len() ==> #[trigger] r@[i]@ == split(v@, c)[i],
{
    let ghost p = is_char(c);
    let mut done: Vec<Vec<char>> = Vec::new();
    let mut cur: Vec<char> = Vec::new();
    let mut i: usize = 0;
    let ghost dv: Seq<Seq<char>> = Seq::empty();
    proof {
        assert(cur@ + v@.skip(0) =~= v@);
        assert(dv + split_by(v@, p) =~= split_by(v@, p));
    }
    while i < v.len()
        invariant
            i <= v.len(),
            p == is_char(c),
            done@.len() == dv.len(),
            forall|k: int| 0 <= k < dv.len() ==> #[trigger] done@[k]@ == dv[k],
            forall|j: int| 0 <= j < cur@.len() ==> !p(#[trigger] cur@[j]),
            split_by(v@, p) == dv + split_by(cur@ + v@.skip(i as int), p),
        decreases v.len() - i,
    {
        let ch = v[i];
        proof {
            let rest = v@.skip(i as int);
            assert(rest[0] == ch);
            if ch == c {
                lemma_split_at_sep(cur@, rest, p);
                assert(rest.skip(1) =~= v@.skip(i + 1));
                assert(Seq::<char>::empty() + v@.skip(i + 1) =~= v@.skip(i + 1));
            } else {
                assert(cur@ + rest =~= cur@.push(ch) + v@.skip(i + 1));
            }
        }
        if ch == c {
            let piece = cur;
            proof {
                dv = dv.push(piece@);
            }
            done.push(piece);
            cur = Vec::new();
        } else {
            cur.push(ch);
        }
        i += 1;
    }
    proof {
        assert(v@.skip(i as int) =~= Seq::<char>::empty());
        assert(cur@ + v@.skip(i as int) =~= cur@);
        lemma_split_last(cur@, p);
        dv = dv.push(cur@);
    }
    done.push(cur);
    proof {
        assert(split(v@, c) =~= dv);
    }
    done
}

/// `str::split_whitespace`.
pub fn words_chars(v: &Vec<char>) -> (r: Vec<Vec<char>>)
    ensures
        r@.len() == words(v@).len(),
        forall|i: int| 0 <= i < r@.len() ==> #[trigger] r@[i]@ == words(v@)[i],
{
    let ghost p = |x: char| is_ws(x);
    let mut done: Vec<Vec<char>> = Vec::new();
    let mut cur: Vec<char> = Vec::new();
    let mut i: usize = 0;
    let ghost dv: Seq<Seq<char>> = Seq::empty();
    proof {
        assert(cur@ + v@.skip(0) =~= v@);
        assert(dv + words(v@) =~= words(v@));
    }
    while i < v.len()
        invariant
            i <= v.len(),
            p == (|x: char| is_ws(x)),
            done@.len() == dv.len(),
            forall|k: int| 0 <= k < dv.len() ==> #[trigger] done@[k]@ == dv[k],
            forall|j: int| 0 <= j < cur@.len() ==> !p(#[trigger] cur@[j]),
            words(v@) == dv + non_empty(split_by(cur@ + v@.skip(i as int), p)),
        decreases v.len() - i,
    {
        let ch = v[i];
        let sep = char_is_ws(ch);
        proof {
            let rest = v@.skip(i as int);
            assert(rest[0] == ch);
            if sep {
                lemma_split_at_sep(cur@, rest, p);
                assert(rest.skip(1) =~= v@.skip(i + 1));
                assert(Seq::<char>::empty() + v@.skip(i + 1) =~= v@.skip(i + 1));
                let tail = split_by(rest.skip(1), p);
                assert((seq![cur@] + tail).drop_first() =~= tail);
                if cur@.len() > 0 {
                    assert(dv + (seq![cur@] + non_empty(tail)) =~= dv.push(cur@) + non_empty(tail));
                }
            } else {
                assert(cur@ + rest =~= cur@.push(ch) + v@.skip(i + 1));
            }
        }
        if sep {
            if cur.len() > 0 {
                let piece = cur;
                proof {
                    dv = dv.push(piece@);
                }
                done.push(piece);
            }
            cur = Vec::new();
        } else {
            cur.push(ch);
        }
        i += 1;
    }
    proof {
        assert(v@.skip(i as int) =~= Seq::<char>::empty());
        assert(cur@ + v@.skip(i as int) =~= cur@);
        lemma_split_last(cur@, p);
        let one = seq![cur@];
        assert(one.drop_first() =~= Seq::<Seq<char>>::empty());
        assert(non_empty(one.drop_first()) =~= Seq::<Seq<char>>::empty());
        if cur@.len() > 0 {
            assert(non_empty(one) =~= one);
            dv = dv.push(cur@);
        } else {
            assert(non_empty(one) =~= Seq::<Seq<char>>::empty());
        }
    }
    if cur.len() > 0 {
        done.push(cur);
    }
    proof {
        assert(words(v@) =~= dv);
    }
    done
}

} // verus!

verus! {

/// A line without its final carriage return, if it has one.
pub open spec fn strip_cr(l: Seq<char>) -> Seq<char> {
    if l.len() > 0 && l.last() == '\r' {
        l.drop_last()
    } else {
        l
    }
}

/// `str::lines`: the pieces between newlines, a `\r` before a newline dropped,
/// and no empty piece after a final newline.
pub open spec fn lines(s: Seq<char>) -> Seq<Seq<char>> {
    let parts = split(s, '\n');
    let init = parts.drop_last().map_values(|l: Seq<char>| strip_cr(l));
    if parts.last().len() == 0 {
        init
    } else {
        init.push(parts.last())
    }
}

/// The pieces joined with `sep` between each two (`[T]::join`).
pub open spec fn join(ps: Seq<Seq<char>>, sep: Seq<char>) -> Seq<char>
    decreases ps.len(),
{
    if ps.len() == 0 {
        Seq::empty()
    } else if ps.len() == 1 {
        ps[0]
    } else {
        join(ps.drop_last(), sep) + sep + ps.last()
    }
}

/// Whether `pat` occurs in `s` (`str::contains`).
pub open spec fn has_substr(s: Seq<char>, pat: Seq<char>) -> bool {
    exists|i: int| 0 <= i && i + pat.len() <= s.len() && #[trigger] s.subrange(i, i + pat.len()) == pat
}

/// Whether `s` begins with `p` (`str::starts_with`).
pub open spec fn starts_with(s: Seq<char>, p: Seq<char>) -> bool {
    p.len() <= s.len() && s.take(p.len() as int) == p
}

pub fn strip_cr_chars(l: Vec<char>) -> (r: Vec<char>)
    ensures
        r@ == strip_cr(l@),
{
    let mut l = l;
    if l.len() > 0 && l[l.len() - 1] == '\r' {
        l.pop();
    }
    l
}

/// `str::lines`.
pub fn lines_chars(v: &Vec<char>) -> (r: Vec<Vec<char>>)
    ensures
        r@.len() == lines(v@).len(),
        forall|i: int| 0 <= i < r@.len() ==> #[trigger] r@[i]@ == lines(v@)[i],
{
    let parts = split_chars(v, '\n');
    let ghost ps = split(v@, '\n');
    let n = parts.len();
    assert(n > 0) by {
        assert(split(v@, '\n') == split_by(v@, is_char('\n')));
    }
    let mut r: Vec<Vec<char>> = Vec::new();
    let mut parts = parts;
    let last = parts.pop().unwrap();
    assert(last@ == ps.last());
    let mut i: usize = 0;
    while i < n - 1
        invariant
            n == ps.len(),
            n > 0,
            i <= n - 1,
            parts@.len() == n - 1,
            forall|k: int| 0 <= k < n - 1 ==> #[trigger] parts@[k]@ == ps[k],
            r@.len() == i,
            forall|k: int| 0 <= k < i ==> #[trigger] r@[k]@ == strip_cr(ps[k]),
        decreases n - 1 - i,
    {
        let l = strip_cr_chars(parts[i].clone());
        r.push(l);
        i += 1;
    }
    if last.len() > 0 {
        r.push(last);
    }
    proof {
        let init = ps.drop_last().map_values(|l: Seq<char>| strip_cr(l));
        assert(init.len() == n - 1);
        assert forall|k: int| 0 <= k < n - 1 implies #[trigger] r@[k]@ == init[k] by {}
    }
    r
}

/// `[T]::join`.
pub fn join_chars(ps: &Vec<Vec<char>>, sep: &Vec<char>) -> (r: Vec<char>)
    ensures
        r@ == join(ps@.map_values(|p: Vec<char>| p@), sep@),
{
    let ghost pv = ps@.map_values(|p: Vec<char>| p@);
    let mut r: Vec<char> = Vec::new();
    let mut i: usize = 0;
    while i < ps.len()
        invariant
            i <= ps.len(),
            pv == ps@.map_values(|p: Vec<char>| p@),
            r@ == join(pv.take(i as int), sep@),
        decreases ps.len() - i,
    {
        assert(pv.take(i + 1).drop_last() =~= pv.take(i as int));
        if i > 0 {
            r.extend_from_slice(sep.as_slice());
        }
        r.extend_from_slice(ps[i].as_slice());
        i += 1;
    }
    assert(pv.take(ps.len() as int) =~= pv);
    r
}

/// Whether `p` is a prefix of `s`.
pub fn starts_with_chars(s: &Vec<char>, p: &Vec<char>) -> (b: bool)
    ensures
        b == starts_with(s@, p@),
{
    if p.len() > s.len() {
        return false;
    }
    let mut i: usize = 0;
    while i < p.len()
        invariant
            i <= p.len(),
            p.len() <= s.len(),
            forall|k: int| 0 <= k < i ==> s@[k] == p@[k],
        decreases p.len() - i,
    {
        if s[i] != p[i] {
            assert(s@.take(p.len() as int)[i as int] != p@[i as int]);
            return false;
        }
        i += 1;
    }
    assert(s@.take(p.len() as int) =~= p@);
    true
}

/// Whether `pat` matches `s` at position `at`.
fn matches_at(s: &Vec<char>, pat: &Vec<char>, at: usize) -> (b: bool)
    requires
        at + pat.len() <= s.len(),
    ensures
        b == (s@.subrange(at as int, at + pat.len()) == pat@),
{
    let mut i: usize = 0;
    while i < pat.len()
        invariant
            i <= pat.len(),
            at + pat.len() <= s.len(),
            forall|k: int| 0 <= k < i ==> s@[at + k] == pat@[k],
        decreases pat.len() - i,
    {
        if s[at + i] != pat[i] {
            assert(s@.subrange(at as int, at + pat.len())[i as int] != pat@[i as int]);
            return false;
        }
        i += 1;
    }
    assert(s@.subrange(at as int, at + pat.len()) =~= pat@);
    true
}

/// Whether `pat` occurs in `s`.
pub fn contains_chars(s: &Vec<char>, pat: &Vec<char>) -> (b: bool)
    ensures
        b == has_substr(s@, pat@),
{
    if pat.len() > s.len() {
        return false;
    }
    let last = s.len() - pat.len();
    let mut at: usize = 0;
    loop
        invariant
            pat.len() <= s.len(),
            last == s.len() - pat.len(),
            at <= last,
            forall|k: int| 0 <= k < at ==> #[trigger] s@.subrange(k, k + pat.len()) != pat@,
        decreases last - at,
    {
        if matches_at(s, pat, at) {
            return true;
        }
        if at == last {
            return false;
        }
        at += 1;
    }
}

} // verus!

verus! {

/// Whether `c` is an ASCII digit.
pub open spec fn is_digit(c: char) -> bool {
    48 <= (c as u32) && (c as u32) <= 57
}

/// The digit character for `d < 10`.
pub open spec fn digit_char(d: nat) -> char {
    (48 + d) as char
}

/// The decimal numeral of `n`, as `to_string` writes an unsigned integer.
pub open spec fn decimal(n: nat) -> Seq<char>
    decreases n,
{
    if n < 10 {
        seq![digit_char(n)]
    } else {
        decimal(n / 10).push(digit_char(n % 10))
    }
}

/// The value of a string of ASCII digits.
pub open spec fn digits_value(s: Seq<char>) -> nat
    decreases s.len(),
{
    if s.len() == 0 {
        0
    } else {
        digits_value(s.drop_last()) * 10 + ((s.last() as u32) - 48) as nat
    }
}

/// `s` without one leading `+`.
pub open spec fn unsigned_digits(s: Seq<char>) -> Seq<char> {
    if s.len() > 0 && s[0] == '+' {
        s.drop_first()
    } else {
        s
    }
}

/// What `str::parse` gives for an unsigned integer type whose largest value is
/// `max`: an optional `+`, then one or more ASCII digits whose value is at most
/// `max`; anything else is an error.
pub open spec fn parse_unsigned(s: Seq<char>, max: nat) -> Option<nat> {
    let d = unsigned_digits(s);
    if d.len() > 0 && (forall|i: int| 0 <= i < d.len() ==> is_digit(#[trigger] d[i]))
        && digits_value(d) <= max {
        Some(digits_value(d))
    } else {
        None
    }
}

fn digit_to_char(d: u64) -> (c: char)
    requires
        d < 10,
    ensures
        c == digit_char(d as nat),
        is_digit(c),
{
    let b: u8 = 48u8 + (d as u8);
    let c = b as char;
    assert(c as u32 == 48 + d);
    c
}

/// The decimal numeral of `n`.
pub fn decimal_chars(n: u64) -> (r: Vec<char>)
    ensures
        r@ == decimal(n as nat),
    decreases n,
{
    if n < 10 {
        let mut r: Vec<char> = Vec::new();
        r.push(digit_to_char(n));
        assert(r@ =~= seq![digit_char(n as nat)]);
        r
    } else {
        let mut r = decimal_chars(n / 10);
        r.push(digit_to_char(n % 10));
        r
    }
}

proof fn lemma_digits_value_prefix(s: Seq<char>, i: int)
    requires
        0 <= i <= s.len(),
        forall|k: int| 0 <= k < s.len() ==> is_digit(#[trigger] s[k]),
    ensures
        digits_value(s.take(i)) <= digits_value(s),
    decreases s.len() - i,
{
    if i < s.len() {
        lemma_digits_value_prefix(s.drop_last(), i);
        assert(s.drop_last().take(i) =~= s.take(i));
    } else {
        assert(s.take(i) =~= s);
    }
}

/// Why `str::parse` refused an unsigned integer (`std::num::IntErrorKind`).
#[derive(Debug, Clone, Copy, PartialEq, Eq)]
pub enum IntErrorKind {
    Empty,
    InvalidDigit,
    PosOverflow,
}

/// The length of the run of digits at the start of `d`.
pub open spec fn digit_run(d: Seq<char>) -> nat {
    seg_len(d, |c: char| !is_digit(c))
}

/// Which error `str::parse` reports when `parse_unsigned(s, max)` fails: it reads
/// the digits in order and stops at the first one that is not a digit or that
/// takes the value past `max`.
pub open spec fn parse_error_kind(s: Seq<char>, max: nat) -> IntErrorKind {
    let d = unsigned_digits(s);
    let i = digit_run(d);
    if s.len() == 0 {
        IntErrorKind::Empty
    } else if d.len() == 0 {
        IntErrorKind::InvalidDigit
    } else if i < d.len() && digits_value(d.take(i as int)) <= max {
        IntErrorKind::InvalidDigit
    } else {
        IntErrorKind::PosOverflow
    }
}

/// The text `std::num::ParseIntError` shows for a kind of error.
pub open spec fn int_error_text(k: IntErrorKind) -> Seq<char> {
    match k {
        IntErrorKind::Empty => "cannot parse integer from empty string"@,
        IntErrorKind::InvalidDigit => "invalid digit found in string"@,
        IntErrorKind::PosOverflow => "number too large to fit in target type"@,
    }
}

pub fn int_error_message(k: IntErrorKind) -> (s: String)
    ensures
        s@ == int_error_text(k),
{
    match k {
        IntErrorKind::Empty => String::from_str("cannot parse integer from empty string"),
        IntErrorKind::InvalidDigit => String::from_str("invalid digit found in string"),
        IntErrorKind::PosOverflow => String::from_str("number too large to fit in target type"),
    }
}

proof fn lemma_digit_run_at(d: Seq<char>, i: int)
    requires
        0 <= i < d.len(),
        forall|k: int| 0 <= k < i ==> is_digit(#[trigger] d[k]),
        !is_digit(d[i]),
    ensures
        digit_run(d) == i,
{
    let p = |c: char| !is_digit(c);
    assert(d =~= d.take(i) + d.skip(i));
    lemma_seg_len_concat(d.take(i), d.skip(i), p);
    assert(d.skip(i)[0] == d[i]);
}

/// `str::parse` for an unsigned integer type whose largest value is `max`.
pub fn parse_unsigned_chars(s: &Vec<char>, max: u64) -> (r: Result<u64, IntErrorKind>)
    ensures
        match parse_unsigned(s@, max as nat) {
            Some(v) => r == Ok::<u64, IntErrorKind>(v as u64),
            None => r == Err::<u64, IntErrorKind>(parse_error_kind(s@, max as nat)),
        },
{
    if s.len() == 0 {
        return Err(IntErrorKind::Empty);
    }
    let start: usize = if s[0] == '+' { 1 } else { 0 };
    let ghost d = unsigned_digits(s@);
    assert(d =~= s@.skip(start as int));
    if start >= s.len() {
        return Err(IntErrorKind::InvalidDigit);
    }
    let mut acc: u64 = 0;
    let mut j: usize = start;
    while j < s.len()
        invariant
            start <= j <= s.len(),
            start < s.len(),
            d == s@.skip(start as int),
            d == unsigned_digits(s@),
            forall|k: int| 0 <= k < j - start ==> is_digit(#[trigger] d[k]),
            acc as nat == digits_value(d.take(j - start)),
            acc <= max,
        decreases s.len() - j,
    {
        assert(s@[j as int] == d[j - start]);
        let u = s[j] as u32;
        if !(48 <= u && u <= 57) {
            proof {
                lemma_digit_run_at(d, j - start);
            }
            return Err(IntErrorKind::InvalidDigit);
        }
        let dig = (u - 48) as u64;
        assert(d.take(j - start + 1).drop_last() =~= d.take(j - start));
        assert(d.take(j - start + 1).last() == s@[j as int]);
        if dig > max || acc > (max - dig) / 10 {
            proof {
                if dig <= max {
                    assert(acc * 10 + dig > max) by (nonlinear_arith)
                        requires
                            acc > (max - dig) / 10,
                            dig <= max,
                    ;
                }
                let t = d.take(j - start + 1);
                assert(digits_value(t) > max);
                if digit_run(d) < d.len() {
                    let i = digit_run(d) as int;
                    lemma_seg_len_bound(d, |c: char| !is_digit(c));
                    if i <= j - start {
                        assert(is_digit(d[i]));
                    }
                    assert(d.take(i).take(j - start + 1) =~= t);
                    lemma_digits_value_prefix(d.take(i), j - start + 1);
                }
                if forall|k: int| 0 <= k < d.len() ==> is_digit(#[trigger] d[k]) {
                    lemma_digits_value_prefix(d, j - start + 1);
                }
            }
            return Err(IntErrorKind::PosOverflow);
        }
        assert(acc * 10 + dig <= max) by (nonlinear_arith)
            requires
                acc <= (max - dig) / 10,
                dig <= max,
        ;
        acc = acc * 10 + dig;
        j += 1;
    }
    assert(d.take(d.len() as int) =~= d);
    Ok(acc)
}

} // verus!

verus! {

/// Every character of a decimal numeral is a digit, and the numeral reads back
/// as the number it was written from.
pub proof fn lemma_decimal_digits(n: nat)
    ensures
        decimal(n).len() > 0,
        forall|i: int| 0 <= i < decimal(n).len() ==> is_digit(#[trigger] decimal(n)[i]),
        digits_value(decimal(n)) == n,
    decreases n,
{
    if n >= 10 {
        lemma_decimal_digits(n / 10);
        let d = decimal(n);
        assert(d.drop_last() =~= decimal(n / 10));
        assert((digit_char(n % 10) as u32) == 48 + n % 10);
        assert(d.last() == digit_char(n % 10));
        assert((n / 10) * 10 + n % 10 == n);
        assert forall|i: int| 0 <= i < d.len() implies is_digit(#[trigger] d[i]) by {
            if i < d.len() - 1 {
                assert(d[i] == decimal(n / 10)[i]);
            }
        }
        assert(digits_value(d) == digits_value(d.drop_last()) * 10 + ((d.last() as u32) - 48) as nat);
    } else {
        let d = decimal(n);
        assert(d.drop_last() =~= Seq::<char>::empty());
        assert((digit_char(n) as u32) == 48 + n);
        assert(digits_value(d) == digits_value(d.drop_last()) * 10 + ((d.last() as u32) - 48) as nat);
    }
}

/// Reading a written numeral back gives the number (`n.to_string().parse()`).
pub proof fn lemma_parse_decimal(n: nat, max: nat)
    requires
        n <= max,
    ensures
        parse_unsigned(decimal(n), max) == Some(n),
{
    lemma_decimal_digits(n);
    assert(is_digit(decimal(n)[0]));
    assert(unsigned_digits(decimal(n)) == decimal(n));
}

} // verus!

verus! {

/// Whether two character sequences are equal.
pub fn chars_eq(a: &Vec<char>, b: &Vec<char>) -> (r: bool)
    ensures
        r == (a@ == b@),
{
    if a.len() != b.len() {
        return false;
    }
    let mut i: usize = 0;
    while i < a.len()
        invariant
            i <= a.len(),
            a.len() == b.len(),
            forall|k: int| 0 <= k < i ==> a@[k] == b@[k],
        decreases a.len() - i,
    {
        if a[i] != b[i] {
            return false;
        }
        i += 1;
    }
    assert(a@ =~= b@);
    true
}

/// Whether two strings are equal.
pub fn str_eq(a: &str, b: &str) -> (r: bool)
    ensures
        r == (a@ == b@),
{
    chars_eq(&chars_of(a), &chars_of(b))
}

/// The strings' characters, each taken by its view.
pub open spec fn strings_view(v: Seq<String>) -> Seq<Seq<char>> {
    v.map_values(|s: String| s@)
}

} // verus!

verus! {

/// `seg_len` is the index of the first character that `p` holds of.
pub proof fn lemma_seg_len_at(s: Seq<char>, p: spec_fn(char) -> bool, k: int)
    requires
        0 <= k <= s.len(),
        forall|j: int| 0 <= j < k ==> !p(#[trigger] s[j]),
        k < s.len() ==> p(s[k]),
    ensures
        seg_len(s, p) == k,
{
    assert(s =~= s.take(k) + s.skip(k));
    lemma_seg_len_concat(s.take(k), s.skip(k), p);
    if k < s.len() {
        assert(s.skip(k)[0] == s[k]);
    }
}

/// The index of the first `c` in `v`, or its length (`seg_len` for that character).
pub fn find_char(v: &Vec<char>, c: char) -> (k: usize)
    ensures
        k as nat == seg_len(v@, is_char(c)),
        k <= v.len(),
        k < v.len() ==> v@[k as int] == c,
        forall|j: int| 0 <= j < k ==> #[trigger] v@[j] != c,
{
    let mut k: usize = 0;
    while k < v.len() && v[k] != c
        invariant
            k <= v.len(),
            forall|j: int| 0 <= j < k ==> #[trigger] v@[j] != c,
        decreases v.len() - k,
    {
        k += 1;
    }
    proof {
        lemma_seg_len_at(v@, is_char(c), k as int);
    }
    k
}

/// A string made of the literal pieces.
pub fn strings_of(parts: &[&str]) -> (r: Vec<String>)
    ensures
        strings_view(r@) == parts@.map_values(|p: &str| p@),
{
    let mut r: Vec<String> = Vec::new();
    let mut i: usize = 0;
    while i < parts.len()
        invariant
            i <= parts.len(),
            strings_view(r@) == parts@.take(i as int).map_values(|p: &str| p@),
        decreases parts.len() - i,
    {
        let ghost before = r@;
        r.push(String::from_str(parts[i]));
        assert(strings_view(r@) =~= strings_view(before).push(parts@[i as int]@));
        assert(parts@.take(i + 1).map_values(|p: &str| p@) =~= parts@.take(i as int).map_values(
            |p: &str| p@,
        ).push(parts@[i as int]@));
        i += 1;
    }
    assert(parts@.take(parts.len() as int) =~= parts@);
    r
}

} // verus!

verus! {

/// An optional string, taken by its characters.
pub open spec fn opt_text(o: Option<String>) -> Option<Seq<char>> {
    match o {
        Some(s) => Some(s@),
        None => None,
    }
}

} // verus!

verus! {

/// Appends the characters to a string.
pub fn push_chars(s: &mut String, v: &Vec<char>)
    ensures
        final(s)@ == old(s)@ + v@,
{
    let mut i: usize = 0;
    while i < v.len()
        invariant
            i <= v.len(),
            s@ == old(s)@ + v@.take(i as int),
        decreases v.len() - i,
    {
        push_char(s, v[i]);
        assert(v@.take(i + 1) =~= v@.take(i as int).push(v@[i as int]));
        assert(s@ =~= old(s)@ + v@.take(i + 1));
        i += 1;
    }
    assert(v@.take(v.len() as int) =~= v@);
}

} // verus!

verus! {

/// Splitting at a separator splits the two sides apart.
pub proof fn lemma_split_concat(x: Seq<char>, y: Seq<char>, c: char)
    ensures
        split(x + seq![c] + y, c) == split(x, c) + split(y, c),
    decreases x.len(),
{
    let p = is_char(c);
    let s = x + seq![c] + y;
    lemma_seg_len_bound(x, p);
    let k = seg_len(x, p) as int;
    if k >= x.len() {
        assert(forall|j: int| 0 <= j < x.len() ==> !p(#[trigger] x[j]));
        assert(s =~= x + (seq![c] + y));
        lemma_split_at_sep(x, seq![c] + y, p);
        assert((seq![c] + y).skip(1) =~= y);
        lemma_split_last(x, p);
    } else {
        lemma_seg_len_at(s, p, k);
        lemma_split_concat(x.skip(k + 1), y, c);
        assert(s.take(k) =~= x.take(k));
        assert(s.skip(k + 1) =~= x.skip(k + 1) + seq![c] + y);
        assert(split(s, c) =~= seq![x.take(k)] + split(x.skip(k + 1), c) + split(y, c));
    }
}

/// A piece free of the separator splits into itself.
pub proof fn lemma_split_no_sep(x: Seq<char>, c: char)
    requires
        forall|j: int| 0 <= j < x.len() ==> #[trigger] x[j] != c,
    ensures
        split(x, c) == seq![x],
{
    lemma_split_last(x, is_char(c));
}

/// Joining two non-empty lists of pieces.
pub proof fn lemma_join_concat(xs: Seq<Seq<char>>, ys: Seq<Seq<char>>, sep: Seq<char>)
    requires
        xs.len() > 0,
        ys.len() > 0,
    ensures
        join(xs + ys, sep) == join(xs, sep) + sep + join(ys, sep),
    decreases ys.len(),
{
    let zs = xs + ys;
    assert(zs.last() == ys.last());
    if ys.len() == 1 {
        assert(zs.drop_last() =~= xs);
        assert(join(ys, sep) == ys[0]);
    } else {
        assert(zs.drop_last() =~= xs + ys.drop_last());
        lemma_join_concat(xs, ys.drop_last(), sep);
        assert(join(zs, sep) =~= join(xs, sep) + sep + join(ys, sep));
    }
}

/// Joining what splitting gave gives back the text.
pub proof fn lemma_join_split(s: Seq<char>, c: char)
    ensures
        join(split(s, c), seq![c]) == s,
    decreases s.len(),
{
    let p = is_char(c);
    lemma_seg_len_bound(s, p);
    let k = seg_len(s, p) as int;
    if k < s.len() {
        let rest = s.skip(k + 1);
        lemma_join_split(rest, c);
        let tail = split(rest, c);
        assert(tail.len() > 0) by {
            lemma_split_nonempty(rest, c);
        }
        lemma_join_concat(seq![s.take(k)], tail, seq![c]);
        assert(s =~= s.take(k) + seq![c] + rest);
    }
}

pub proof fn lemma_split_nonempty(s: Seq<char>, c: char)
    ensures
        split(s, c).len() > 0,
{
}

/// The lines before the last piece are the pieces without their final `\r`.
pub proof fn lemma_lines_index(s: Seq<char>, i: int)
    requires
        0 <= i < split(s, '\n').len() - 1,
    ensures
        i < lines(s).len(),
        lines(s)[i] == strip_cr(split(s, '\n')[i]),
{
}

/// A final `\r` does not survive `trim_end` anyway.
pub proof fn lemma_trim_end_strip_cr(x: Seq<char>)
    ensures
        trim_end(strip_cr(x)) == trim_end(x),
{
    if x.len() > 0 && x.last() == '\r' {
        assert(is_ws('\r'));
    }
}

/// Leading whitespace of a text that is not all whitespace lies in its first part.
pub proof fn lemma_trim_start_concat(u: Seq<char>, v: Seq<char>)
    ensures
        !is_blank(u) ==> trim_start(u + v) == trim_start(u) + v,
        is_blank(u) ==> trim_start(u + v) == trim_start(v),
    decreases u.len(),
{
    if u.len() == 0 {
        assert(u + v =~= v);
    } else {
        assert((u + v)[0] == u[0]);
        assert((u + v).drop_first() =~= u.drop_first() + v);
        lemma_trim_start_concat(u.drop_first(), v);
        if is_ws(u[0]) {
            if !is_blank(u) {
                let j = choose|j: int| 0 <= j < u.len() && !is_ws(#[trigger] u[j]);
                assert(u.drop_first()[j - 1] == u[j]);
            } else {
                assert forall|j: int| 0 <= j < u.drop_first().len() implies is_ws(
                    #[trigger] u.drop_first()[j],
                ) by {
                    assert(u.drop_first()[j] == u[j + 1]);
                }
            }
        } else {
            assert(!is_blank(u));
        }
    }
}

/// Trimming ignores a final `\r`.
pub proof fn lemma_trim_strip_cr(x: Seq<char>)
    ensures
        trim(strip_cr(x)) == trim(x),
{
    if x.len() > 0 && x.last() == '\r' {
        let u = x.drop_last();
        assert(x =~= u + seq!['\r']);
        lemma_trim_start_concat(u, seq!['\r']);
        assert(is_ws('\r'));
        if !is_blank(u) {
            let t = trim_start(u);
            assert((t + seq!['\r']).drop_last() =~= t);
        } else {
            lemma_trim_start_concat(u, Seq::<char>::empty());
            assert(u + Seq::<char>::empty() =~= u);
            assert(seq!['\r'].drop_first() =~= Seq::<char>::empty());
        }
    }
}

} // verus!

verus! {

/// Whether `c` does not occur in `s`, checked character by character.
pub open spec fn lacks(s: Seq<char>, c: char) -> bool
    decreases s.len(),
{
    s.len() == 0 || (s[0] != c && lacks(s.drop_first(), c))
}

pub proof fn lemma_lacks(s: Seq<char>, c: char)
    requires
        lacks(s, c),
    ensures
        forall|i: int| 0 <= i < s.len() ==> #[trigger] s[i] != c,
    decreases s.len(),
{
    if s.len() > 0 {
        lemma_lacks(s.drop_first(), c);
        assert forall|i: int| 0 <= i < s.len() implies #[trigger] s[i] != c by {
            if i > 0 {
                assert(s[i] == s.drop_first()[i - 1]);
            }
        }
    }
}

/// A pattern that holds a character which the text lacks does not occur in it.
pub proof fn lemma_no_substr(s: Seq<char>, pat: Seq<char>, q: int)
    requires
        0 <= q < pat.len(),
        forall|i: int| 0 <= i < s.len() ==> #[trigger] s[i] != pat[q],
    ensures
        !has_substr(s, pat),
{
    assert forall|i: int| 0 <= i && i + pat.len() <= s.len() implies #[trigger] s.subrange(
        i,
        i + pat.len(),
    ) != pat by {
        assert(s.subrange(i, i + pat.len())[q] == s[i + q]);
    }
}

/// A pattern found at a known place occurs.
pub proof fn lemma_substr_at(s: Seq<char>, pat: Seq<char>, i: int)
    requires
        0 <= i,
        i + pat.len() <= s.len(),
        s.subrange(i, i + pat.len()) == pat,
    ensures
        has_substr(s, pat),
{
}

/// Splitting at whitespace a word followed by a whitespace character and more.
pub proof fn lemma_first_word(w: Seq<char>, rest: Seq<char>)
    requires
        w.len() > 0,
        forall|i: int| 0 <= i < w.len() ==> !is_ws(#[trigger] w[i]),
        rest.len() > 0,
        is_ws(rest[0]),
    ensures
        words(w + rest).len() > 0,
        words(w + rest)[0] == w,
{
    let p = |x: char| is_ws(x);
    lemma_split_at_sep(w, rest, p);
    let ps = split_by(w + rest, p);
    assert(ps[0] == w);
    assert(non_empty(ps) == seq![w] + non_empty(ps.drop_first()));
}

} // verus!
