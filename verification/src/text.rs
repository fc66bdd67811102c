//! Text operations on strings, each stated over the string's characters.

use vstd::prelude::*;
use vstd::string::*;

verus! {

/// Unicode `White_Space`, the set that `char::is_whitespace` and `str::trim` use.
pub open spec fn is_ws(c: char) -> bool {
    let n = c as u32;
    ||| 0x09 <= n <= 0x0D
    ||| n == 0x20
    ||| n == 0x85
    ||| n == 0xA0
    ||| n == 0x1680
    ||| 0x2000 <= n <= 0x200A
    ||| n == 0x2028
    ||| n == 0x2029
    ||| n == 0x202F
    ||| n == 0x205F
    ||| n == 0x3000
}

/// `s` without its trailing whitespace.
pub open spec fn trimmed_end(s: Seq<char>) -> Seq<char>
    decreases s.len(),
{
    if s.len() > 0 && is_ws(s.last()) {
        trimmed_end(s.drop_last())
    } else {
        s
    }
}

/// `s` without its leading whitespace.
pub open spec fn trimmed_start(s: Seq<char>) -> Seq<char>
    decreases s.len(),
{
    if s.len() > 0 && is_ws(s[0]) {
        trimmed_start(s.drop_first())
    } else {
        s
    }
}

/// `s` without leading and trailing whitespace.
pub open spec fn trimmed(s: Seq<char>) -> Seq<char> {
    trimmed_start(trimmed_end(s))
}

/// Every character of `s` is whitespace.
pub open spec fn all_ws(s: Seq<char>) -> bool {
    forall|i: int| 0 <= i < s.len() ==> is_ws(#[trigger] s[i])
}

proof fn lemma_trimmed_start_empty(t: Seq<char>)
    ensures
        trimmed_start(t).len() == 0 <==> all_ws(t),
    decreases t.len(),
{
    if t.len() > 0 && is_ws(t[0]) {
        lemma_trimmed_start_empty(t.drop_first());
        assert(all_ws(t) <==> all_ws(t.drop_first())) by {
            if all_ws(t.drop_first()) {
                assert forall|i: int| 0 <= i < t.len() implies is_ws(#[trigger] t[i]) by {
                    if i > 0 {
                        assert(t[i] == t.drop_first()[i - 1]);
                    }
                }
            }
            if all_ws(t) {
                assert forall|i: int| 0 <= i < t.drop_first().len() implies is_ws(
                    #[trigger] t.drop_first()[i],
                ) by {
                    assert(t.drop_first()[i] == t[i + 1]);
                }
            }
        }
    } else if t.len() > 0 {
        assert(!is_ws(t[0]));
    }
}

proof fn lemma_trimmed_end_empty(s: Seq<char>)
    ensures
        trimmed_end(s).len() == 0 <==> all_ws(s),
        trimmed_end(s).len() > 0 ==> !is_ws(trimmed_end(s).last()),
    decreases s.len(),
{
    if s.len() > 0 && is_ws(s.last()) {
        lemma_trimmed_end_empty(s.drop_last());
        assert(all_ws(s) <==> all_ws(s.drop_last())) by {
            if all_ws(s.drop_last()) {
                assert forall|i: int| 0 <= i < s.len() implies is_ws(#[trigger] s[i]) by {
                    if i < s.len() - 1 {
                        assert(s[i] == s.drop_last()[i]);
                    }
                }
            }
            if all_ws(s) {
                assert forall|i: int| 0 <= i < s.drop_last().len() implies is_ws(
                    #[trigger] s.drop_last()[i],
                ) by {
                    assert(s.drop_last()[i] == s[i]);
                }
            }
        }
    } else if s.len() > 0 {
        assert(!is_ws(s[s.len() - 1]));
    }
}

/// Trimming leaves nothing exactly where every character is whitespace.
pub proof fn lemma_trimmed_empty_iff_blank(s: Seq<char>)
    ensures
        trimmed(s).len() == 0 <==> all_ws(s),
{
    let t = trimmed_end(s);
    lemma_trimmed_end_empty(s);
    lemma_trimmed_start_empty(t);
    if t.len() > 0 {
        assert(!is_ws(t[t.len() - 1]));
        assert(!all_ws(t));
    } else {
        assert(all_ws(t));
    }
}

/// `p` occurs in `s` starting at position `i`.
pub open spec fn occurs_at(s: Seq<char>, p: Seq<char>, i: int) -> bool {
    0 <= i && i + p.len() <= s.len() && s.subrange(i, i + p.len()) == p
}

/// `p` occurs somewhere in `s`.
pub open spec fn has_substring(s: Seq<char>, p: Seq<char>) -> bool {
    exists|i: int| occurs_at(s, p, i)
}

pub fn is_whitespace(c: char) -> (r: bool)
    ensures
        r == is_ws(c),
{
    let n = c as u32;
    (0x09 <= n && n <= 0x0D) || n == 0x20 || n == 0x85 || n == 0xA0 || n == 0x1680 || (0x2000
        <= n && n <= 0x200A) || n == 0x2028 || n == 0x2029 || n == 0x202F || n == 0x205F || n
        == 0x3000
}

/// Whether two strings hold the same characters.
pub fn str_eq(a: &str, b: &str) -> (r: bool)
    ensures
        r == (a@ == b@),
{
    let n = a.unicode_len();
    if n != b.unicode_len() {
        return false;
    }
    let mut i: usize = 0;
    while i < n
        invariant
            n == a@.len(),
            n == b@.len(),
            i <= n,
            forall|j: int| 0 <= j < i ==> a@[j] == b@[j],
        decreases n - i,
    {
        if a.get_char(i) != b.get_char(i) {
            return false;
        }
        i += 1;
    }
    assert(a@ =~= b@);
    true
}

proof fn lemma_trimmed_end_step(s: Seq<char>, end: int)
    requires
        0 < end <= s.len(),
        is_ws(s[end - 1]),
    ensures
        trimmed_end(s.subrange(0, end)) == trimmed_end(s.subrange(0, end - 1)),
{
    assert(s.subrange(0, end).drop_last() =~= s.subrange(0, end - 1));
}

proof fn lemma_trimmed_start_step(s: Seq<char>, start: int, end: int)
    requires
        0 <= start < end <= s.len(),
        is_ws(s[start]),
    ensures
        trimmed_start(s.subrange(start, end)) == trimmed_start(s.subrange(start + 1, end)),
{
    assert(s.subrange(start, end).drop_first() =~= s.subrange(start + 1, end));
}

/// `s` without leading and trailing whitespace, as `str::trim`.
pub fn trim(s: &str) -> (r: &str)
    ensures
        r@ == trimmed(s@),
{
    let n = s.unicode_len();
    let mut end = n;
    assert(s@.subrange(0, n as int) =~= s@);
    while end > 0 && is_whitespace(s.get_char(end - 1))
        invariant
            n == s@.len(),
            end <= n,
            trimmed_end(s@.subrange(0, end as int)) == trimmed_end(s@),
        decreases end,
    {
        proof {
            lemma_trimmed_end_step(s@, end as int);
        }
        end -= 1;
    }
    assert(trimmed_end(s@) == s@.subrange(0, end as int));
    let mut start: usize = 0;
    assert(s@.subrange(0, end as int) =~= s@.subrange(start as int, end as int));
    while start < end && is_whitespace(s.get_char(start))
        invariant
            n == s@.len(),
            start <= end <= n,
            trimmed_start(s@.subrange(start as int, end as int)) == trimmed(s@),
        decreases end - start,
    {
        proof {
            lemma_trimmed_start_step(s@, start as int, end as int);
        }
        start += 1;
    }
    s.substring_char(start, end)
}

/// Whether `s` begins with `p`, as `str::starts_with`.
pub fn starts_with(s: &str, p: &str) -> (r: bool)
    ensures
        r == p@.is_prefix_of(s@),
{
    let n = s.unicode_len();
    let m = p.unicode_len();
    if m > n {
        return false;
    }
    str_eq(s.substring_char(0, m), p)
}

/// Whether `p` occurs in `s`, as `str::contains`.
pub fn contains(s: &str, p: &str) -> (r: bool)
    ensures
        r == has_substring(s@, p@),
{
    let n = s.unicode_len();
    let m = p.unicode_len();
    if m > n {
        assert forall|i: int| !occurs_at(s@, p@, i) by {}
        return false;
    }
    let mut i: usize = 0;
    loop
        invariant
            n == s@.len(),
            m == p@.len(),
            m <= n,
            i <= n - m,
            forall|j: int| 0 <= j < i ==> !occurs_at(s@, p@, j),
        ensures
            forall|j: int| 0 <= j <= n - m ==> !occurs_at(s@, p@, j),
        decreases n - m - i,
    {
        if str_eq(s.substring_char(i, i + m), p) {
            assert(occurs_at(s@, p@, i as int));
            return true;
        }
        if i == n - m {
            break;
        }
        i += 1;
    }
    assert forall|j: int| !occurs_at(s@, p@, j) by {
        if 0 <= j && j + m <= n {
            assert(j <= n - m);
        }
    }
    false
}

/// Position of the first `c` in `s`, or -1 where `s` holds none.
pub open spec fn index_of(s: Seq<char>, c: char) -> int
    decreases s.len(),
{
    if s.len() == 0 {
        -1
    } else if s[0] == c {
        0
    } else {
        let r = index_of(s.drop_first(), c);
        if r < 0 {
            -1
        } else {
            r + 1
        }
    }
}

/// Where `index_of` can point.
pub proof fn lemma_index_of_range(s: Seq<char>, c: char)
    ensures
        -1 <= index_of(s, c) < s.len(),
        index_of(s, c) >= 0 ==> s[index_of(s, c)] == c,
        forall|j: int| 0 <= j < index_of(s, c) ==> s[j] != c,
        index_of(s, c) < 0 ==> forall|j: int| 0 <= j < s.len() ==> s[j] != c,
    decreases s.len(),
{
    if s.len() > 0 && s[0] != c {
        lemma_index_of_range(s.drop_first(), c);
        assert forall|j: int| 0 < j < s.len() implies s[j] == s.drop_first()[j - 1] by {}
    }
}

/// `s` before its first `c`; all of `s` where it holds none (`s.split(c).next()`).
pub open spec fn before_first(s: Seq<char>, c: char) -> Seq<char> {
    if index_of(s, c) < 0 {
        s
    } else {
        s.subrange(0, index_of(s, c))
    }
}

/// `s` after its last `c`; all of `s` where it holds none (`s.rsplit(c).next()`).
pub open spec fn after_last(s: Seq<char>, c: char) -> Seq<char>
    decreases s.len(),
{
    if s.len() == 0 {
        s
    } else if s.last() == c {
        Seq::empty()
    } else {
        after_last(s.drop_last(), c).push(s.last())
    }
}

/// `s` without a trailing `'\r'`.
pub open spec fn without_cr(s: Seq<char>) -> Seq<char> {
    if s.len() > 0 && s.last() == '\r' {
        s.drop_last()
    } else {
        s
    }
}

/// The lines of `s`, as `str::lines`: split at each `'\n'`, a `'\r'` before
/// the `'\n'` dropped, and no empty line after a final line ending.
pub open spec fn split_lines(s: Seq<char>) -> Seq<Seq<char>>
    decreases s.len(),
{
    if s.len() == 0 {
        Seq::empty()
    } else if index_of(s, '\n') < 0 {
        seq![s]
    } else {
        let k = index_of(s, '\n');
        proof {
            lemma_index_of_range(s, '\n');
        }
        seq![without_cr(s.subrange(0, k))] + split_lines(s.subrange(k + 1, s.len() as int))
    }
}

/// `s` with every trailing `c` removed (`str::trim_end_matches` with a char).
pub open spec fn trimmed_end_char(s: Seq<char>, c: char) -> Seq<char>
    decreases s.len(),
{
    if s.len() > 0 && s.last() == c {
        trimmed_end_char(s.drop_last(), c)
    } else {
        s
    }
}

/// `s` with every trailing copy of `p` removed (`str::trim_end_matches` with a string).
pub open spec fn trimmed_end_str(s: Seq<char>, p: Seq<char>) -> Seq<char>
    decreases s.len(),
{
    if p.len() > 0 && p.is_suffix_of(s) {
        trimmed_end_str(s.subrange(0, s.len() - p.len()), p)
    } else {
        s
    }
}

/// `s` with each occurrence of `from`, scanned from the left without overlap,
/// replaced by `to`, as `str::replace`; an empty `from` matches before each
/// character and at the end.
pub open spec fn replaced(s: Seq<char>, from: Seq<char>, to: Seq<char>) -> Seq<char>
    decreases s.len(),
{
    if from.len() == 0 {
        if s.len() == 0 {
            to
        } else {
            to + seq![s[0]] + replaced(s.drop_first(), from, to)
        }
    } else if s.len() == 0 {
        s
    } else if from.is_prefix_of(s) {
        to + replaced(s.subrange(from.len() as int, s.len() as int), from, to)
    } else {
        seq![s[0]] + replaced(s.drop_first(), from, to)
    }
}

/// `s` repeated `n` times.
pub open spec fn repeated(s: Seq<char>, n: nat) -> Seq<char>
    decreases n,
{
    if n == 0 {
        Seq::empty()
    } else {
        repeated(s, (n - 1) as nat) + s
    }
}

/// `s` padded with spaces on the right to at least `w` characters, as `{:<w}`.
pub open spec fn padded(s: Seq<char>, w: nat) -> Seq<char> {
    if s.len() >= w {
        s
    } else {
        s + repeated(" "@, (w - s.len()) as nat)
    }
}

proof fn lemma_index_of(s: Seq<char>, c: char, k: int)
    requires
        0 <= k <= s.len(),
        forall|j: int| 0 <= j < k ==> s[j] != c,
        k < s.len() ==> s[k] == c,
    ensures
        index_of(s, c) == (if k < s.len() {
            k
        } else {
            -1
        }),
    decreases k,
{
    if s.len() > 0 && k > 0 {
        lemma_index_of(s.drop_first(), c, k - 1);
    }
}

/// Position of the first `c` in `s` from `from` on.
pub(crate) fn find_char(s: &str, c: char, from: usize) -> (r: Option<usize>)
    requires
        from <= s@.len(),
    ensures
        index_of(s@.subrange(from as int, s@.len() as int), c) == (match r {
            Some(k) => k - from,
            None => -1,
        }),
        r matches Some(k) ==> from <= k < s@.len(),
{
    let n = s.unicode_len();
    let mut i = from;
    while i < n
        invariant
            n == s@.len(),
            from <= i <= n,
            forall|j: int| from <= j < i ==> s@[j] != c,
        decreases n - i,
    {
        if s.get_char(i) == c {
            proof {
                lemma_index_of(s@.subrange(from as int, n as int), c, i - from);
            }
            return Some(i);
        }
        i += 1;
    }
    proof {
        lemma_index_of(s@.subrange(from as int, n as int), c, n - from);
    }
    None
}

/// `s` before its first `c`, as `s.split(c).next()`.
pub fn before_first_char(s: &str, c: char) -> (r: &str)
    ensures
        r@ == before_first(s@, c),
{
    assert(s@.subrange(0, s@.len() as int) =~= s@);
    match find_char(s, c, 0) {
        Some(k) => s.substring_char(0, k),
        None => s,
    }
}

/// `s` after its last `c`, as `s.rsplit(c).next()`.
pub fn after_last_char(s: &str, c: char) -> (r: &str)
    ensures
        r@ == after_last(s@, c),
{
    let n = s.unicode_len();
    let mut j = n;
    assert(s@.subrange(0, n as int) =~= s@);
    while j > 0 && s.get_char(j - 1) != c
        invariant
            n == s@.len(),
            j <= n,
            after_last(s@, c) == after_last(s@.subrange(0, j as int), c) + s@.subrange(
                j as int,
                n as int,
            ),
        decreases j,
    {
        let ghost t = s@.subrange(0, j as int);
        assert(t.drop_last() =~= s@.subrange(0, j - 1));
        assert(after_last(t, c) == after_last(t.drop_last(), c).push(t.last()));
        assert(after_last(s@.subrange(0, j - 1), c) + s@.subrange(j - 1, n as int) =~= after_last(
            s@.subrange(0, j - 1),
            c,
        ).push(t.last()) + s@.subrange(j as int, n as int));
        j -= 1;
    }
    assert(after_last(s@.subrange(0, j as int), c) =~= Seq::<char>::empty()) by {
        if j > 0 {
            assert(s@.subrange(0, j as int).last() == c);
        }
    }
    assert(after_last(s@, c) =~= s@.subrange(j as int, n as int));
    s.substring_char(j, n)
}

/// The lines of `s`, as `str::lines`.
pub fn lines(s: &str) -> (r: Vec<String>)
    ensures
        r@.map_values(|l: String| l@) == split_lines(s@),
{
    let n = s.unicode_len();
    let mut out: Vec<String> = Vec::new();
    let mut start: usize = 0;
    assert(s@.subrange(0, n as int) =~= s@);
    while start < n
        invariant
            n == s@.len(),
            start <= n,
            split_lines(s@) == out@.map_values(|l: String| l@) + split_lines(
                s@.subrange(start as int, n as int),
            ),
        decreases n - start,
    {
        let ghost rest = s@.subrange(start as int, n as int);
        match find_char(s, '\n', start) {
            Some(k) => {
                let piece = s.substring_char(start, k);
                let line = strip_cr(piece);
                let ghost old_out = out@.map_values(|l: String| l@);
                out.push(String::from_str(line));
                assert(rest.subrange(0, k - start) =~= s@.subrange(start as int, k as int));
                assert(rest.subrange(k - start + 1, rest.len() as int) =~= s@.subrange(
                    k + 1,
                    n as int,
                ));
                assert(out@.map_values(|l: String| l@) =~= old_out.push(line@));
                assert(split_lines(rest) == seq![line@] + split_lines(
                    s@.subrange(k + 1, n as int),
                ));
                assert(old_out.push(line@) + split_lines(s@.subrange(k + 1, n as int)) =~= old_out
                    + (seq![line@] + split_lines(s@.subrange(k + 1, n as int))));
                start = k + 1;
            },
            None => {
                let ghost old_out = out@.map_values(|l: String| l@);
                let piece = s.substring_char(start, n);
                out.push(String::from_str(piece));
                assert(out@.map_values(|l: String| l@) =~= old_out.push(rest));
                assert(split_lines(rest) == seq![rest]);
                assert(split_lines(s@.subrange(n as int, n as int)) =~= Seq::<Seq<char>>::empty());
                assert(old_out.push(rest) + Seq::<Seq<char>>::empty() =~= old_out + seq![rest]);
                start = n;
            },
        }
    }
    assert(split_lines(s@.subrange(n as int, n as int)) =~= Seq::<Seq<char>>::empty());
    assert(out@.map_values(|l: String| l@) + Seq::<Seq<char>>::empty() =~= out@.map_values(
        |l: String| l@,
    ));
    out
}

/// `s` without a trailing `'\r'`.
fn strip_cr(s: &str) -> (r: &str)
    ensures
        r@ == without_cr(s@),
{
    let n = s.unicode_len();
    if n > 0 && s.get_char(n - 1) == '\r' {
        s.substring_char(0, n - 1)
    } else {
        s
    }
}

/// `s` with every trailing `c` removed, as `str::trim_end_matches(c)`.
pub fn trim_end_char(s: &str, c: char) -> (r: &str)
    ensures
        r@ == trimmed_end_char(s@, c),
{
    let n = s.unicode_len();
    let mut end = n;
    assert(s@.subrange(0, n as int) =~= s@);
    while end > 0 && s.get_char(end - 1) == c
        invariant
            n == s@.len(),
            end <= n,
            trimmed_end_char(s@.subrange(0, end as int), c) == trimmed_end_char(s@, c),
        decreases end,
    {
        assert(s@.subrange(0, end as int).drop_last() =~= s@.subrange(0, end - 1));
        end -= 1;
    }
    s.substring_char(0, end)
}

/// `s` with every trailing copy of `p` removed, as `str::trim_end_matches(p)`.
pub fn trim_end_str<'a>(s: &'a str, p: &str) -> (r: &'a str)
    ensures
        r@ == trimmed_end_str(s@, p@),
{
    let m = p.unicode_len();
    if m == 0 {
        return s;
    }
    let mut cur = s;
    while m <= cur.unicode_len() && str_eq(
        cur.substring_char(cur.unicode_len() - m, cur.unicode_len()),
        p,
    )
        invariant
            m == p@.len(),
            m > 0,
            trimmed_end_str(cur@, p@) == trimmed_end_str(s@, p@),
        decreases cur@.len(),
    {
        let k = cur.unicode_len();
        cur = cur.substring_char(0, k - m);
    }
    cur
}

/// `s` with each occurrence of `from` replaced by `to`, as `str::replace`.
pub fn replace(s: &str, from: &str, to: &str) -> (r: String)
    ensures
        r@ == replaced(s@, from@, to@),
{
    let n = s.unicode_len();
    let m = from.unicode_len();
    let mut out = String::new();
    let mut i: usize = 0;
    assert(s@.subrange(0, n as int) =~= s@);
    if m == 0 {
        while i < n
            invariant
                n == s@.len(),
                m == from@.len(),
                m == 0,
                i <= n,
                replaced(s@, from@, to@) == out@ + replaced(
                    s@.subrange(i as int, n as int),
                    from@,
                    to@,
                ),
            decreases n - i,
        {
            let ghost rest = s@.subrange(i as int, n as int);
            assert(rest.drop_first() =~= s@.subrange(i + 1, n as int));
            let one = s.substring_char(i, i + 1);
            assert(one@ =~= seq![rest[0]]);
            let ghost before = out@;
            out.append(to);
            out.append(one);
            assert(before + replaced(rest, from@, to@) =~= out@ + replaced(
                s@.subrange(i + 1, n as int),
                from@,
                to@,
            ));
            i = i + 1;
        }
        assert(s@.subrange(n as int, n as int).len() == 0);
        out.append(to);
        return out;
    }
    while i < n
        invariant
            n == s@.len(),
            m == from@.len(),
            m > 0,
            i <= n,
            replaced(s@, from@, to@) == out@ + replaced(
                s@.subrange(i as int, n as int),
                from@,
                to@,
            ),
        decreases n - i,
    {
        let ghost rest = s@.subrange(i as int, n as int);
        if m <= n - i && str_eq(s.substring_char(i, i + m), from) {
            assert(from@.is_prefix_of(rest)) by {
                assert(rest.subrange(0, m as int) =~= s@.subrange(i as int, i + m));
            }
            assert(rest.subrange(m as int, rest.len() as int) =~= s@.subrange(i + m, n as int));
            let ghost before = out@;
            out.append(to);
            assert(before + (to@ + replaced(s@.subrange(i + m, n as int), from@, to@)) =~= out@
                + replaced(s@.subrange(i + m, n as int), from@, to@));
            i = i + m;
        } else {
            assert(!from@.is_prefix_of(rest)) by {
                if from@.is_prefix_of(rest) {
                    assert(rest.subrange(0, m as int) =~= s@.subrange(i as int, i + m));
                }
            }
            assert(rest.drop_first() =~= s@.subrange(i + 1, n as int));
            let one = s.substring_char(i, i + 1);
            assert(one@ =~= seq![rest[0]]);
            let ghost before = out@;
            out.append(one);
            assert(before + replaced(rest, from@, to@) =~= out@ + replaced(
                s@.subrange(i + 1, n as int),
                from@,
                to@,
            ));
            i = i + 1;
        }
    }
    assert(out@ + replaced(s@.subrange(n as int, n as int), from@, to@) =~= out@);
    out
}

/// `s` repeated `n` times, as `str::repeat`.
pub fn repeat(s: &str, n: usize) -> (r: String)
    ensures
        r@ == repeated(s@, n as nat),
{
    let mut out = String::new();
    let mut i: usize = 0;
    while i < n
        invariant
            i <= n,
            out@ == repeated(s@, i as nat),
        decreases n - i,
    {
        out.append(s);
        i += 1;
    }
    out
}

/// `s` padded with spaces on the right to `w` characters, as `format!("{:<w$}", s)`.
pub fn pad_right(s: &str, w: usize) -> (r: String)
    ensures
        r@ == padded(s@, w as nat),
{
    let n = s.unicode_len();
    let mut out = String::from_str(s);
    if n < w {
        let fill = repeat(" ", w - n);
        out.append(fill.as_str());
        assert(out@ =~= padded(s@, w as nat));
    }
    out
}

/// The `Debug` text of a string: quoted, with special characters escaped.
pub uninterp spec fn debug_text(s: Seq<char>) -> Seq<char>;

/// The `Debug` text of `s` (`<str as Debug>::fmt`), which quotes it and escapes
/// quotes, backslashes and unprintable characters. What the escaping of each
/// character is stays unstated: the contract only names the result.
#[verifier::external_body]
pub(crate) fn debug_quoted(s: &str) -> (r: String)
    ensures
        r@ == debug_text(s@),
{
    format!("{:?}", s)
}

} // verus!
