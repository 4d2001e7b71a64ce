//! Character-level string helpers with their specifications.

use vstd::prelude::*;

verus! {

/// The characters of `s`, in order.
pub fn chars_of(s: &str) -> (v: Vec<char>)
    ensures
        v@ == s@,
{
    let mut v: Vec<char> = Vec::new();
    for c in it: s.chars()
        invariant
            v@ == it.seq().take(it.index() as int),
    {
        v.push(c);
    }
    v
}

/// Appends `c` to `s` with `String::push`. Claimed of it: the characters of `s` afterwards are
/// those before, followed by `c`.
#[verifier::external_body]
pub(crate) fn push_char(s: &mut String, c: char)
    ensures
        final(s)@ == old(s)@.push(c),
{
    s.push(c);
}

/// The string made of the characters of `v`.
pub fn string_of(v: &Vec<char>) -> (s: String)
    ensures
        s@ == v@,
{
    let mut s = String::new();
    let n = v.len();
    for i in 0..n
        invariant
            n == v@.len(),
            s@ == v@.take(i as int),
    {
        push_char(&mut s, v[i]);
        assert(v@.take(i + 1) == v@.take(i as int).push(v@[i as int]));
    }
    assert(v@.take(n as int) == v@);
    s
}


/// Where the first occurrence of `t` at or after position `i` of `s` starts.
pub open spec fn find_from(s: Seq<char>, t: Seq<char>, i: int) -> Option<int>
    decreases s.len() + 1 - i,
{
    if i < 0 || i + t.len() > s.len() {
        None
    } else if s.subrange(i, i + t.len()) == t {
        Some(i)
    } else {
        find_from(s, t, i + 1)
    }
}

/// Where the first occurrence of `t` in `s` starts (`str::find`).
pub open spec fn find_seq(s: Seq<char>, t: Seq<char>) -> Option<int> {
    find_from(s, t, 0)
}

/// `t` occurs in `s` (`str::contains`).
pub open spec fn has_substring(s: Seq<char>, t: Seq<char>) -> bool {
    find_seq(s, t) is Some
}

/// `t` occurs in `s` starting at position `i`.
pub open spec fn occurs_at(s: Seq<char>, t: Seq<char>, i: int) -> bool {
    0 <= i && i + t.len() <= s.len() && s.subrange(i, i + t.len()) == t
}

/// `find_from` gives the leftmost occurrence at or after `i`, and `None` exactly when
/// there is none.
pub proof fn lemma_find_from(s: Seq<char>, t: Seq<char>, i: int)
    requires
        0 <= i,
    ensures
        find_from(s, t, i) matches Some(k) ==> i <= k && occurs_at(s, t, k) && forall|j: int|
            i <= j < k ==> !occurs_at(s, t, j),
        find_from(s, t, i) is None ==> forall|j: int| i <= j ==> !occurs_at(s, t, j),
    decreases s.len() + 1 - i,
{
    if i + t.len() > s.len() {
    } else if s.subrange(i, i + t.len()) == t {
    } else {
        lemma_find_from(s, t, i + 1);
        assert forall|j: int| i <= j && #[trigger] occurs_at(s, t, j) implies j >= i + 1 by {
            if j == i {
                assert(s.subrange(i, i + t.len()) == t);
            }
        }
    }
}

/// `t` occurs in `s` exactly when it occurs at some position.
pub proof fn lemma_has_substring(s: Seq<char>, t: Seq<char>)
    ensures
        has_substring(s, t) <==> exists|j: int| occurs_at(s, t, j),
{
    lemma_find_from(s, t, 0);
    if exists|j: int| occurs_at(s, t, j) {
        let j = choose|j: int| occurs_at(s, t, j);
        assert(0 <= j);
    }
}

/// Whether `t` occurs in `s` at position `i`.
fn occurs_at_exec(s: &Vec<char>, t: &Vec<char>, i: usize) -> (r: bool)
    requires
        i + t@.len() <= s@.len(),
    ensures
        r == (s@.subrange(i as int, i + t@.len()) == t@),
{
    let n = t.len();
    let mut k: usize = 0;
    while k < n
        invariant
            n == t@.len(),
            i + n <= s@.len(),
            s@.len() == s.len(),
            k <= n,
            forall|j: int| 0 <= j < k ==> s@[i + j] == t@[j],
        decreases n - k,
    {
        if s[i + k] != t[k] {
            assert(s@.subrange(i as int, i + n)[k as int] != t@[k as int]);
            return false;
        }
        k = k + 1;
    }
    assert(s@.subrange(i as int, i + n) =~= t@);
    true
}

/// The position of the first occurrence of `t` in `s` at or after `start`.
pub fn find_after(s: &Vec<char>, t: &Vec<char>, start: usize) -> (r: Option<usize>)
    ensures
        r matches Some(k) ==> find_from(s@, t@, start as int) == Some(k as int),
        r is None ==> find_from(s@, t@, start as int) is None,
{
    if t.len() > s.len() || start > s.len() - t.len() {
        return None;
    }
    if t.len() == 0 {
        assert(s@.subrange(start as int, start as int) =~= t@);
        return Some(start);
    }
    let last = s.len() - t.len();
    let mut i: usize = start;
    while i <= last
        invariant
            last + t@.len() == s@.len(),
            t@.len() > 0,
            last < usize::MAX,
            start <= i,
            find_from(s@, t@, start as int) == find_from(s@, t@, i as int),
        decreases last + 1 - i,
    {
        if occurs_at_exec(s, t, i) {
            return Some(i);
        }
        i = i + 1;
    }
    None
}

/// The position of the first occurrence of `t` in `s`.
pub fn find(s: &Vec<char>, t: &Vec<char>) -> (r: Option<usize>)
    ensures
        r matches Some(k) ==> find_seq(s@, t@) == Some(k as int),
        r is None ==> find_seq(s@, t@) is None,
{
    find_after(s, t, 0)
}

/// Whether `t` occurs in `s`.
pub fn contains(s: &Vec<char>, t: &Vec<char>) -> (r: bool)
    ensures
        r == has_substring(s@, t@),
{
    find(s, t).is_some()
}

/// Whether `s` contains the characters of `t` (a string slice).
pub fn contains_str(s: &Vec<char>, t: &str) -> (r: bool)
    ensures
        r == has_substring(s@, t@),
{
    let tv = chars_of(t);
    contains(s, &tv)
}


/// The views of a sequence of character vectors.
pub open spec fn views(v: Seq<Vec<char>>) -> Seq<Seq<char>> {
    v.map_values(|x: Vec<char>| x@)
}

/// The pieces of `s` from position `i` on, separated by the non-overlapping occurrences
/// of `pat` found from left to right (`str::split`, for a nonempty pattern).
pub open spec fn split_from(s: Seq<char>, pat: Seq<char>, i: int) -> Seq<Seq<char>>
    decreases s.len() + 1 - i,
{
    if pat.len() == 0 || i < 0 || i > s.len() {
        seq![s.subrange(i, s.len() as int)]
    } else {
        match find_from(s, pat, i) {
            Some(k) => if k >= i && k + pat.len() <= s.len() {
                seq![s.subrange(i, k)] + split_from(s, pat, k + pat.len())
            } else {
                seq![s.subrange(i, s.len() as int)]
            },
            None => seq![s.subrange(i, s.len() as int)],
        }
    }
}

/// The pieces of `s` separated by `pat` (`str::split`, for a nonempty pattern).
pub open spec fn split_seq(s: Seq<char>, pat: Seq<char>) -> Seq<Seq<char>> {
    split_from(s, pat, 0)
}


/// The pieces of `s` separated by the nonempty pattern `pat`.
pub fn split(s: &Vec<char>, pat: &Vec<char>) -> (r: Vec<Vec<char>>)
    requires
        pat@.len() > 0,
    ensures
        views(r@) == split_seq(s@, pat@),
        r@.len() >= 1,
{
    let mut out: Vec<Vec<char>> = Vec::new();
    let mut i: usize = 0;
    loop
        invariant
            pat@.len() > 0,
            i <= s@.len(),
            s@.len() == s.len(),
            views(out@) + split_from(s@, pat@, i as int) == split_seq(s@, pat@),
        decreases s@.len() + 1 - i,
    {
        let ghost old_out = out@;
        match find_after(s, pat, i) {
            Some(k) => {
                proof { lemma_find_from(s@, pat@, i as int); }
                let piece = slice(s, i, k);
                out.push(piece);
                proof {
                    assert(views(out@) == views(old_out).push(s@.subrange(i as int, k as int)));
                    assert(split_from(s@, pat@, i as int) == seq![s@.subrange(i as int, k as int)]
                        + split_from(s@, pat@, k + pat@.len()));
                    assert(views(out@) + split_from(s@, pat@, k + pat@.len()) =~= views(old_out)
                        + split_from(s@, pat@, i as int));
                }
                i = k + pat.len();
            },
            None => {
                let piece = slice(s, i, s.len());
                out.push(piece);
                proof {
                    assert(views(out@) == views(old_out).push(s@.subrange(i as int, s@.len() as int)));
                    assert(views(out@) =~= views(old_out) + split_from(s@, pat@, i as int));
                }
                return out;
            },
        }
    }
}

/// The characters of `s` from position `a` up to (not including) `b`.
pub fn slice(s: &Vec<char>, a: usize, b: usize) -> (r: Vec<char>)
    requires
        a <= b <= s@.len(),
    ensures
        r@ == s@.subrange(a as int, b as int),
{
    let mut r: Vec<char> = Vec::new();
    let mut i = a;
    while i < b
        invariant
            a <= i <= b,
            b <= s@.len(),
            r@ == s@.subrange(a as int, i as int),
        decreases b - i,
    {
        r.push(s[i]);
        assert(s@.subrange(a as int, i + 1) == s@.subrange(a as int, i as int).push(s@[i as int]));
        i = i + 1;
    }
    r
}

/// The last piece of `s` split by `pat` (`str::split(..).last()`).
pub open spec fn split_last(s: Seq<char>, pat: Seq<char>) -> Seq<char> {
    split_seq(s, pat).last()
}

/// Splitting `o + "/" + n` at every slash, from position `i` within `o` or just after it,
/// ends with `n` when `n` holds no slash.
proof fn lemma_split_from_tail(o: Seq<char>, n: Seq<char>, i: int)
    requires
        !n.contains('/'),
        0 <= i <= o.len() + 1,
    ensures
        split_from(o + seq!['/'] + n, seq!['/'], i).last() == n,
    decreases o.len() + 1 - i,
{
    let s = o + seq!['/'] + n;
    let pat = seq!['/'];
    lemma_find_from(s, pat, i);
    if i == o.len() + 1 {
        if find_from(s, pat, i) is Some {
            let k = find_from(s, pat, i)->0;
            assert(s.subrange(k, k + 1)[0] == pat[0]);
            assert(n[k - o.len() - 1] == '/');
            assert(false);
        }
        assert(s.subrange(i, s.len() as int) =~= n);
    } else {
        assert(s.subrange(o.len() as int, o.len() + 1int) =~= pat);
        assert(occurs_at(s, pat, o.len() as int));
        let k = find_from(s, pat, i)->0;
        assert(k <= o.len());
        lemma_split_from_tail(o, n, k + 1);
    }
}

/// The last piece of `o + "/" + n` split at slashes is `n`, when `n` holds no slash.
pub proof fn lemma_split_last_after_slash(o: Seq<char>, n: Seq<char>)
    requires
        !n.contains('/'),
    ensures
        split_last(o + seq!['/'] + n, seq!['/']) == n,
{
    lemma_split_from_tail(o, n, 0);
}

/// The first piece of `s` split by `pat` (`str::split(..).next()`).
pub open spec fn split_first(s: Seq<char>, pat: Seq<char>) -> Seq<char> {
    split_seq(s, pat)[0]
}

/// The last piece of `s` split by the nonempty pattern `pat`.
pub fn last_piece(s: &Vec<char>, pat: &Vec<char>) -> (r: Vec<char>)
    requires
        pat@.len() > 0,
    ensures
        r@ == split_last(s@, pat@),
{
    let mut parts = split(s, pat);
    let ghost all = parts@;
    let n = parts.len();
    let r = parts.remove(n - 1);
    assert(r@ == views(all)[n - 1]);
    r
}


/// The first piece of `s` split by the nonempty pattern `pat`.
pub fn first_piece(s: &Vec<char>, pat: &Vec<char>) -> (r: Vec<char>)
    requires
        pat@.len() > 0,
    ensures
        r@ == split_first(s@, pat@),
{
    let mut parts = split(s, pat);
    let ghost all = parts@;
    let r = parts.remove(0);
    assert(r@ == views(all)[0]);
    r
}

/// Unicode white space, as `char::is_whitespace` decides it.
pub open spec fn is_space(c: char) -> bool {
    let x = c as u32;
    (9 <= x <= 13) || x == 32 || x == 0x85 || x == 0xa0 || x == 0x1680 || (0x2000 <= x <= 0x200a)
        || x == 0x2028 || x == 0x2029 || x == 0x202f || x == 0x205f || x == 0x3000
}

/// Whether `c` is white space.
pub fn is_space_exec(c: char) -> (r: bool)
    ensures
        r == is_space(c),
{
    let x = c as u32;
    (9 <= x && x <= 13) || x == 32 || x == 0x85 || x == 0xa0 || x == 0x1680 || (0x2000 <= x && x
        <= 0x200a) || x == 0x2028 || x == 0x2029 || x == 0x202f || x == 0x205f || x == 0x3000
}

/// The first position at or after `i` whose character is not white space (or the length).
pub open spec fn skip_space(s: Seq<char>, i: int) -> int
    decreases s.len() - i,
{
    if i < 0 || i >= s.len() || !is_space(s[i]) {
        i
    } else {
        skip_space(s, i + 1)
    }
}

/// The first position at or after `i` whose character is white space (or the length).
pub open spec fn skip_word(s: Seq<char>, i: int) -> int
    decreases s.len() - i,
{
    if i < 0 || i >= s.len() || is_space(s[i]) {
        i
    } else {
        skip_word(s, i + 1)
    }
}

/// The end of `s` once the white space after position `lo` is cut from its end.
pub open spec fn trim_back(s: Seq<char>, lo: int, j: int) -> int
    decreases j - lo,
{
    if j <= lo || j > s.len() || !is_space(s[j - 1]) {
        j
    } else {
        trim_back(s, lo, j - 1)
    }
}

/// `s` without its leading and trailing white space (`str::trim`).
pub open spec fn trim_seq(s: Seq<char>) -> Seq<char> {
    let a = skip_space(s, 0);
    s.subrange(a, trim_back(s, a, s.len() as int))
}

/// The first white-space separated word of `s` (`split_whitespace().next()`).
pub open spec fn first_word(s: Seq<char>) -> Option<Seq<char>> {
    let a = skip_space(s, 0);
    if a >= s.len() {
        None
    } else {
        Some(s.subrange(a, skip_word(s, a)))
    }
}




/// The position of the first character at or after `i` that is not white space.
fn skip_space_exec(s: &Vec<char>, i: usize) -> (r: usize)
    requires
        i <= s@.len(),
    ensures
        r == skip_space(s@, i as int),
        i <= r <= s@.len(),
{
    let mut k = i;
    while k < s.len() && is_space_exec(s[k])
        invariant
            i <= k <= s@.len(),
            skip_space(s@, i as int) == skip_space(s@, k as int),
        decreases s@.len() - k,
    {
        k = k + 1;
    }
    k
}

/// The position of the first white-space character at or after `i`.
fn skip_word_exec(s: &Vec<char>, i: usize) -> (r: usize)
    requires
        i <= s@.len(),
    ensures
        r == skip_word(s@, i as int),
        i <= r <= s@.len(),
{
    let mut k = i;
    while k < s.len() && !is_space_exec(s[k])
        invariant
            i <= k <= s@.len(),
            skip_word(s@, i as int) == skip_word(s@, k as int),
        decreases s@.len() - k,
    {
        k = k + 1;
    }
    k
}

/// `s` without leading and trailing white space.
pub fn trim(s: &Vec<char>) -> (r: Vec<char>)
    ensures
        r@ == trim_seq(s@),
{
    let a = skip_space_exec(s, 0);
    let mut b = s.len();
    while b > a && is_space_exec(s[b - 1])
        invariant
            a <= b <= s@.len(),
            a == skip_space(s@, 0),
            trim_back(s@, a as int, s@.len() as int) == trim_back(s@, a as int, b as int),
        decreases b,
    {
        b = b - 1;
    }
    slice(s, a, b)
}

/// The first white-space separated word of `s`, if there is one.
pub fn first_word_exec(s: &Vec<char>) -> (r: Option<Vec<char>>)
    ensures
        r matches Some(w) ==> first_word(s@) == Some(w@),
        r is None ==> first_word(s@) is None,
{
    let a = skip_space_exec(s, 0);
    if a >= s.len() {
        return None;
    }
    let b = skip_word_exec(s, a);
    Some(slice(s, a, b))
}

/// Whether two character sequences are equal.
pub fn chars_eq(a: &Vec<char>, b: &Vec<char>) -> (r: bool)
    ensures
        r == (a@ == b@),
{
    if a.len() != b.len() {
        return false;
    }
    let n = a.len();
    for i in 0..n
        invariant
            n == a@.len(),
            n == b@.len(),
            forall|j: int| 0 <= j < i ==> a@[j] == b@[j],
    {
        if a[i] != b[i] {
            return false;
        }
    }
    assert(a@ =~= b@);
    true
}


/// The first position at or after `i` that holds a line feed (or the length).
pub open spec fn next_newline(s: Seq<char>, i: int) -> int
    decreases s.len() - i,
{
    if i < 0 || i >= s.len() || s[i] == '\n' {
        i
    } else {
        next_newline(s, i + 1)
    }
}

/// A line without the carriage return that ended it.
pub open spec fn strip_cr(l: Seq<char>) -> Seq<char> {
    if l.len() > 0 && l.last() == '\r' {
        l.drop_last()
    } else {
        l
    }
}

/// The lines of `s` from position `i` on (`str::lines`): each line ends at a line feed,
/// which is dropped together with a carriage return just before it; a last line without
/// a line feed is kept as it is, and an empty rest yields no line.
pub open spec fn lines_from(s: Seq<char>, i: int) -> Seq<Seq<char>>
    decreases s.len() - i,
{
    if i < 0 || i >= s.len() {
        Seq::empty()
    } else {
        let e = next_newline(s, i);
        if i <= e < s.len() {
            seq![strip_cr(s.subrange(i, e))] + lines_from(s, e + 1)
        } else {
            seq![s.subrange(i, s.len() as int)]
        }
    }
}

/// The lines of `s` (`str::lines`).
pub open spec fn lines_seq(s: Seq<char>) -> Seq<Seq<char>> {
    lines_from(s, 0)
}


/// The lines of `s`.
pub fn lines(s: &Vec<char>) -> (r: Vec<Vec<char>>)
    ensures
        views(r@) == lines_seq(s@),
{
    let mut out: Vec<Vec<char>> = Vec::new();
    let mut i: usize = 0;
    while i < s.len()
        invariant
            i <= s@.len(),
            views(out@) + lines_from(s@, i as int) == lines_seq(s@),
        decreases s@.len() - i,
    {
        let ghost old_out = out@;
        let mut e = i;
        while e < s.len() && s[e] != '\n'
            invariant
                i <= e <= s@.len(),
                next_newline(s@, i as int) == next_newline(s@, e as int),
            decreases s@.len() - e,
        {
            e = e + 1;
        }
        if e < s.len() {
            let mut end = e;
            if end > i && s[end - 1] == '\r' {
                end = end - 1;
            }
            let line = slice(s, i, end);
            out.push(line);
            proof {
                assert(line@ == strip_cr(s@.subrange(i as int, e as int)));
                assert(views(out@) == views(old_out).push(line@));
                assert(views(out@) + lines_from(s@, e + 1) =~= views(old_out) + lines_from(
                    s@,
                    i as int,
                ));
            }
            i = e + 1;
        } else {
            let line = slice(s, i, s.len());
            out.push(line);
            proof {
                assert(views(out@) == views(old_out).push(line@));
                assert(lines_from(s@, s@.len() as int) == Seq::<Seq<char>>::empty());
                assert(views(out@) + lines_from(s@, s@.len() as int) =~= views(old_out)
                    + lines_from(s@, i as int));
            }
            i = s.len();
        }
    }
    assert(views(out@) =~= lines_seq(s@));
    out
}

/// Whether `c` is an ASCII decimal digit.
pub open spec fn is_digit(c: char) -> bool {
    '0' as u32 <= c as u32 <= '9' as u32
}

/// The value of the ASCII decimal digit `c`.
pub open spec fn digit_value(c: char) -> nat {
    (c as u32 - '0' as u32) as nat
}

/// Every character of `d` is an ASCII decimal digit.
pub open spec fn all_digits(d: Seq<char>) -> bool {
    forall|i: int| 0 <= i < d.len() ==> is_digit(#[trigger] d[i])
}

/// The number that the decimal digits `d` denote.
pub open spec fn digits_value(d: Seq<char>) -> nat
    decreases d.len(),
{
    if d.len() == 0 {
        0
    } else {
        digits_value(d.drop_last()) * 10 + digit_value(d.last())
    }
}

/// Whether every character of `d` is an ASCII decimal digit.
pub fn all_digits_exec(d: &Vec<char>) -> (r: bool)
    ensures
        r == all_digits(d@),
{
    let n = d.len();
    for i in 0..n
        invariant
            n == d@.len(),
            forall|j: int| 0 <= j < i ==> is_digit(#[trigger] d@[j]),
    {
        let x = d[i] as u32;
        if !(48 <= x && x <= 57) {
            assert(!is_digit(d@[i as int]));
            return false;
        }
    }
    true
}

/// What `s.parse::<u64>()` gives: an optional `+`, then one or more ASCII digits whose
/// value fits in `u64`.
pub open spec fn parse_u64_seq(s: Seq<char>) -> Option<u64> {
    let d = if s.len() > 0 && s[0] == '+' {
        s.drop_first()
    } else {
        s
    };
    if d.len() > 0 && all_digits(d) && digits_value(d) <= u64::MAX {
        Some(digits_value(d) as u64)
    } else {
        None
    }
}

proof fn lemma_digits_value_prefix(d: Seq<char>, i: int)
    requires
        0 <= i <= d.len(),
        all_digits(d),
    ensures
        digits_value(d.take(i)) <= digits_value(d),
    decreases d.len() - i,
{
    if i < d.len() {
        lemma_digits_value_prefix(d, i + 1);
        assert(d.take(i + 1).drop_last() =~= d.take(i));
    } else {
        assert(d.take(i) =~= d);
    }
}

/// The value of the digits `d[lo..]`, if they are all digits and the value fits in `u64`.
fn digits_u64(d: &Vec<char>, lo: usize) -> (r: Option<u64>)
    requires
        lo <= d@.len(),
    ensures
        ({
            let t = d@.subrange(lo as int, d@.len() as int);
            r == (if all_digits(t) && digits_value(t) <= u64::MAX {
                Some(digits_value(t) as u64)
            } else {
                None
            })
        }),
{
    let ghost t = d@.subrange(lo as int, d@.len() as int);
    let mut acc: u64 = 0;
    let mut i = lo;
    while i < d.len()
        invariant
            lo <= i <= d@.len(),
            t == d@.subrange(lo as int, d@.len() as int),
            all_digits(t.take(i - lo)),
            acc as nat == digits_value(t.take(i - lo)),
        decreases d@.len() - i,
    {
        let c = d[i];
        assert(t[i - lo] == c);
        let x = c as u32;
        if !(48 <= x && x <= 57) {
            assert(!all_digits(t));
            return None;
        }
        let v = (x - 48) as u64;
        assert(t.take(i + 1 - lo).drop_last() =~= t.take(i - lo));
        assert(all_digits(t.take(i + 1 - lo)));
        if acc > (u64::MAX - v) / 10 {
            proof {
                assert(digits_value(t.take(i + 1 - lo)) == acc * 10 + v);
                assert(acc * 10 + v > u64::MAX) by (nonlinear_arith)
                    requires
                        acc > (u64::MAX - v) / 10,
                        v <= 9,
                ;
                if all_digits(t) {
                    lemma_digits_value_prefix(t, i + 1 - lo);
                }
            }
            return None;
        }
        assert(acc * 10 + v <= u64::MAX) by (nonlinear_arith)
            requires
                acc <= (u64::MAX - v) / 10,
                v <= 9,
        ;
        acc = acc * 10 + v;
        i = i + 1;
    }
    assert(t.take(d@.len() - lo) =~= t);
    Some(acc)
}

/// `s.parse::<u64>()`, as an `Option`.
pub fn parse_u64(s: &Vec<char>) -> (r: Option<u64>)
    ensures
        r == parse_u64_seq(s@),
{
    let lo: usize = if s.len() > 0 && s[0] == '+' {
        1
    } else {
        0
    };
    if lo >= s.len() {
        return None;
    }
    proof {
        if lo == 1 {
            assert(s@.drop_first() =~= s@.subrange(1, s@.len() as int));
        } else {
            assert(s@ =~= s@.subrange(0, s@.len() as int));
        }
    }
    digits_u64(s, lo)
}

/// The decimal digits of `n`, most significant first, without leading zeros.
pub open spec fn decimal_seq(n: nat) -> Seq<char>
    decreases n,
{
    if n < 10 {
        seq![digit_char(n)]
    } else {
        decimal_seq(n / 10).push(digit_char(n % 10))
    }
}

/// The ASCII digit for `d` (below ten).
pub open spec fn digit_char(d: nat) -> char {
    (d + '0' as u32) as char
}

proof fn lemma_digit_char(d: nat)
    requires
        d < 10,
    ensures
        is_digit(digit_char(d)),
        digit_value(digit_char(d)) == d,
{
    assert((d + 48) as char as u32 == d + 48);
}

/// The ASCII digit for `d`.
fn digit_char_exec(d: u64) -> (c: char)
    requires
        d < 10,
    ensures
        c == digit_char(d as nat),
{
    let x: u8 = d as u8 + 48u8;
    x as char
}

/// `n` written in decimal.
pub fn decimal_string(n: u64) -> (r: Vec<char>)
    ensures
        r@ == decimal_seq(n as nat),
    decreases n,
{
    if n < 10 {
        let mut v: Vec<char> = Vec::new();
        v.push(digit_char_exec(n));
        v
    } else {
        let mut v = decimal_string(n / 10);
        v.push(digit_char_exec(n % 10));
        v
    }
}

/// Reading back the decimal digits of a number gives the number.
pub proof fn lemma_decimal_round_trip(n: nat)
    ensures
        all_digits(decimal_seq(n)),
        digits_value(decimal_seq(n)) == n,
        decimal_seq(n).len() > 0,
    decreases n,
{
    if n >= 10 {
        lemma_decimal_round_trip(n / 10);
        let d = decimal_seq(n);
        assert(d.drop_last() =~= decimal_seq(n / 10));
        lemma_digit_char((n % 10) as nat);
        assert(d.last() == digit_char((n % 10) as nat));
        assert(digits_value(d) == digits_value(d.drop_last()) * 10 + digit_value(d.last()));
        assert(digits_value(d) == (n / 10) * 10 + n % 10);
    } else {
        lemma_digit_char(n);
        let d = decimal_seq(n);
        assert(d.drop_last() =~= Seq::<char>::empty());
        assert(digits_value(d) == digits_value(d.drop_last()) * 10 + digit_value(d.last()));
        assert(digits_value(Seq::<char>::empty()) == 0);
    }
}

/// Writing a `u64` in decimal and parsing it back gives the same number.
pub proof fn lemma_parse_decimal_u64(n: u64)
    ensures
        parse_u64_seq(decimal_seq(n as nat)) == Some(n),
{
    lemma_decimal_round_trip(n as nat);
    let d = decimal_seq(n as nat);
    assert(is_digit(d[0]));
}

/// The lower-case form of a string, as `str::to_lowercase` computes it.
pub uninterp spec fn lowercase(s: Seq<char>) -> Seq<char>;

/// Lower-cases `s` with `str::to_lowercase`. Claimed of it: the result is `lowercase` of the
/// characters of `s`, a function of them alone; what that form is (Unicode's lower-case
/// mappings) is not stated.
#[verifier::external_body]
pub(crate) fn to_lowercase(s: &str) -> (r: String)
    ensures
        r@ == lowercase(s@),
{
    s.to_lowercase()
}

/// The view of an optional string.
pub open spec fn opt_view(s: Option<String>) -> Option<Seq<char>> {
    match s {
        Some(t) => Some(t@),
        None => None,
    }
}

} // verus!
