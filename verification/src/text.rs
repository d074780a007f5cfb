//! Character-level text operations on `str`, specified over `Seq<char>`.
use vstd::prelude::*;

verus! {

/// The characters with the Unicode `White_Space` property: the set that
/// `char::is_whitespace`, and with it `str::trim`, strips.
pub open spec fn is_white_space(c: char) -> bool {
    let u = c as u32;
    ||| 0x9 <= u <= 0xd
    ||| u == 0x20
    ||| u == 0x85
    ||| u == 0xa0
    ||| u == 0x1680
    ||| 0x2000 <= u <= 0x200a
    ||| u == 0x2028
    ||| u == 0x2029
    ||| u == 0x202f
    ||| u == 0x205f
    ||| u == 0x3000
}

/// `s` without its leading white space.
pub open spec fn trim_start(s: Seq<char>) -> Seq<char>
    decreases s.len(),
{
    if s.len() > 0 && is_white_space(s[0]) {
        trim_start(s.drop_first())
    } else {
        s
    }
}

/// `s` without its trailing white space.
pub open spec fn trim_end(s: Seq<char>) -> Seq<char>
    decreases s.len(),
{
    if s.len() > 0 && is_white_space(s.last()) {
        trim_end(s.drop_last())
    } else {
        s
    }
}

/// `s` without leading and trailing white space.
pub open spec fn trim(s: Seq<char>) -> Seq<char> {
    trim_end(trim_start(s))
}

/// `s` with every occurrence of `pat` taken out, the occurrences found from
/// left to right without overlap; an empty pattern leaves `s` as it is.
pub open spec fn remove_all(s: Seq<char>, pat: Seq<char>) -> Seq<char>
    decreases s.len(),
{
    if pat.len() == 0 || s.len() < pat.len() {
        s
    } else if s.subrange(0, pat.len() as int) == pat {
        remove_all(s.subrange(pat.len() as int, s.len() as int), pat)
    } else {
        seq![s[0]] + remove_all(s.drop_first(), pat)
    }
}

/// `remove_all` applied again and again until `pat` no longer occurs, so
/// that occurrences that a removal joins together are taken out too.
pub open spec fn remove_all_repeatedly(s: Seq<char>, pat: Seq<char>) -> Seq<char>
    decreases s.len(),
{
    if pat.len() > 0 && occurs_in(s, pat) {
        proof {
            lemma_remove_all_len(s, pat);
        }
        remove_all_repeatedly(remove_all(s, pat), pat)
    } else {
        s
    }
}

/// `s` without the copies of `c` at its end.
pub open spec fn trim_end_char(s: Seq<char>, c: char) -> Seq<char>
    decreases s.len(),
{
    if s.len() > 0 && s.last() == c {
        trim_end_char(s.drop_last(), c)
    } else {
        s
    }
}

/// Whether `c` is white space (see `is_white_space`).
pub fn char_is_white_space(c: char) -> (r: bool)
    ensures
        r == is_white_space(c),
{
    let u = c as u32;
    (0x9 <= u && u <= 0xd) || u == 0x20 || u == 0x85 || u == 0xa0 || u == 0x1680 || (0x2000 <= u
        && u <= 0x200a) || u == 0x2028 || u == 0x2029 || u == 0x202f || u == 0x205f || u == 0x3000
}

/// The characters of `s`, in order.
pub fn chars_of(s: &str) -> (r: Vec<char>)
    ensures
        r@ == s@,
{
    let mut r: Vec<char> = Vec::new();
    for c in it: s.chars()
        invariant
            it.seq() == s@,
            r@ == it.seq().take(it.index() as int),
    {
        r.push(c);
    }
    r
}

/// The text of `s` as an owned `String`.
pub fn to_owned_string(s: &str) -> (r: String)
    ensures
        r@ == s@,
{
    String::from_str(s)
}

/// Whether the two strings hold the same characters.
pub fn str_eq(a: &str, b: &str) -> (r: bool)
    ensures
        r == (a@ == b@),
{
    let ca = chars_of(a);
    let cb = chars_of(b);
    if ca.len() != cb.len() {
        return false;
    }
    let n = ca.len();
    let mut i: usize = 0;
    while i < n
        invariant
            ca@ == a@,
            cb@ == b@,
            n == ca@.len(),
            n == cb@.len(),
            i <= n,
            forall|j: int| 0 <= j < i ==> ca@[j] == cb@[j],
        decreases n - i,
    {
        if ca[i] != cb[i] {
            assert(ca@[i as int] != cb@[i as int]);
            return false;
        }
        i = i + 1;
    }
    assert(ca@ =~= cb@);
    true
}

proof fn lemma_trim_start_step(s: Seq<char>, i: int)
    requires
        0 <= i < s.len(),
        is_white_space(s[i]),
    ensures
        trim_start(s.subrange(i, s.len() as int)) == trim_start(s.subrange(i + 1, s.len() as int)),
{
    assert(s.subrange(i, s.len() as int).drop_first() =~= s.subrange(i + 1, s.len() as int));
}

proof fn lemma_trim_end_step(s: Seq<char>, j: int)
    requires
        0 < j <= s.len(),
        is_white_space(s[j - 1]),
    ensures
        trim_end(s.subrange(0, j)) == trim_end(s.subrange(0, j - 1)),
{
    assert(s.subrange(0, j).drop_last() =~= s.subrange(0, j - 1));
}

/// The position of the first character of `cs` that is not white space, and
/// the fact that dropping what precedes it leaves `trim_start` unchanged.
fn skip_leading_white_space(cs: &Vec<char>) -> (i: usize)
    ensures
        i <= cs@.len(),
        trim_start(cs@) == cs@.subrange(i as int, cs@.len() as int),
{
    let n = cs.len();
    let mut i: usize = 0;
    assert(cs@.subrange(0, n as int) =~= cs@);
    while i < n && char_is_white_space(cs[i])
        invariant
            n == cs@.len(),
            i <= n,
            trim_start(cs@) == trim_start(cs@.subrange(i as int, n as int)),
        decreases n - i,
    {
        proof {
            lemma_trim_start_step(cs@, i as int);
        }
        i = i + 1;
    }
    let ghost rest = cs@.subrange(i as int, n as int);
    if i < n {
        assert(rest[0] == cs@[i as int]);
    }
    i
}

/// The end of `cs[i..]` once its trailing white space is dropped.
fn skip_trailing_white_space(cs: &Vec<char>, i: usize) -> (j: usize)
    requires
        i <= cs@.len(),
    ensures
        i <= j <= cs@.len(),
        trim_end(cs@.subrange(i as int, cs@.len() as int)) == cs@.subrange(i as int, j as int),
{
    let n = cs.len();
    let ghost rest = cs@.subrange(i as int, n as int);
    let mut j: usize = n;
    assert(rest.subrange(0, (n - i) as int) =~= rest);
    while j > i && char_is_white_space(cs[j - 1])
        invariant
            n == cs@.len(),
            i <= j <= n,
            rest == cs@.subrange(i as int, n as int),
            trim_end(rest) == trim_end(rest.subrange(0, j - i)),
        decreases j,
    {
        proof {
            assert(rest[j - i - 1] == cs@[j - 1]);
            lemma_trim_end_step(rest, j - i);
        }
        j = j - 1;
    }
    let ghost kept = rest.subrange(0, j - i);
    if j > i {
        assert(kept.last() == cs@[j - 1]);
    }
    assert(kept =~= cs@.subrange(i as int, j as int));
    j
}

/// `s` without leading and trailing white space, as `str::trim` gives it.
pub fn trim_str(s: &str) -> (r: String)
    ensures
        r@ == trim(s@),
{
    let cs = chars_of(s);
    let i = skip_leading_white_space(&cs);
    let j = skip_trailing_white_space(&cs, i);
    let piece = s.substring_char(i, j);
    String::from_str(piece)
}

/// Whether `pat` occurs in `cs` at position `i`.
fn occurs_at(cs: &Vec<char>, pat: &Vec<char>, i: usize) -> (r: bool)
    requires
        i <= cs@.len(),
    ensures
        r == (i + pat@.len() <= cs@.len() && cs@.subrange(i as int, i + pat@.len()) == pat@),
{
    let m = pat.len();
    if m > cs.len() - i {
        return false;
    }
    let mut k: usize = 0;
    while k < m
        invariant
            m == pat@.len(),
            i + m <= cs@.len(),
            cs@.len() == cs.len(),
            k <= m,
            forall|t: int| 0 <= t < k ==> cs@[i + t] == pat@[t],
        decreases m - k,
    {
        if cs[i + k] != pat[k] {
            assert(cs@.subrange(i as int, i + m)[k as int] != pat@[k as int]);
            return false;
        }
        k = k + 1;
    }
    assert(cs@.subrange(i as int, i + m) =~= pat@);
    true
}

proof fn lemma_remove_all_at_match(cs: Seq<char>, pat: Seq<char>, i: int)
    requires
        pat.len() > 0,
        0 <= i,
        i + pat.len() <= cs.len(),
        cs.subrange(i, i + pat.len()) == pat,
    ensures
        remove_all(cs.subrange(i, cs.len() as int), pat) == remove_all(
            cs.subrange(i + pat.len(), cs.len() as int),
            pat,
        ),
{
    let x = cs.subrange(i, cs.len() as int);
    assert(x.subrange(0, pat.len() as int) =~= cs.subrange(i, i + pat.len()));
    assert(x.subrange(pat.len() as int, x.len() as int) =~= cs.subrange(
        i + pat.len(),
        cs.len() as int,
    ));
}

proof fn lemma_remove_all_no_match(cs: Seq<char>, pat: Seq<char>, i: int)
    requires
        pat.len() > 0,
        0 <= i < cs.len(),
        !(i + pat.len() <= cs.len() && cs.subrange(i, i + pat.len()) == pat),
    ensures
        remove_all(cs.subrange(i, cs.len() as int), pat) == seq![cs[i]] + remove_all(
            cs.subrange(i + 1, cs.len() as int),
            pat,
        ),
{
    let x = cs.subrange(i, cs.len() as int);
    assert(x.drop_first() =~= cs.subrange(i + 1, cs.len() as int));
    if x.len() >= pat.len() {
        assert(x.subrange(0, pat.len() as int) =~= cs.subrange(i, i + pat.len()));
    }
}

/// `s` with every occurrence of `pat` taken out, as `str::replace(pat, "")`
/// gives it.
pub fn remove_all_str(s: &str, pat: &str) -> (r: String)
    ensures
        r@ == remove_all(s@, pat@),
{
    let cs = chars_of(s);
    let ps = chars_of(pat);
    let n = cs.len();
    let m = ps.len();
    if m == 0 {
        return String::from_str(s);
    }
    let mut out = String::new();
    let mut start: usize = 0;
    let mut i: usize = 0;
    assert(cs@.subrange(0, n as int) =~= cs@);
    while i < n
        invariant
            cs@ == s@,
            ps@ == pat@,
            n == cs@.len(),
            m == ps@.len(),
            m > 0,
            start <= i <= n,
            remove_all(cs@, ps@) == out@ + cs@.subrange(start as int, i as int) + remove_all(
                cs@.subrange(i as int, n as int),
                ps@,
            ),
        decreases n - i,
    {
        if occurs_at(&cs, &ps, i) {
            proof {
                lemma_remove_all_at_match(cs@, ps@, i as int);
            }
            let piece = s.substring_char(start, i);
            let ghost before = out@;
            out.append(piece);
            assert(out@ == before + cs@.subrange(start as int, i as int));
            i = i + m;
            start = i;
            assert(cs@.subrange(start as int, i as int) =~= Seq::<char>::empty());
            assert(out@ + cs@.subrange(start as int, i as int) =~= out@);
        } else {
            proof {
                lemma_remove_all_no_match(cs@, ps@, i as int);
                assert(cs@.subrange(start as int, i + 1) =~= cs@.subrange(start as int, i as int)
                    + seq![cs@[i as int]]);
            }
            i = i + 1;
        }
    }
    assert(cs@.subrange(n as int, n as int) =~= Seq::<char>::empty());
    assert(remove_all(Seq::<char>::empty(), ps@) == Seq::<char>::empty());
    let piece = s.substring_char(start, n);
    out.append(piece);
    assert(out@ =~= remove_all(cs@, ps@));
    out
}

/// Whether `pat` occurs in `cs`.
fn occurs_in_chars(cs: &Vec<char>, pat: &Vec<char>) -> (r: bool)
    ensures
        r == occurs_in(cs@, pat@),
{
    let n = cs.len();
    let mut i: usize = 0;
    loop
        invariant
            n == cs@.len(),
            i <= n,
            forall|j: int| 0 <= j < i && j + pat@.len() <= cs@.len() ==> #[trigger] cs@.subrange(
                j,
                j + pat@.len(),
            ) != pat@,
        decreases n - i,
    {
        if occurs_at(cs, pat, i) {
            return true;
        }
        if i == n {
            assert(!occurs_in(cs@, pat@)) by {
                if occurs_in(cs@, pat@) {
                    let j = choose|j: int|
                        0 <= j && j + pat@.len() <= cs@.len() && #[trigger] cs@.subrange(
                            j,
                            j + pat@.len(),
                        ) == pat@;
                    assert(j <= n);
                }
            }
            return false;
        }
        i = i + 1;
    }
}

/// `s` with `pat` taken out again and again until it occurs no more.
pub fn remove_all_repeatedly_str(s: &str, pat: &str) -> (r: String)
    ensures
        r@ == remove_all_repeatedly(s@, pat@),
{
    let ps = chars_of(pat);
    let mut cur = String::from_str(s);
    if ps.len() == 0 {
        return cur;
    }
    loop
        invariant
            ps@ == pat@,
            ps@.len() > 0,
            remove_all_repeatedly(cur@, pat@) == remove_all_repeatedly(s@, pat@),
        decreases cur@.len(),
    {
        let cs = chars_of(cur.as_str());
        if !occurs_in_chars(&cs, &ps) {
            return cur;
        }
        proof {
            lemma_remove_all_len(cur@, pat@);
        }
        cur = remove_all_str(cur.as_str(), pat);
    }
}

/// `s` without the copies of `c` at its end, as `str::trim_end_matches(c)`
/// gives it.
pub fn trim_end_char_str(s: &str, c: char) -> (r: String)
    ensures
        r@ == trim_end_char(s@, c),
{
    let cs = chars_of(s);
    let n = cs.len();
    let mut j: usize = n;
    assert(cs@.subrange(0, n as int) =~= cs@);
    while j > 0 && cs[j - 1] == c
        invariant
            cs@ == s@,
            n == cs@.len(),
            j <= n,
            trim_end_char(cs@, c) == trim_end_char(cs@.subrange(0, j as int), c),
        decreases j,
    {
        assert(cs@.subrange(0, j as int).drop_last() =~= cs@.subrange(0, j - 1));
        j = j - 1;
    }
    let piece = s.substring_char(0, j);
    String::from_str(piece)
}

/// Whether `s` neither starts nor ends with white space.
pub open spec fn is_trimmed(s: Seq<char>) -> bool {
    s.len() > 0 ==> !is_white_space(s[0]) && !is_white_space(s.last())
}

/// Whether `pat` occurs in `s`.
pub open spec fn occurs_in(s: Seq<char>, pat: Seq<char>) -> bool {
    exists|i: int| 0 <= i && i + pat.len() <= s.len() && #[trigger] s.subrange(i, i + pat.len()) == pat
}

/// `trim_start` drops a prefix, and what it keeps does not start with white
/// space.
pub proof fn lemma_trim_start(s: Seq<char>)
    ensures
        trim_start(s).len() <= s.len(),
        trim_start(s) == s.subrange(s.len() - trim_start(s).len(), s.len() as int),
        trim_start(s).len() > 0 ==> !is_white_space(trim_start(s)[0]),
    decreases s.len(),
{
    if s.len() > 0 && is_white_space(s[0]) {
        lemma_trim_start(s.drop_first());
        let r = trim_start(s.drop_first());
        assert(s.drop_first().subrange(s.len() - 1 - r.len(), s.len() - 1) =~= s.subrange(
            s.len() - r.len(),
            s.len() as int,
        ));
    } else {
        assert(s.subrange(0, s.len() as int) =~= s);
    }
}

/// `trim_end` drops a suffix, and what it keeps does not end with white
/// space.
pub proof fn lemma_trim_end(s: Seq<char>)
    ensures
        trim_end(s).len() <= s.len(),
        trim_end(s) == s.subrange(0, trim_end(s).len() as int),
        trim_end(s).len() > 0 ==> !is_white_space(trim_end(s).last()),
    decreases s.len(),
{
    if s.len() > 0 && is_white_space(s.last()) {
        lemma_trim_end(s.drop_last());
        let r = trim_end(s.drop_last());
        assert(s.drop_last().subrange(0, r.len() as int) =~= s.subrange(0, r.len() as int));
    } else {
        assert(s.subrange(0, s.len() as int) =~= s);
    }
}

/// Trimming leaves neither leading nor trailing white space.
pub proof fn lemma_trim_is_trimmed(s: Seq<char>)
    ensures
        is_trimmed(trim(s)),
{
    lemma_trim_start(s);
    let a = trim_start(s);
    lemma_trim_end(a);
    let b = trim_end(a);
    if b.len() > 0 {
        assert(b[0] == a[0]);
    }
}

/// Trimming leaves a trimmed text as it is.
pub proof fn lemma_trim_of_trimmed(s: Seq<char>)
    requires
        is_trimmed(s),
    ensures
        trim(s) == s,
{
}

/// Taking out a pattern never lengthens a text, and shortens it when the
/// pattern occurs.
pub proof fn lemma_remove_all_len(s: Seq<char>, pat: Seq<char>)
    ensures
        remove_all(s, pat).len() <= s.len(),
        pat.len() > 0 && occurs_in(s, pat) ==> remove_all(s, pat).len() < s.len(),
    decreases s.len(),
{
    if pat.len() == 0 || s.len() < pat.len() {
        if pat.len() > 0 && occurs_in(s, pat) {
            let i = choose|i: int| 0 <= i && i + pat.len() <= s.len() && #[trigger] s.subrange(i, i + pat.len()) == pat;
        }
    } else if s.subrange(0, pat.len() as int) == pat {
        lemma_remove_all_len(s.subrange(pat.len() as int, s.len() as int), pat);
    } else {
        let t = s.drop_first();
        lemma_remove_all_len(t, pat);
        if occurs_in(s, pat) {
            let i = choose|i: int| 0 <= i && i + pat.len() <= s.len() && #[trigger] s.subrange(i, i + pat.len()) == pat;
            if i == 0 {
                assert(s.subrange(i, i + pat.len()) =~= s.subrange(0, pat.len() as int));
            } else {
                let j = i - 1;
                assert(t.subrange(j, j + pat.len()) =~= s.subrange(i, i + pat.len()));
                assert(occurs_in(t, pat));
            }
        }
    }
}

/// After repeated removal the pattern occurs no more.
pub proof fn lemma_remove_all_repeatedly_absent(s: Seq<char>, pat: Seq<char>)
    requires
        pat.len() > 0,
    ensures
        !occurs_in(remove_all_repeatedly(s, pat), pat),
    decreases s.len(),
{
    if occurs_in(s, pat) {
        lemma_remove_all_len(s, pat);
        lemma_remove_all_repeatedly_absent(remove_all(s, pat), pat);
    }
}

/// A pattern that does not occur in a text does not occur in a piece of it.
pub proof fn lemma_absent_in_subrange(s: Seq<char>, a: int, b: int, pat: Seq<char>)
    requires
        0 <= a <= b <= s.len(),
        !occurs_in(s, pat),
    ensures
        !occurs_in(s.subrange(a, b), pat),
{
    let t = s.subrange(a, b);
    if occurs_in(t, pat) {
        let i = choose|i: int| 0 <= i && i + pat.len() <= t.len() && #[trigger] t.subrange(i, i + pat.len()) == pat;
        let k = a + i;
        assert(s.subrange(k, k + pat.len()) =~= t.subrange(i, i + pat.len()));
    }
}

/// Trimming a text without the pattern leaves it without the pattern.
pub proof fn lemma_trim_keeps_absent(s: Seq<char>, pat: Seq<char>)
    requires
        !occurs_in(s, pat),
    ensures
        !occurs_in(trim(s), pat),
{
    lemma_trim_start(s);
    let a = trim_start(s);
    lemma_absent_in_subrange(s, s.len() - a.len(), s.len() as int, pat);
    lemma_trim_end(a);
    lemma_absent_in_subrange(a, 0, trim_end(a).len() as int, pat);
}

} // verus!
