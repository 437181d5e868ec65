//! Character-level text handling: the string operations that connection
//! settings and the secret-agent protocol are built from, each stated over
//! the characters of its input.
use vstd::prelude::*;

verus! {

broadcast use vstd::string::group_string_axioms;

// ---------------------------------------------------------------------------
// Character classes
// ---------------------------------------------------------------------------

/// Unicode `White_Space`: the characters that `char::is_whitespace` accepts.
pub open spec fn is_white_space(c: char) -> bool {
    let n = c as u32;
    ||| 0x09 <= n <= 0x0D
    ||| n == 0x20
    ||| n == 0x85
    ||| n == 0xA0
    ||| n == 0x1680
    ||| 0x2000 <= n <= 0x200A
    ||| n == 0x2028
    ||| n == 0x2029
    ||| n == 0x202F
    ||| n == 0x205F
    ||| n == 0x3000
}

/// The characters that a trim removes from both ends of a text.
#[derive(Clone, Copy)]
pub enum CharClass {
    /// Unicode white space.
    Whitespace,
    /// The double quote `"`.
    Quote,
}

pub open spec fn in_class(k: CharClass, c: char) -> bool {
    match k {
        CharClass::Whitespace => is_white_space(c),
        CharClass::Quote => c == '"',
    }
}

/// Whether `c` belongs to the class `k`.
pub fn class_contains(k: CharClass, c: char) -> (b: bool)
    ensures
        b == in_class(k, c),
{
    match k {
        CharClass::Whitespace => {
            let n = c as u32;
            (0x09 <= n && n <= 0x0D) || n == 0x20 || n == 0x85 || n == 0xA0 || n == 0x1680 || (
            0x2000 <= n && n <= 0x200A) || n == 0x2028 || n == 0x2029 || n == 0x202F || n
                == 0x205F || n == 0x3000
        },
        CharClass::Quote => c == '"',
    }
}

// ---------------------------------------------------------------------------
// Trimming
// ---------------------------------------------------------------------------

/// `s` without its leading characters of class `k`.
pub open spec fn strip_start(s: Seq<char>, k: CharClass) -> Seq<char>
    decreases s.len(),
{
    if s.len() > 0 && in_class(k, s[0]) {
        strip_start(s.drop_first(), k)
    } else {
        s
    }
}

/// `s` without its trailing characters of class `k`.
pub open spec fn strip_end(s: Seq<char>, k: CharClass) -> Seq<char>
    decreases s.len(),
{
    if s.len() > 0 && in_class(k, s.last()) {
        strip_end(s.drop_last(), k)
    } else {
        s
    }
}

/// `s` with every leading and trailing character of class `k` removed
/// (`str::trim_matches`).
pub open spec fn strip(s: Seq<char>, k: CharClass) -> Seq<char> {
    strip_end(strip_start(s, k), k)
}

/// `str::trim`.
pub open spec fn trim(s: Seq<char>) -> Seq<char> {
    strip(s, CharClass::Whitespace)
}

/// `str::trim_matches('"')`.
pub open spec fn trim_quotes(s: Seq<char>) -> Seq<char> {
    strip(s, CharClass::Quote)
}

/// The bounds of `cs[lo..hi]` once the characters of class `k` are stripped
/// from both of its ends.
pub fn strip_range(cs: &Vec<char>, lo: usize, hi: usize, k: CharClass) -> (r: (usize, usize))
    requires
        lo <= hi <= cs@.len(),
    ensures
        lo <= r.0 <= r.1 <= hi,
        cs@.subrange(r.0 as int, r.1 as int) == strip(cs@.subrange(lo as int, hi as int), k),
{
    let mut a = lo;
    while a < hi && class_contains(k, cs[a])
        invariant
            lo <= a <= hi <= cs@.len(),
            strip_start(cs@.subrange(lo as int, hi as int), k) == strip_start(
                cs@.subrange(a as int, hi as int),
                k,
            ),
        decreases hi - a,
    {
        assert(cs@.subrange(a as int, hi as int).drop_first() =~= cs@.subrange(
            a + 1,
            hi as int,
        ));
        a = a + 1;
    }
    let mut b = hi;
    while b > a && class_contains(k, cs[b - 1])
        invariant
            lo <= a <= b <= hi <= cs@.len(),
            strip_start(cs@.subrange(lo as int, hi as int), k) == cs@.subrange(a as int, hi as int),
            strip_end(cs@.subrange(a as int, hi as int), k) == strip_end(
                cs@.subrange(a as int, b as int),
                k,
            ),
        decreases b - a,
    {
        assert(cs@.subrange(a as int, b as int).drop_last() =~= cs@.subrange(
            a as int,
            b - 1,
        ));
        b = b - 1;
    }
    (a, b)
}

/// The characters of `s`, in order.
pub fn chars_of(s: &str) -> (v: Vec<char>)
    ensures
        v@ == s@,
{
    let mut v: Vec<char> = Vec::new();
    for c in it: s.chars()
        invariant
            v@ == it.seq().take(it.index()),
            it.seq() == s@,
    {
        v.push(c);
    }
    v
}

/// An owned copy of a string slice.
pub fn owned(s: &str) -> (r: String)
    ensures
        r@ == s@,
{
    s.to_string()
}

/// The characters `from..to` of `s`, owned.
pub fn slice_owned(s: &str, from: usize, to: usize) -> (r: String)
    requires
        from <= to <= s@.len(),
    ensures
        r@ == s@.subrange(from as int, to as int),
{
    s.substring_char(from, to).to_string()
}

/// `s` with every leading and trailing character of class `k` removed.
pub fn strip_str(s: &str, k: CharClass) -> (r: String)
    ensures
        r@ == strip(s@, k),
{
    let cs = chars_of(s);
    let (a, b) = strip_range(&cs, 0, cs.len(), k);
    assert(cs@.subrange(0, cs@.len() as int) =~= cs@);
    slice_owned(s, a, b)
}

/// `str::trim`.
pub fn trim_str(s: &str) -> (r: String)
    ensures
        r@ == trim(s@),
{
    strip_str(s, CharClass::Whitespace)
}

/// `str::trim_matches('"')`.
pub fn trim_quotes_str(s: &str) -> (r: String)
    ensures
        r@ == trim_quotes(s@),
{
    strip_str(s, CharClass::Quote)
}

// ---------------------------------------------------------------------------
// Searching and splitting
// ---------------------------------------------------------------------------

/// `pat` occurs in `s` starting at position `i`.
pub open spec fn occurs_at(s: Seq<char>, pat: Seq<char>, i: int) -> bool {
    0 <= i && i + pat.len() <= s.len() && s.subrange(i, i + pat.len()) == pat
}

/// The first position at or after `i` where `pat` occurs in `s`.
pub open spec fn find_from(s: Seq<char>, pat: Seq<char>, i: int) -> Option<int>
    decreases s.len() + 1 - i,
{
    if i < 0 || i + pat.len() > s.len() {
        None
    } else if s.subrange(i, i + pat.len()) == pat {
        Some(i)
    } else {
        find_from(s, pat, i + 1)
    }
}

/// The first position where `pat` occurs in `s`.
pub open spec fn first_match(s: Seq<char>, pat: Seq<char>) -> Option<int> {
    find_from(s, pat, 0)
}

/// A match found by `find_from` is a match, and none lies before it.
pub proof fn lemma_find_from(s: Seq<char>, pat: Seq<char>, i: int)
    requires
        i >= 0,
    ensures
        match find_from(s, pat, i) {
            Some(j) => i <= j && occurs_at(s, pat, j) && forall|t: int|
                i <= t < j ==> !occurs_at(s, pat, t),
            None => forall|t: int| i <= t ==> !occurs_at(s, pat, t),
        },
    decreases s.len() + 1 - i,
{
    if i + pat.len() > s.len() {
    } else if s.subrange(i, i + pat.len()) == pat {
    } else {
        lemma_find_from(s, pat, i + 1);
    }
}

/// The pieces of `s[start..]` between the leftmost non-overlapping
/// occurrences of `pat`.
pub open spec fn split_from(s: Seq<char>, pat: Seq<char>, start: int) -> Seq<Seq<char>>
    decreases s.len() + 1 - start,
{
    if start < 0 || start > s.len() || pat.len() == 0 {
        seq![s.subrange(start, s.len() as int)]
    } else {
        match find_from(s, pat, start) {
            None => seq![s.subrange(start, s.len() as int)],
            Some(i) => {
                proof {
                    lemma_find_from(s, pat, start);
                }
                seq![s.subrange(start, i)] + split_from(s, pat, i + pat.len())
            },
        }
    }
}

/// `str::split` with a text pattern.
pub open spec fn split(s: Seq<char>, pat: Seq<char>) -> Seq<Seq<char>> {
    split_from(s, pat, 0)
}

/// `str::split_once` with a text pattern.
pub open spec fn split_once(s: Seq<char>, pat: Seq<char>) -> Option<(Seq<char>, Seq<char>)> {
    match first_match(s, pat) {
        Some(i) => Some((s.take(i), s.skip(i + pat.len()))),
        None => None,
    }
}

/// Whether `ps` occurs in `cs` at position `j`.
fn window_eq(cs: &Vec<char>, j: usize, ps: &Vec<char>) -> (b: bool)
    requires
        j + ps@.len() <= cs@.len(),
    ensures
        b == (cs@.subrange(j as int, j + ps@.len()) == ps@),
{
    let mut k: usize = 0;
    let n = cs.len();
    while k < ps.len()
        invariant
            k <= ps@.len(),
            n == cs@.len(),
            j + ps@.len() <= cs@.len(),
            forall|t: int| 0 <= t < k ==> cs@[j + t] == ps@[t],
        decreases ps@.len() - k,
    {
        if cs[j + k] != ps[k] {
            assert(cs@.subrange(j as int, j + ps@.len())[k as int] != ps@[k as int]);
            return false;
        }
        k = k + 1;
    }
    assert(cs@.subrange(j as int, j + ps@.len()) =~= ps@);
    true
}

/// The first position at or after `from` where `ps` occurs in `cs`.
fn find_in(cs: &Vec<char>, ps: &Vec<char>, from: usize) -> (r: Option<usize>)
    requires
        from <= cs@.len(),
    ensures
        match r {
            Some(i) => find_from(cs@, ps@, from as int) == Some(i as int),
            None => find_from(cs@, ps@, from as int) is None,
        },
{
    let n = cs.len();
    let m = ps.len();
    if m > n {
        return None;
    }
    if from > n - m {
        return None;
    }
    let mut j = from;
    loop
        invariant
            from <= j <= n - m,
            m <= n,
            n == cs@.len(),
            m == ps@.len(),
            find_from(cs@, ps@, from as int) == find_from(cs@, ps@, j as int),
        decreases n - j,
    {
        if window_eq(cs, j, ps) {
            return Some(j);
        }
        if j == n - m {
            assert(find_from(cs@, ps@, j + 1) is None);
            return None;
        }
        j = j + 1;
    }
}

/// `str::split` with a text pattern.
pub fn split_str(s: &str, pat: &str) -> (r: Vec<String>)
    requires
        pat@.len() > 0,
    ensures
        r.deep_view() == split(s@, pat@),
{
    let cs = chars_of(s);
    let ps = chars_of(pat);
    let mut out: Vec<String> = Vec::new();
    let mut start: usize = 0;
    loop
        invariant
            start <= cs@.len(),
            cs@ == s@,
            ps@ == pat@,
            ps@.len() > 0,
            out.deep_view() + split_from(s@, pat@, start as int) == split(s@, pat@),
        decreases cs@.len() - start,
    {
        let ghost before = out.deep_view();
        match find_in(&cs, &ps, start) {
            None => {
                let piece = slice_owned(s, start, cs.len());
                out.push(piece);
                assert(out.deep_view() =~= before + split_from(s@, pat@, start as int));
                return out;
            },
            Some(i) => {
                proof {
                    lemma_find_from(s@, pat@, start as int);
                }
                assert(occurs_at(cs@, ps@, i as int));
                assert(i + ps.len() <= cs.len());
                let piece = slice_owned(s, start, i);
                out.push(piece);
                assert(out.deep_view() =~= before + seq![s@.subrange(start as int, i as int)]);
                assert(split_from(s@, pat@, start as int) == seq![
                    s@.subrange(start as int, i as int),
                ] + split_from(s@, pat@, i + pat@.len()));
                assert(before + split_from(s@, pat@, start as int) =~= out.deep_view()
                    + split_from(s@, pat@, i + pat@.len()));
                start = i + ps.len();
            },
        }
    }
}

/// `str::split_once` with a text pattern.
pub fn split_once_str(s: &str, pat: &str) -> (r: Option<(String, String)>)
    ensures
        match r {
            Some((a, b)) => split_once(s@, pat@) == Some((a@, b@)),
            None => split_once(s@, pat@) is None,
        },
{
    let cs = chars_of(s);
    let ps = chars_of(pat);
    match find_in(&cs, &ps, 0) {
        None => None,
        Some(i) => {
            proof {
                lemma_find_from(s@, pat@, 0);
            }
            assert(occurs_at(cs@, ps@, i as int));
            assert(i + ps.len() <= cs.len());
            let a = slice_owned(s, 0, i);
            let b = slice_owned(s, i + ps.len(), cs.len());
            assert(a@ =~= s@.take(i as int));
            assert(b@ =~= s@.skip(i + pat@.len()));
            Some((a, b))
        },
    }
}

// ---------------------------------------------------------------------------
// Lines
// ---------------------------------------------------------------------------

/// `l` without one trailing carriage return.
pub open spec fn drop_cr(l: Seq<char>) -> Seq<char> {
    if l.len() > 0 && l.last() == '\r' {
        l.drop_last()
    } else {
        l
    }
}

/// The lines of `s[start..]` as `BufRead::lines` yields them: each line
/// without its `\n` or `\r\n` terminator, and a last line that has no
/// terminator kept as it is.
pub open spec fn lines_from(s: Seq<char>, start: int) -> Seq<Seq<char>>
    decreases s.len() - start,
{
    if start < 0 || start >= s.len() {
        seq![]
    } else {
        match find_from(s, seq!['\n'], start) {
            None => seq![s.subrange(start, s.len() as int)],
            Some(i) => {
                proof {
                    lemma_find_from(s, seq!['\n'], start);
                }
                seq![drop_cr(s.subrange(start, i))] + lines_from(s, i + 1)
            },
        }
    }
}

/// The lines of `s`, as `BufRead::lines` yields them.
pub open spec fn lines(s: Seq<char>) -> Seq<Seq<char>> {
    lines_from(s, 0)
}

/// The lines of `s`, as `BufRead::lines` yields them.
pub fn split_lines(s: &str) -> (r: Vec<String>)
    ensures
        r.deep_view() == lines(s@),
{
    let cs = chars_of(s);
    let nl: Vec<char> = vec!['\n'];
    assert(nl@ =~= seq!['\n']);
    let mut out: Vec<String> = Vec::new();
    let mut start: usize = 0;
    while start < cs.len()
        invariant
            start <= cs@.len(),
            cs@ == s@,
            nl@ == seq!['\n'],
            out.deep_view() + lines_from(s@, start as int) == lines(s@),
        decreases cs@.len() - start,
    {
        let ghost before = out.deep_view();
        match find_in(&cs, &nl, start) {
            None => {
                let piece = slice_owned(s, start, cs.len());
                out.push(piece);
                assert(lines_from(s@, cs@.len() as int) =~= Seq::<Seq<char>>::empty());
                assert(out.deep_view() + lines_from(s@, cs@.len() as int) =~= before + lines_from(
                    s@,
                    start as int,
                ));
                start = cs.len();
            },
            Some(i) => {
                proof {
                    lemma_find_from(s@, seq!['\n'], start as int);
                }
                let mut end = i;
                if end > start && cs[end - 1] == '\r' {
                    end = end - 1;
                }
                let piece = slice_owned(s, start, end);
                out.push(piece);
                assert(piece@ =~= drop_cr(s@.subrange(start as int, i as int)));
                assert(before + lines_from(s@, start as int) =~= out.deep_view() + lines_from(
                    s@,
                    i + 1,
                ));
                start = i + 1;
            },
        }
    }
    assert(lines_from(s@, start as int) =~= Seq::<Seq<char>>::empty());
    assert(out.deep_view() =~= out.deep_view() + lines_from(s@, start as int));
    out
}

/// A match inside `x` is found the same way in any extension of `x`.
proof fn lemma_find_from_extend(x: Seq<char>, y: Seq<char>, pat: Seq<char>, start: int, i: int)
    requires
        0 <= start,
        find_from(x, pat, start) == Some(i),
    ensures
        find_from(x + y, pat, start) == Some(i),
    decreases i - start,
{
    lemma_find_from(x, pat, start);
    assert((x + y).subrange(start, start + pat.len()) =~= x.subrange(start, start + pat.len()));
    if start < i {
        lemma_find_from_extend(x, y, pat, start + 1, i);
    }
}

/// Searching after a prefix is searching the rest, shifted.
proof fn lemma_find_from_shift(p: Seq<char>, s: Seq<char>, pat: Seq<char>, k: int)
    requires
        0 <= k,
    ensures
        find_from(p + s, pat, p.len() + k) == match find_from(s, pat, k) {
            Some(j) => Some(p.len() + j),
            None => None,
        },
    decreases s.len() + 1 - k,
{
    if k + pat.len() <= s.len() {
        assert((p + s).subrange(p.len() + k, p.len() + k + pat.len()) =~= s.subrange(
            k,
            k + pat.len(),
        ));
        lemma_find_from_shift(p, s, pat, k + 1);
    }
}

/// Reading lines after a prefix is reading the lines of the rest.
proof fn lemma_lines_from_shift(p: Seq<char>, s: Seq<char>, k: int)
    requires
        0 <= k,
    ensures
        lines_from(p + s, p.len() + k) == lines_from(s, k),
    decreases s.len() - k,
{
    if k < s.len() {
        lemma_find_from_shift(p, s, seq!['\n'], k);
        match find_from(s, seq!['\n'], k) {
            Some(j) => {
                lemma_find_from(s, seq!['\n'], k);
                assert((p + s).subrange(p.len() + k, p.len() + j) =~= s.subrange(k, j));
                lemma_lines_from_shift(p, s, j + 1);
            },
            None => {
                assert((p + s).subrange(p.len() + k, (p + s).len() as int) =~= s.subrange(
                    k,
                    s.len() as int,
                ));
            },
        }
    }
}

proof fn lemma_lines_from_concat(x: Seq<char>, y: Seq<char>, start: int)
    requires
        0 <= start <= x.len(),
        x.len() == 0 || x.last() == '\n',
    ensures
        lines_from(x + y, start) == lines_from(x, start) + lines(y),
    decreases x.len() - start,
{
    if start == x.len() {
        lemma_lines_from_shift(x, y, 0);
        assert(lines_from(x, start) =~= Seq::<Seq<char>>::empty());
        assert(lines_from(x, start) + lines(y) =~= lines(y));
    } else {
        assert(occurs_at(x, seq!['\n'], x.len() - 1)) by {
            assert(x.subrange(x.len() - 1, x.len() as int) =~= seq!['\n']);
        }
        lemma_find_from(x, seq!['\n'], start);
        let i = find_from(x, seq!['\n'], start)->Some_0;
        lemma_find_from_extend(x, y, seq!['\n'], start, i);
        assert((x + y).subrange(start, i) =~= x.subrange(start, i));
        lemma_lines_from_concat(x, y, i + 1);
        assert(lines_from(x + y, start) =~= lines_from(x, start) + lines(y));
    }
}

/// The lines of a text whose first part ends with a line break are the
/// lines of the first part followed by those of the rest.
pub proof fn lemma_lines_concat(x: Seq<char>, y: Seq<char>)
    requires
        x.len() == 0 || x.last() == '\n',
    ensures
        lines(x + y) == lines(x) + lines(y),
{
    lemma_lines_from_concat(x, y, 0);
}

// ---------------------------------------------------------------------------
// Prefixes and comparisons
// ---------------------------------------------------------------------------

/// `s` begins with `p`.
pub open spec fn has_prefix(s: Seq<char>, p: Seq<char>) -> bool {
    p.len() <= s.len() && s.take(p.len() as int) == p
}

/// `str::strip_prefix` with a text pattern.
pub fn strip_prefix_str(s: &str, prefix: &str) -> (r: Option<String>)
    ensures
        match r {
            Some(t) => has_prefix(s@, prefix@) && t@ == s@.skip(prefix@.len() as int),
            None => !has_prefix(s@, prefix@),
        },
{
    let cs = chars_of(s);
    let ps = chars_of(prefix);
    if ps.len() > cs.len() {
        return None;
    }
    if window_eq(&cs, 0, &ps) {
        assert(cs@.subrange(0, ps@.len() as int) =~= cs@.take(ps@.len() as int));
        Some(slice_owned(s, ps.len(), cs.len()))
    } else {
        assert(cs@.subrange(0, ps@.len() as int) =~= cs@.take(ps@.len() as int));
        None
    }
}

/// Whether two texts hold the same characters.
pub fn str_eq(a: &str, b: &str) -> (r: bool)
    ensures
        r == (a@ == b@),
{
    owned(a) == owned(b)
}

/// An ASCII capital letter.
pub open spec fn is_ascii_upper(c: char) -> bool {
    0x41 <= (c as u32) <= 0x5A
}

/// `a` and `b` are the same character once ASCII letters are compared
/// regardless of case.
pub open spec fn same_ignoring_ascii_case(a: char, b: char) -> bool {
    ||| a == b
    ||| is_ascii_upper(a) && (a as u32) + 32 == (b as u32)
    ||| is_ascii_upper(b) && (b as u32) + 32 == (a as u32)
}

/// `str::eq_ignore_ascii_case`.
pub open spec fn eq_ignore_ascii_case(a: Seq<char>, b: Seq<char>) -> bool {
    a.len() == b.len() && forall|i: int|
        0 <= i < a.len() ==> #[trigger] same_ignoring_ascii_case(a[i], b[i])
}

/// `str::eq_ignore_ascii_case`.
pub fn eq_ignore_ascii_case_str(a: &str, b: &str) -> (r: bool)
    ensures
        r == eq_ignore_ascii_case(a@, b@),
{
    let ca = chars_of(a);
    let cb = chars_of(b);
    if ca.len() != cb.len() {
        return false;
    }
    let mut i: usize = 0;
    while i < ca.len()
        invariant
            i <= ca@.len(),
            ca@.len() == cb@.len(),
            ca@ == a@,
            cb@ == b@,
            forall|t: int| 0 <= t < i ==> #[trigger] same_ignoring_ascii_case(a@[t], b@[t]),
        decreases ca@.len() - i,
    {
        let x = ca[i] as u32;
        let y = cb[i] as u32;
        let same = ca[i] == cb[i] || (0x41 <= x && x <= 0x5A && x + 32 == y) || (0x41 <= y && y <= 0x5A
            && y + 32 == x);
        if !same {
            assert(!same_ignoring_ascii_case(a@[i as int], b@[i as int]));
            return false;
        }
        assert(same_ignoring_ascii_case(a@[i as int], b@[i as int]));
        i = i + 1;
    }
    true
}

// ---------------------------------------------------------------------------
// Decimal numbers
// ---------------------------------------------------------------------------

/// An ASCII decimal digit.
pub open spec fn is_digit(c: char) -> bool {
    0x30 <= (c as u32) <= 0x39
}

/// The value of a decimal digit.
pub open spec fn digit_value(c: char) -> int {
    (c as u32) - 0x30
}

/// Every character of `s` is a decimal digit.
pub open spec fn all_digits(s: Seq<char>) -> bool {
    forall|i: int| 0 <= i < s.len() ==> #[trigger] is_digit(s[i])
}

/// The number that the decimal digits `s` spell, most significant first.
pub open spec fn digits_value(s: Seq<char>) -> int
    decreases s.len(),
{
    if s.len() == 0 {
        0
    } else {
        digits_value(s.drop_last()) * 10 + digit_value(s.last())
    }
}

/// `<u16 as FromStr>::from_str`: an optional `+`, then one or more decimal
/// digits whose value fits in a `u16`.
pub open spec fn parse_u16(s: Seq<char>) -> Option<u16> {
    let d = if s.len() > 0 && s[0] == '+' {
        s.drop_first()
    } else {
        s
    };
    if d.len() > 0 && all_digits(d) && digits_value(d) <= 0xFFFF {
        Some(digits_value(d) as u16)
    } else {
        None
    }
}

/// The digit character for `d < 10`.
pub open spec fn digit_char(d: nat) -> char {
    if d == 0 {
        '0'
    } else if d == 1 {
        '1'
    } else if d == 2 {
        '2'
    } else if d == 3 {
        '3'
    } else if d == 4 {
        '4'
    } else if d == 5 {
        '5'
    } else if d == 6 {
        '6'
    } else if d == 7 {
        '7'
    } else if d == 8 {
        '8'
    } else {
        '9'
    }
}

/// The decimal notation of `n`, without sign or leading zeros
/// (`u16::to_string`).
pub open spec fn decimal(n: nat) -> Seq<char>
    decreases n,
{
    if n < 10 {
        seq![digit_char(n)]
    } else {
        decimal(n / 10) + seq![digit_char(n % 10)]
    }
}

/// The value of a prefix of a run of digits is at most the value of the run.
proof fn lemma_digits_prefix_le(d: Seq<char>, k: int)
    requires
        all_digits(d),
        0 <= k <= d.len(),
    ensures
        0 <= digits_value(d.take(k)) <= digits_value(d),
    decreases d.len(),
{
    if d.len() == 0 {
        assert(d.take(k) =~= d);
    } else if k == d.len() {
        assert(d.take(k) =~= d);
        lemma_digits_nonneg(d);
    } else {
        assert(d.drop_last().take(k) =~= d.take(k));
        assert(is_digit(d[d.len() - 1]));
        lemma_digits_prefix_le(d.drop_last(), k);
    }
}

proof fn lemma_digits_nonneg(d: Seq<char>)
    requires
        all_digits(d),
    ensures
        0 <= digits_value(d),
    decreases d.len(),
{
    if d.len() > 0 {
        assert(is_digit(d[d.len() - 1]));
        lemma_digits_nonneg(d.drop_last());
    }
}

/// `<u16 as FromStr>::from_str`.
pub fn parse_u16_str(s: &str) -> (r: Option<u16>)
    ensures
        r == parse_u16(s@),
{
    let cs = chars_of(s);
    let n = cs.len();
    let start: usize = if n > 0 && cs[0] == '+' {
        1
    } else {
        0
    };
    let ghost d = if s@.len() > 0 && s@[0] == '+' {
        s@.drop_first()
    } else {
        s@
    };
    assert(d =~= cs@.subrange(start as int, n as int));
    if start == n {
        return None;
    }
    let mut acc: u32 = 0;
    let mut i: usize = start;
    assert(cs@.subrange(start as int, start as int) =~= Seq::<char>::empty());
    while i < n
        invariant
            start <= i <= n,
            n == cs@.len(),
            cs@ == s@,
            d == cs@.subrange(start as int, n as int),
            d.len() > 0,
            parse_u16(s@) == (if all_digits(d) && digits_value(d) <= 0xFFFF {
                Some(digits_value(d) as u16)
            } else {
                None
            }),
            acc <= 0xFFFF,
            acc as int == digits_value(cs@.subrange(start as int, i as int)),
            all_digits(cs@.subrange(start as int, i as int)),
        decreases n - i,
    {
        let c = cs[i];
        let v = c as u32;
        proof {
            assert(cs@.subrange(start as int, i + 1).drop_last() =~= cs@.subrange(
                start as int,
                i as int,
            ));
            assert(d.take(i + 1 - start) =~= cs@.subrange(start as int, i + 1));
        }
        if v < 0x30 || v > 0x39 {
            assert(!is_digit(d[i - start]));
            return None;
        }
        let next = acc * 10 + (v - 0x30);
        if next > 0xFFFF {
            proof {
                if all_digits(d) {
                    lemma_digits_prefix_le(d, i + 1 - start);
                }
            }
            return None;
        }
        acc = next;
        i = i + 1;
    }
    assert(d =~= cs@.subrange(start as int, i as int));
    Some(acc as u16)
}

/// The one-character text of the digit `d`.
fn digit_str(d: u16) -> (r: &'static str)
    requires
        d < 10,
    ensures
        r@ == seq![digit_char(d as nat)],
{
    proof {
        reveal_strlit("0");
        reveal_strlit("1");
        reveal_strlit("2");
        reveal_strlit("3");
        reveal_strlit("4");
        reveal_strlit("5");
        reveal_strlit("6");
        reveal_strlit("7");
        reveal_strlit("8");
        reveal_strlit("9");
    }
    let r = if d == 0 {
        "0"
    } else if d == 1 {
        "1"
    } else if d == 2 {
        "2"
    } else if d == 3 {
        "3"
    } else if d == 4 {
        "4"
    } else if d == 5 {
        "5"
    } else if d == 6 {
        "6"
    } else if d == 7 {
        "7"
    } else if d == 8 {
        "8"
    } else {
        "9"
    };
    assert(r@ =~= seq![digit_char(d as nat)]);
    r
}

/// `u16::to_string`.
pub fn decimal_string(n: u16) -> (r: String)
    ensures
        r@ == decimal(n as nat),
    decreases n,
{
    if n < 10 {
        owned(digit_str(n))
    } else {
        let mut s = decimal_string(n / 10);
        s.append(digit_str(n % 10));
        s
    }
}

/// Reading back the decimal notation of a port number gives the number:
/// `parse_u16(n.to_string()) == Some(n)`.
pub proof fn lemma_parse_decimal_roundtrip(n: u16)
    ensures
        parse_u16(decimal(n as nat)) == Some(n),
{
    lemma_decimal_digits(n as nat);
}

proof fn lemma_decimal_digits(n: nat)
    ensures
        decimal(n).len() > 0,
        decimal(n)[0] != '+',
        all_digits(decimal(n)),
        digits_value(decimal(n)) == n,
    decreases n,
{
    if n < 10 {
        assert(digits_value(decimal(n)) == digits_value(decimal(n).drop_last()) * 10
            + digit_value(decimal(n).last()));
        assert(decimal(n).drop_last() =~= Seq::<char>::empty());
    } else {
        lemma_decimal_digits(n / 10);
        let p = decimal(n / 10);
        let c = digit_char(n % 10);
        assert((p + seq![c]).drop_last() =~= p);
        assert((p + seq![c]).last() == c);
        assert((p + seq![c])[0] == p[0]);
        assert forall|i: int| 0 <= i < (p + seq![c]).len() implies #[trigger] is_digit(
            (p + seq![c])[i],
        ) by {
            if i < p.len() {
                assert(is_digit(p[i]));
            }
        }
        assert(n == (n / 10) * 10 + n % 10);
    }
}

} // verus!
