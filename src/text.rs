//! Text helpers over `str`: character access, substring search, decimal
//! counts, and line splitting, each specified over `Seq<char>`.
use vstd::prelude::*;
use vstd::string::StrSliceExecFns;
use vstd::string::StringExecFns;

verus! {

/// A character of the Unicode `White_Space` property, which `str::trim`
/// removes.
pub open spec fn is_white_space(c: char) -> bool {
    ('\u{9}' <= c && c <= '\u{d}') || c == ' ' || c == '\u{85}' || c == '\u{a0}' || c == '\u{1680}'
        || ('\u{2000}' <= c && c <= '\u{200a}') || c == '\u{2028}' || c == '\u{2029}' || c == '\u{202f}'
        || c == '\u{205f}' || c == '\u{3000}'
}

/// `s` without its leading white space.
pub open spec fn trim_start_of(s: Seq<char>) -> Seq<char>
    decreases s.len(),
{
    if s.len() > 0 && is_white_space(s[0]) {
        trim_start_of(s.drop_first())
    } else {
        s
    }
}

/// `s` without its trailing white space.
pub open spec fn trim_end_of(s: Seq<char>) -> Seq<char>
    decreases s.len(),
{
    if s.len() > 0 && is_white_space(s.last()) {
        trim_end_of(s.drop_last())
    } else {
        s
    }
}

/// What `str::trim` returns for a string: the string with leading and
/// trailing white space removed.
pub open spec fn trim_of(s: Seq<char>) -> Seq<char> {
    trim_end_of(trim_start_of(s))
}

/// What `str::to_lowercase` returns for a string.
pub uninterp spec fn lower_of(s: Seq<char>) -> Seq<char>;

/// Relies on `str::trim`: leading and trailing characters of the Unicode
/// `White_Space` property are removed.
#[verifier::external_body]
pub(crate) fn trim_text(s: &str) -> (r: String)
    ensures
        r@ == trim_of(s@),
{
    s.trim().to_string()
}

/// Relies on `str::to_lowercase`: the result depends on the characters alone.
#[verifier::external_body]
pub(crate) fn lowercase(s: &str) -> (r: String)
    ensures
        r@ == lower_of(s@),
{
    s.to_lowercase()
}

/// `needle` occurs somewhere in `hay` as a contiguous run of characters.
pub open spec fn has_substring(hay: Seq<char>, needle: Seq<char>) -> bool {
    exists|i: int|
        0 <= i <= hay.len() - needle.len() && #[trigger] hay.subrange(i, i + needle.len()) == needle
}

/// The characters of a string, one per element.
pub fn chars_of(s: &str) -> (r: Vec<char>)
    ensures
        r@ == s@,
{
    let n = s.unicode_len();
    let mut r: Vec<char> = Vec::new();
    let mut i: usize = 0;
    while i < n
        invariant
            n == s@.len(),
            i <= n,
            r@ == s@.subrange(0, i as int),
        decreases n - i,
    {
        r.push(s.get_char(i));
        i = i + 1;
    }
    assert(r@ =~= s@);
    r
}

/// Whether `needle` matches `hay` at position `at`.
fn matches_at(hay: &Vec<char>, needle: &Vec<char>, at: usize) -> (r: bool)
    requires
        at + needle@.len() <= hay@.len(),
    ensures
        r == (hay@.subrange(at as int, at + needle@.len()) == needle@),
{
    let hn = hay.len();
    let mut j: usize = 0;
    while j < needle.len()
        invariant
            hn == hay@.len(),
            at + needle@.len() <= hay@.len(),
            j <= needle@.len(),
            hay@.subrange(at as int, at + j) == needle@.subrange(0, j as int),
        decreases needle@.len() - j,
    {
        if hay[at + j] != needle[j] {
            assert(hay@.subrange(at as int, at + needle@.len())[j as int] != needle@[j as int]);
            return false;
        }
        assert(hay@.subrange(at as int, at + j + 1) =~= needle@.subrange(0, j + 1));
        j = j + 1;
    }
    assert(needle@.subrange(0, j as int) =~= needle@);
    true
}

/// Whether `needle` occurs in `hay`, as `str::contains` with a `&str` pattern.
pub fn contains(hay: &str, needle: &str) -> (r: bool)
    ensures
        r == has_substring(hay@, needle@),
{
    let h = chars_of(hay);
    let n = chars_of(needle);
    if n.len() > h.len() {
        return false;
    }
    let last = h.len() - n.len();
    let mut i: usize = 0;
    loop
        invariant
            h@ == hay@,
            n@ == needle@,
            last == h@.len() - n@.len(),
            i <= last,
            forall|k: int| 0 <= k < i ==> #[trigger] h@.subrange(k, k + n@.len()) != n@,
        decreases last - i,
    {
        if matches_at(&h, &n, i) {
            return true;
        }
        if i == last {
            return false;
        }
        i = i + 1;
    }
}

/// Whether two strings hold the same characters.
pub fn same_text(a: &str, b: &str) -> (r: bool)
    ensures
        r == (a@ == b@),
{
    let x = chars_of(a);
    let y = chars_of(b);
    if x.len() != y.len() {
        return false;
    }
    let mut i: usize = 0;
    while i < x.len()
        invariant
            x@ == a@,
            y@ == b@,
            x@.len() == y@.len(),
            i <= x@.len(),
            forall|k: int| 0 <= k < i ==> x@[k] == y@[k],
        decreases x@.len() - i,
    {
        if x[i] != y[i] {
            return false;
        }
        i = i + 1;
    }
    assert(x@ =~= y@);
    true
}

pub open spec fn is_digit(c: char) -> bool {
    '0' <= c && c <= '9'
}

pub open spec fn digit_value(c: char) -> int {
    (c as int) - ('0' as int)
}

/// The value of a run of decimal digits, most significant first.
pub open spec fn decimal_value(s: Seq<char>) -> int
    decreases s.len(),
{
    if s.len() == 0 {
        0
    } else {
        decimal_value(s.drop_last()) * 10 + digit_value(s.last())
    }
}

/// The digits of a decimal count: an optional leading `+`, then one or more
/// ASCII digits.
pub open spec fn count_digits(s: Seq<char>) -> Seq<char> {
    if s.len() > 0 && s[0] == '+' {
        s.drop_first()
    } else {
        s
    }
}

/// `s` is the text of an unsigned decimal number in the form that
/// `usize::from_str` accepts.
pub open spec fn is_count_text(s: Seq<char>) -> bool {
    let d = count_digits(s);
    d.len() > 0 && forall|i: int| 0 <= i < d.len() ==> is_digit(#[trigger] d[i])
}

proof fn lemma_decimal_monotone(s: Seq<char>, i: int)
    requires
        0 <= i <= s.len(),
        forall|k: int| 0 <= k < s.len() ==> is_digit(#[trigger] s[k]),
    ensures
        decimal_value(s.subrange(0, i)) <= decimal_value(s),
        0 <= decimal_value(s.subrange(0, i)),
    decreases s.len() - i,
{
    if i < s.len() {
        lemma_decimal_monotone(s, i + 1);
        let p = s.subrange(0, i + 1);
        assert(p.drop_last() =~= s.subrange(0, i));
        lemma_decimal_nonneg(s.subrange(0, i));
    } else {
        assert(s.subrange(0, i) =~= s);
        lemma_decimal_nonneg(s);
    }
}

proof fn lemma_decimal_nonneg(s: Seq<char>)
    requires
        forall|k: int| 0 <= k < s.len() ==> is_digit(#[trigger] s[k]),
    ensures
        0 <= decimal_value(s),
    decreases s.len(),
{
    if s.len() > 0 {
        lemma_decimal_nonneg(s.drop_last());
        assert(is_digit(s[s.len() - 1]));
    }
}

/// Reads an unsigned count, as `str::parse::<usize>` does: `None` where the
/// text is not a decimal number or the number does not fit in `usize`.
pub fn parse_count(s: &str) -> (r: Option<usize>)
    ensures
        r is Some <==> is_count_text(s@) && decimal_value(count_digits(s@)) <= usize::MAX,
        r matches Some(n) ==> n as int == decimal_value(count_digits(s@)),
{
    let c = chars_of(s);
    let start: usize = if c.len() > 0 && c[0] == '+' {
        1
    } else {
        0
    };
    let ghost d = count_digits(s@);
    assert(d =~= c@.subrange(start as int, c@.len() as int));
    if start == c.len() {
        return None;
    }
    let mut i: usize = start;
    let mut acc: usize = 0;
    while i < c.len()
        invariant
            c@ == s@,
            d == count_digits(s@),
            d == c@.subrange(start as int, c@.len() as int),
            start <= i <= c@.len(),
            forall|k: int| start <= k < i ==> is_digit(#[trigger] c@[k]),
            acc as int == decimal_value(c@.subrange(start as int, i as int)),
        decreases c@.len() - i,
    {
        let ch = c[i];
        if ch < '0' || ch > '9' {
            assert(!is_digit(d[i - start]));
            assert(!is_count_text(s@));
            return None;
        }
        let v: usize = (ch as u32 - '0' as u32) as usize;
        let ghost p = c@.subrange(start as int, i + 1);
        assert(p.drop_last() =~= c@.subrange(start as int, i as int));
        if acc > (usize::MAX - v) / 10 {
            // The number so far already exceeds the limit; the rest only adds.
            let mut k: usize = i + 1;
            while k < c.len()
                invariant
                    c@ == s@,
                    d == count_digits(s@),
                    d == c@.subrange(start as int, c@.len() as int),
                    start <= i < k <= c@.len(),
                    forall|m: int| start <= m < k ==> is_digit(#[trigger] c@[m]),
                decreases c@.len() - k,
            {
                if c[k] < '0' || c[k] > '9' {
                    assert(!is_digit(d[k - start]));
                    assert(!is_count_text(s@));
                    return None;
                }
                k = k + 1;
            }
            proof {
                assert(forall|m: int| 0 <= m < d.len() ==> is_digit(#[trigger] d[m])) by {
                    assert forall|m: int| 0 <= m < d.len() implies is_digit(#[trigger] d[m]) by {
                        assert(d[m] == c@[m + start]);
                    }
                }
                lemma_decimal_monotone(d, i + 1 - start);
                assert(d.subrange(0, i + 1 - start) =~= p);
                assert(decimal_value(p) == acc * 10 + v) by (nonlinear_arith)
                    requires
                        decimal_value(p) == decimal_value(p.drop_last()) * 10 + digit_value(p.last()),
                        decimal_value(p.drop_last()) == acc,
                        digit_value(p.last()) == v,
                ;
                assert(acc * 10 + v > usize::MAX) by (nonlinear_arith)
                    requires
                        acc > (usize::MAX - v) / 10,
                        v <= 9,
                ;
            }
            return None;
        }
        proof {
            assert(acc * 10 + v <= usize::MAX) by (nonlinear_arith)
                requires
                    acc <= (usize::MAX - v) / 10,
                    v <= 9,
            ;
        }
        acc = acc * 10 + v;
        i = i + 1;
    }
    assert(c@.subrange(start as int, i as int) =~= d);
    Some(acc)
}

/// A line that ended at a line feed, as `str::lines` yields it: one
/// carriage return before the line feed dropped.
pub open spec fn strip_cr(l: Seq<char>) -> Seq<char> {
    if l.len() > 0 && l.last() == '\r' {
        l.drop_last()
    } else {
        l
    }
}

/// The lines of `s` from position `i` on, the current line starting at `start`.
pub open spec fn lines_from(s: Seq<char>, start: int, i: int) -> Seq<Seq<char>>
    decreases s.len() - i,
{
    if i >= s.len() {
        if start < s.len() {
            seq![s.subrange(start, s.len() as int)]
        } else {
            Seq::empty()
        }
    } else if s[i] == '\n' {
        seq![strip_cr(s.subrange(start, i))] + lines_from(s, i + 1, i + 1)
    } else {
        lines_from(s, start, i + 1)
    }
}

/// The lines of `s`, split at each `\n` as `str::lines` splits them: a
/// final line break starts no empty line, and a final line without one
/// keeps all its characters.
pub open spec fn lines_of(s: Seq<char>) -> Seq<Seq<char>> {
    lines_from(s, 0, 0)
}

/// The line of `s` from `start` to a line feed at `end`, its carriage return dropped.
fn line_at(s: &str, start: usize, end: usize) -> (r: String)
    requires
        start <= end <= s@.len(),
    ensures
        r@ == strip_cr(s@.subrange(start as int, end as int)),
{
    let mut e = end;
    if e > start && s.get_char(e - 1) == '\r' {
        e = e - 1;
    }
    let r = String::from_str(s.substring_char(start, e));
    assert(r@ =~= strip_cr(s@.subrange(start as int, end as int)));
    r
}

/// Splits text into lines as `str::lines` does.
pub fn split_lines(s: &str) -> (r: Vec<String>)
    ensures
        r@.map_values(|l: String| l@) == lines_of(s@),
{
    let n = s.unicode_len();
    let mut r: Vec<String> = Vec::new();
    let mut start: usize = 0;
    let mut i: usize = 0;
    while i < n
        invariant
            n == s@.len(),
            start <= i <= n,
            r@.map_values(|l: String| l@) + lines_from(s@, start as int, i as int) == lines_of(s@),
        decreases n - i,
    {
        if s.get_char(i) == '\n' {
            let line = line_at(s, start, i);
            let ghost before = r@.map_values(|l: String| l@);
            r.push(line);
            assert(r@.map_values(|l: String| l@) =~= before.push(line@));
            assert(before + lines_from(s@, start as int, i as int) =~= r@.map_values(
                |l: String| l@,
            ) + lines_from(s@, i + 1, i + 1));
            start = i + 1;
        }
        i = i + 1;
    }
    if start < n {
        let line = String::from_str(s.substring_char(start, n));
        let ghost before = r@.map_values(|l: String| l@);
        r.push(line);
        assert(r@.map_values(|l: String| l@) =~= before.push(line@));
        assert(before + lines_from(s@, start as int, i as int) =~= r@.map_values(
            |l: String| l@,
        ));
    } else {
        assert(r@.map_values(|l: String| l@) =~= r@.map_values(|l: String| l@) + lines_from(
            s@,
            start as int,
            i as int,
        ));
    }
    r
}

/// The lines of `ls` from index `i` on that hold more than white space.
pub open spec fn nonblank_from(ls: Seq<Seq<char>>, i: int) -> Seq<Seq<char>>
    decreases ls.len() - i,
{
    if i >= ls.len() || i < 0 {
        Seq::empty()
    } else if trim_of(ls[i]).len() > 0 {
        seq![ls[i]] + nonblank_from(ls, i + 1)
    } else {
        nonblank_from(ls, i + 1)
    }
}

/// The lines of `s` that hold more than white space, in order.
pub open spec fn nonblank_lines(s: Seq<char>) -> Seq<Seq<char>> {
    nonblank_from(lines_of(s), 0)
}

/// The lines of a text that hold more than white space, in order.
pub fn nonblank_lines_of(s: &str) -> (r: Vec<String>)
    ensures
        r@.map_values(|l: String| l@) == nonblank_lines(s@),
{
    let all = split_lines(s);
    let ghost ls = lines_of(s@);
    let mut r: Vec<String> = Vec::new();
    let mut i: usize = 0;
    while i < all.len()
        invariant
            all@.map_values(|l: String| l@) == ls,
            ls == lines_of(s@),
            i <= all@.len(),
            r@.map_values(|l: String| l@) + nonblank_from(ls, i as int) == nonblank_from(ls, 0),
        decreases all@.len() - i,
    {
        let line = &all[i];
        assert(line@ == ls[i as int]);
        let t = trim_text(line.as_str());
        if t.as_str().unicode_len() > 0 {
            let ghost before = r@.map_values(|l: String| l@);
            r.push(line.clone());
            assert(r@.map_values(|l: String| l@) =~= before.push(line@));
            assert(before + nonblank_from(ls, i as int) =~= r@.map_values(|l: String| l@)
                + nonblank_from(ls, i + 1));
        }
        i = i + 1;
    }
    r
}

} // verus!
