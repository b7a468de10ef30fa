//! Text as sequences of characters: searching, replacing, splitting.
//!
//! Every function is specified over `Seq<char>`, the view of `str` and
//! `String`.

use vstd::prelude::*;

verus! {

/// `pat` occurs in `text` at index `i`.
pub open spec fn matches_at(text: Seq<char>, pat: Seq<char>, i: int) -> bool {
    &&& 0 <= i
    &&& i + pat.len() <= text.len()
    &&& text.subrange(i, i + pat.len()) == pat
}

/// `pat` occurs somewhere in `text`.
pub open spec fn occurs(text: Seq<char>, pat: Seq<char>) -> bool {
    exists|i: int| matches_at(text, pat, i)
}

/// `i` is the leftmost index at which `pat` occurs in `text`.
pub open spec fn is_first_match(text: Seq<char>, pat: Seq<char>, i: int) -> bool {
    &&& matches_at(text, pat, i)
    &&& forall|j: int| 0 <= j < i ==> !matches_at(text, pat, j)
}

/// The leftmost index at which `pat` occurs in `text`; meaningful only when
/// `occurs(text, pat)`.
pub open spec fn first_match(text: Seq<char>, pat: Seq<char>) -> int {
    choose|i: int| is_first_match(text, pat, i)
}

/// `text` with its leftmost occurrence of `pat` replaced by `sub`; `text`
/// itself when `pat` does not occur.
pub open spec fn replace_first(text: Seq<char>, pat: Seq<char>, sub: Seq<char>) -> Seq<char> {
    if occurs(text, pat) {
        let i = first_match(text, pat);
        text.subrange(0, i) + sub + text.subrange(i + pat.len(), text.len() as int)
    } else {
        text
    }
}

/// The leftmost match is unique, so `first_match` names it.
pub proof fn lemma_first_match_unique(text: Seq<char>, pat: Seq<char>, i: int)
    requires
        is_first_match(text, pat, i),
    ensures
        occurs(text, pat),
        first_match(text, pat) == i,
{
    let j = first_match(text, pat);
    assert(is_first_match(text, pat, j));
    if j < i {
        assert(!matches_at(text, pat, j));
    } else if i < j {
        assert(!matches_at(text, pat, i));
    }
}

/// The characters of `s`, in order.
pub fn chars_of(s: &str) -> (v: Vec<char>)
    ensures
        v@ == s@,
{
    let mut v: Vec<char> = Vec::new();
    for c in it: s.chars()
        invariant
            it.seq() == s@,
            v@ == it.seq().take(it.index()),
    {
        v.push(c);
    }
    v
}

/// Whether `pat` occurs in `text` at index `i`.
fn matches_here(text: &Vec<char>, pat: &Vec<char>, i: usize) -> (r: bool)
    requires
        i + pat.len() <= text.len(),
    ensures
        r == matches_at(text@, pat@, i as int),
{
    let mut k: usize = 0;
    while k < pat.len()
        invariant
            k <= pat.len(),
            i + pat.len() <= text.len(),
            forall|j: int| 0 <= j < k ==> text@[i + j] == pat@[j],
        decreases pat.len() - k,
    {
        if text[i + k] != pat[k] {
            assert(text@.subrange(i as int, i + pat.len())[k as int] != pat@[k as int]);
            return false;
        }
        k += 1;
    }
    assert(text@.subrange(i as int, i + pat.len()) =~= pat@);
    true
}

/// The leftmost index at which `pat` occurs in `text`, if it occurs.
pub fn find(text: &Vec<char>, pat: &Vec<char>) -> (r: Option<usize>)
    ensures
        match r {
            Some(i) => is_first_match(text@, pat@, i as int),
            None => !occurs(text@, pat@),
        },
{
    if pat.len() > text.len() {
        return None;
    }
    if pat.len() == 0 {
        assert(text@.subrange(0, 0) =~= pat@);
        return Some(0);
    }
    let last: usize = text.len() - pat.len();
    let mut i: usize = 0;
    while i <= last
        invariant
            i <= last + 1,
            last == text.len() - pat.len(),
            pat.len() > 0,
            forall|j: int| 0 <= j < i ==> !matches_at(text@, pat@, j),
        decreases last + 1 - i,
    {
        if matches_here(text, pat, i) {
            return Some(i);
        }
        i += 1;
    }
    None
}


/// `text` with its leftmost occurrence of `pat` replaced by `sub`.
pub fn replace_once(text: &str, pat: &str, sub: &str) -> (out: String)
    ensures
        out@ == replace_first(text@, pat@, sub@),
{
    let tv = chars_of(text);
    let pv = chars_of(pat);
    let n = tv.len();
    let m = pv.len();
    match find(&tv, &pv) {
        Some(i) => {
            proof {
                lemma_first_match_unique(text@, pat@, i as int);
            }
            assert(i + m <= n);
            let mut out = String::from_str(text.substring_char(0, i));
            out.append(sub);
            out.append(text.substring_char(i + m, n));
            out
        },
        None => String::from_str(text),
    }
}

/// `text` with every occurrence of `pat` replaced by `sub`, the occurrences
/// taken from the left and never overlapping. With an empty `pat` the
/// result is `text`.
pub open spec fn replace_all(text: Seq<char>, pat: Seq<char>, sub: Seq<char>) -> Seq<char>
    decreases text.len(),
{
    if pat.len() == 0 || text.len() < pat.len() {
        text
    } else if matches_at(text, pat, 0) {
        sub + replace_all(text.skip(pat.len() as int), pat, sub)
    } else {
        seq![text[0]] + replace_all(text.skip(1), pat, sub)
    }
}

/// An occurrence at index `i` of `text` is an occurrence at the head of
/// `text.skip(i)`, and the other way round.
proof fn lemma_match_in_suffix(text: Seq<char>, pat: Seq<char>, i: int)
    requires
        0 <= i <= text.len(),
    ensures
        matches_at(text, pat, i) == matches_at(text.skip(i), pat, 0),
{
    if i + pat.len() <= text.len() {
        assert(text.skip(i).subrange(0, pat.len() as int) =~= text.subrange(
            i,
            i + pat.len(),
        ));
    }
}

/// `text` with every occurrence of `pat` replaced by `sub`.
pub fn replace_every(text: &str, pat: &str, sub: &str) -> (out: String)
    ensures
        out@ == replace_all(text@, pat@, sub@),
{
    let tv = chars_of(text);
    let pv = chars_of(pat);
    let n = tv.len();
    let m = pv.len();
    if m == 0 || n < m {
        return String::from_str(text);
    }
    let mut out = String::new();
    let mut seg: usize = 0;
    let mut i: usize = 0;
    proof {
        assert(text@.skip(0) =~= text@);
        assert(out@ + text@.subrange(0, 0) =~= Seq::<char>::empty());
        assert(Seq::<char>::empty() + replace_all(text@, pat@, sub@) =~= replace_all(
            text@,
            pat@,
            sub@,
        ));
    }
    while i <= n - m
        invariant
            seg <= i <= n,
            n == tv.len(),
            m == pv.len(),
            0 < m <= n,
            tv@ == text@,
            pv@ == pat@,
            replace_all(text@, pat@, sub@) == out@ + text@.subrange(seg as int, i as int)
                + replace_all(text@.skip(i as int), pat@, sub@),
        decreases n - i,
    {
        let ghost rest = text@.skip(i as int);
        proof {
            lemma_match_in_suffix(text@, pat@, i as int);
        }
        if matches_here(&tv, &pv, i) {
            out.append(text.substring_char(seg, i));
            out.append(sub);
            proof {
                assert(rest.skip(m as int) =~= text@.skip(i + m));
                assert(text@.subrange(i + m, i + m) =~= Seq::<char>::empty());
            }
            i = i + m;
            seg = i;
        } else {
            proof {
                assert(rest.skip(1) =~= text@.skip(i + 1));
                assert(text@.subrange(seg as int, i as int) + seq![rest[0]] =~= text@.subrange(
                    seg as int,
                    i + 1,
                ));
            }
            i = i + 1;
        }
    }
    out.append(text.substring_char(seg, n));
    proof {
        assert(text@.subrange(seg as int, i as int) + text@.skip(i as int) =~= text@.subrange(
            seg as int,
            n as int,
        ));
    }
    out
}

/// `s` ends with `suffix`.
pub open spec fn ends_with(s: Seq<char>, suffix: Seq<char>) -> bool {
    matches_at(s, suffix, s.len() - suffix.len())
}

/// Whether `s` ends with `suffix`.
pub fn has_suffix(s: &str, suffix: &str) -> (r: bool)
    ensures
        r == ends_with(s@, suffix@),
{
    let sv = chars_of(s);
    let xv = chars_of(suffix);
    if xv.len() > sv.len() {
        return false;
    }
    matches_here(&sv, &xv, sv.len() - xv.len())
}

/// Whether `a` and `b` hold the same characters.
pub fn same_text(a: &str, b: &str) -> (r: bool)
    ensures
        r == (a@ == b@),
{
    let av = chars_of(a);
    let bv = chars_of(b);
    if av.len() != bv.len() {
        return false;
    }
    let r = matches_here(&av, &bv, 0);
    proof {
        assert(av@.subrange(0, bv@.len() as int) =~= av@);
    }
    r
}

/// The number of characters of `s` before its first `c`; the length of `s`
/// when `c` does not occur in it.
pub open spec fn prefix_len(s: Seq<char>, c: char) -> nat
    decreases s.len(),
{
    if s.len() == 0 || s[0] == c {
        0
    } else {
        1 + prefix_len(s.skip(1), c)
    }
}

/// What `prefix_len` is: no `c` before it, and `c` at it unless it is the
/// length of `s`.
pub proof fn lemma_prefix_len(s: Seq<char>, c: char)
    ensures
        prefix_len(s, c) <= s.len(),
        forall|k: int| 0 <= k < prefix_len(s, c) ==> s[k] != c,
        prefix_len(s, c) < s.len() ==> s[prefix_len(s, c) as int] == c,
    decreases s.len(),
{
    if s.len() == 0 || s[0] == c {
    } else {
        let t = s.skip(1);
        lemma_prefix_len(t, c);
        let p = prefix_len(t, c);
        assert forall|k: int| 0 <= k < prefix_len(s, c) implies s[k] != c by {
            if k > 0 {
                assert(t[k - 1] == s[k]);
            }
        }
        if p < t.len() {
            assert(t[p as int] == s[p as int + 1]);
        }
    }
}

/// An index with no `c` before it, and `c` at it unless it is the length of
/// `s`, is `prefix_len`.
pub proof fn lemma_prefix_len_is(s: Seq<char>, c: char, p: int)
    requires
        0 <= p <= s.len(),
        forall|k: int| 0 <= k < p ==> s[k] != c,
        p < s.len() ==> s[p] == c,
    ensures
        prefix_len(s, c) == p,
    decreases s.len(),
{
    if p > 0 {
        let t = s.skip(1);
        assert(s[0] != c);
        assert forall|k: int| 0 <= k < p - 1 implies t[k] != c by {
            assert(t[k] == s[k + 1]);
        }
        if p - 1 < t.len() {
            assert(t[p - 1] == s[p]);
        }
        lemma_prefix_len_is(t, c, p - 1);
    }
}

/// The part of `s` before its first `c`; all of `s` when `c` does not occur.
pub open spec fn before(s: Seq<char>, c: char) -> Seq<char> {
    s.take(prefix_len(s, c) as int)
}

/// The part of `s` after its first `c`; empty when `c` does not occur.
pub open spec fn after(s: Seq<char>, c: char) -> Seq<char> {
    if prefix_len(s, c) < s.len() {
        s.skip(prefix_len(s, c) as int + 1)
    } else {
        Seq::empty()
    }
}

/// The index of the first `c` in `v` at or after `from`, or the length of `v`.
pub fn index_of(v: &Vec<char>, from: usize, c: char) -> (p: usize)
    requires
        from <= v.len(),
    ensures
        from <= p <= v.len(),
        p - from == prefix_len(v@.skip(from as int), c),
{
    let mut p: usize = from;
    while p < v.len() && v[p] != c
        invariant
            from <= p <= v.len(),
            forall|k: int| from <= k < p ==> v@[k] != c,
        decreases v.len() - p,
    {
        p += 1;
    }
    proof {
        lemma_prefix_len_is(v@.skip(from as int), c, p - from);
    }
    p
}

/// `line` without one carriage return at its end.
pub open spec fn without_cr(line: Seq<char>) -> Seq<char> {
    if line.len() > 0 && line.last() == '\r' {
        line.drop_last()
    } else {
        line
    }
}

/// The lines of `s`. A line ends at a line feed, or at a carriage return
/// directly followed by one; neither belongs to the line. What follows the
/// last line feed is a line of its own unless it is empty.
pub open spec fn lines(s: Seq<char>) -> Seq<Seq<char>>
    decreases s.len(),
{
    if s.len() == 0 {
        Seq::empty()
    } else if prefix_len(s, '\n') < s.len() {
        seq![without_cr(before(s, '\n'))] + lines(after(s, '\n'))
    } else {
        seq![s]
    }
}

/// Each line of `ls` behind two spaces and before a line feed.
pub open spec fn indent_each(ls: Seq<Seq<char>>) -> Seq<char>
    decreases ls.len(),
{
    if ls.len() == 0 {
        Seq::empty()
    } else {
        "  "@ + ls[0] + "\n"@ + indent_each(ls.skip(1))
    }
}

/// The lines of `block`, each indented by two spaces and ended by a line
/// feed.
pub open spec fn indented(block: Seq<char>) -> Seq<char> {
    indent_each(lines(block))
}

/// Appends `indented(block)` to `out`.
pub fn indent_lines(out: &mut String, block: &str)
    ensures
        final(out)@ == old(out)@ + indented(block@),
{
    let v = chars_of(block);
    let n = v.len();
    let ghost goal = out@ + indented(block@);
    let mut start: usize = 0;
    proof {
        assert(block@.skip(0) =~= block@);
    }
    while start < n
        invariant
            start <= n,
            n == v.len(),
            v@ == block@,
            goal == out@ + indented(block@.skip(start as int)),
        decreases n - start,
    {
        let end = index_of(&v, start, '\n');
        let ghost rest = block@.skip(start as int);
        let ghost done = out@;
        out.append("  ");
        if end < n {
            let stop = if end > start && v[end - 1] == '\r' {
                end - 1
            } else {
                end
            };
            out.append(block.substring_char(start, stop));
            out.append("\n");
            proof {
                let line = block@.subrange(start as int, stop as int);
                assert(before(rest, '\n') =~= block@.subrange(start as int, end as int));
                assert(without_cr(before(rest, '\n')) =~= line);
                assert(after(rest, '\n') =~= block@.skip(end + 1));
                let ls = seq![line] + lines(block@.skip(end + 1));
                assert(lines(rest) == ls);
                assert(ls.skip(1) =~= lines(block@.skip(end + 1)));
                assert(out@ =~= done + ("  "@ + line + "\n"@));
            }
            start = end + 1;
        } else {
            out.append(block.substring_char(start, n));
            out.append("\n");
            proof {
                assert(block@.subrange(start as int, n as int) =~= rest);
                let ls = seq![rest];
                assert(lines(rest) == ls);
                assert(ls.skip(1) =~= Seq::<Seq<char>>::empty());
                assert(indent_each(ls.skip(1)) =~= Seq::<char>::empty());
                assert(block@.skip(n as int) =~= Seq::<char>::empty());
                assert(out@ =~= done + ("  "@ + rest + "\n"@));
                assert(indent_each(ls) =~= "  "@ + rest + "\n"@);
            }
            start = n;
        }
    }
    proof {
        assert(block@.skip(n as int) =~= Seq::<char>::empty());
    }
}

/// White space as Unicode defines it (the property White_Space).
pub open spec fn is_whitespace(c: char) -> bool {
    let n: u32 = c as u32;
    ||| 0x09 <= n <= 0x0d
    ||| n == 0x20
    ||| n == 0x85
    ||| n == 0xa0
    ||| n == 0x1680
    ||| 0x2000 <= n <= 0x200a
    ||| n == 0x2028
    ||| n == 0x2029
    ||| n == 0x202f
    ||| n == 0x205f
    ||| n == 0x3000
}

/// Whether `c` is white space.
pub fn is_space(c: char) -> (r: bool)
    ensures
        r == is_whitespace(c),
{
    let n: u32 = c as u32;
    (0x09 <= n && n <= 0x0d) || n == 0x20 || n == 0x85 || n == 0xa0 || n == 0x1680 || (0x2000 <= n
        && n <= 0x200a) || n == 0x2028 || n == 0x2029 || n == 0x202f || n == 0x205f || n == 0x3000
}

/// `s` without the white space at its start.
pub open spec fn trim_start(s: Seq<char>) -> Seq<char>
    decreases s.len(),
{
    if s.len() > 0 && is_whitespace(s[0]) {
        trim_start(s.skip(1))
    } else {
        s
    }
}

/// `s` without the white space at its end.
pub open spec fn trim_end(s: Seq<char>) -> Seq<char>
    decreases s.len(),
{
    if s.len() > 0 && is_whitespace(s.last()) {
        trim_end(s.drop_last())
    } else {
        s
    }
}

/// `s` without the white space at its start and at its end.
pub open spec fn trimmed(s: Seq<char>) -> Seq<char> {
    trim_end(trim_start(s))
}

/// `s` without the white space at its start and at its end.
pub fn trim(s: &str) -> (out: String)
    ensures
        out@ == trimmed(s@),
{
    let v = chars_of(s);
    let n = v.len();
    let mut a: usize = 0;
    proof {
        assert(s@.skip(0) =~= s@);
    }
    while a < n && is_space(v[a])
        invariant
            a <= n,
            n == v.len(),
            v@ == s@,
            trim_start(s@) == trim_start(s@.skip(a as int)),
        decreases n - a,
    {
        proof {
            assert(s@.skip(a as int).skip(1) =~= s@.skip(a + 1));
        }
        a += 1;
    }
    let mut b: usize = n;
    proof {
        assert(s@.subrange(a as int, n as int) =~= s@.skip(a as int));
    }
    while b > a && is_space(v[b - 1])
        invariant
            a <= b <= n,
            n == v.len(),
            v@ == s@,
            trimmed(s@) == trim_end(s@.subrange(a as int, b as int)),
        decreases b - a,
    {
        proof {
            assert(s@.subrange(a as int, b as int).drop_last() =~= s@.subrange(
                a as int,
                b - 1,
            ));
        }
        b -= 1;
    }
    String::from_str(s.substring_char(a, b))
}

/// The first `n` characters of `s`, when it has that many.
pub fn leading_chars(s: &str, n: usize) -> (r: Option<String>)
    ensures
        match r {
            Some(head) => n <= s@.len() && head@ == s@.take(n as int),
            None => s@.len() < n,
        },
{
    if s.unicode_len() < n {
        None
    } else {
        Some(String::from_str(s.substring_char(0, n)))
    }
}

} // verus!
