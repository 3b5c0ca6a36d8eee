use vstd::prelude::*;
use vstd::string::{StrSliceExecFns, StringExecFns};

verus! {

/// `p` occurs in `s` at position `i`.
pub open spec fn occurs_at(s: Seq<char>, p: Seq<char>, i: int) -> bool {
    0 <= i && i + p.len() <= s.len() && s.subrange(i, i + p.len()) == p
}

pub open spec fn starts_with(s: Seq<char>, p: Seq<char>) -> bool {
    occurs_at(s, p, 0)
}

pub open spec fn ends_with(s: Seq<char>, p: Seq<char>) -> bool {
    p.len() <= s.len() && occurs_at(s, p, s.len() - p.len())
}

pub open spec fn contains(s: Seq<char>, p: Seq<char>) -> bool {
    exists|i: int| occurs_at(s, p, i)
}

/// `s` with every occurrence of `p` taken out, matching from the left without
/// overlap (what `str::replace` with an empty replacement gives).
pub open spec fn remove_all(s: Seq<char>, p: Seq<char>) -> Seq<char>
    decreases s.len(),
{
    if p.len() == 0 || s.len() < p.len() {
        s
    } else if s.take(p.len() as int) == p {
        remove_all(s.skip(p.len() as int), p)
    } else {
        seq![s[0]] + remove_all(s.skip(1), p)
    }
}

/// `s` with `p` taken off its end as many times as it ends with it (what
/// `str::trim_end_matches` gives).
pub open spec fn trim_end_all(s: Seq<char>, p: Seq<char>) -> Seq<char>
    decreases s.len(),
{
    if p.len() > 0 && ends_with(s, p) {
        trim_end_all(s.take(s.len() - p.len()), p)
    } else {
        s
    }
}

/// The parts joined with a space between each two.
pub open spec fn join_spaces(parts: Seq<Seq<char>>) -> Seq<char>
    decreases parts.len(),
{
    if parts.len() == 0 {
        Seq::empty()
    } else if parts.len() == 1 {
        parts[0]
    } else {
        join_spaces(parts.drop_last()) + seq![' '] + parts.last()
    }
}

/// Whether `p` occurs in `s` at position `i`.
pub fn occurs_at_exec(s: &str, p: &str, i: usize) -> (r: bool)
    ensures
        r == occurs_at(s@, p@, i as int),
{
    let slen = s.unicode_len();
    let plen = p.unicode_len();
    if i > slen || plen > slen - i {
        return false;
    }
    let mut j: usize = 0;
    while j < plen
        invariant
            slen == s@.len(),
            plen == p@.len(),
            i + plen <= slen,
            j <= plen,
            forall|k: int| 0 <= k < j ==> s@[i + k] == p@[k],
        decreases plen - j,
    {
        if s.get_char(i + j) != p.get_char(j) {
            proof {
                assert(s@.subrange(i as int, i + plen)[j as int] != p@[j as int]);
            }
            return false;
        }
        j = j + 1;
    }
    proof {
        assert(s@.subrange(i as int, i + plen) =~= p@);
    }
    true
}

pub fn has_prefix(s: &str, p: &str) -> (r: bool)
    ensures
        r == starts_with(s@, p@),
{
    occurs_at_exec(s, p, 0)
}

pub fn has_suffix(s: &str, p: &str) -> (r: bool)
    ensures
        r == ends_with(s@, p@),
{
    let slen = s.unicode_len();
    let plen = p.unicode_len();
    if plen > slen {
        return false;
    }
    occurs_at_exec(s, p, slen - plen)
}

pub fn has_substring(s: &str, p: &str) -> (r: bool)
    ensures
        r == contains(s@, p@),
{
    let slen = s.unicode_len();
    let plen = p.unicode_len();
    if plen > slen {
        proof {
            assert forall|i: int| !occurs_at(s@, p@, i) by {}
        }
        return false;
    }
    let last = slen - plen;
    let mut i: usize = 0;
    while i < last
        invariant
            slen == s@.len(),
            plen == p@.len(),
            last == slen - plen,
            i <= last,
            forall|k: int| 0 <= k < i ==> !occurs_at(s@, p@, k),
        decreases last - i,
    {
        if occurs_at_exec(s, p, i) {
            return true;
        }
        i = i + 1;
    }
    if occurs_at_exec(s, p, last) {
        return true;
    }
    proof {
        assert forall|k: int| !occurs_at(s@, p@, k) by {
            if 0 <= k < i {
            }
        }
    }
    false
}

proof fn lemma_remove_all_step(s: Seq<char>, p: Seq<char>, i: int)
    requires
        p.len() > 0,
        0 <= i <= s.len(),
    ensures
        occurs_at(s, p, i) ==> remove_all(s.skip(i), p) == remove_all(s.skip(i + p.len()), p),
        i < s.len() && !occurs_at(s, p, i) ==> remove_all(s.skip(i), p) == seq![s[i]]
            + remove_all(s.skip(i + 1), p),
        s.len() - i < p.len() ==> remove_all(s.skip(i), p) == s.skip(i),
{
    let t = s.skip(i);
    if t.len() >= p.len() {
        assert(t.take(p.len() as int) =~= s.subrange(i, i + p.len()));
        assert(t.skip(p.len() as int) =~= s.skip(i + p.len()));
        assert(t.skip(1) =~= s.skip(i + 1));
    } else if i < s.len() {
        assert(!occurs_at(s, p, i));
    }
}

/// `s` with every occurrence of `p` taken out, as `str::replace(p, "")` does.
pub fn remove_matches(s: &str, p: &str) -> (r: String)
    ensures
        r@ == remove_all(s@, p@),
{
    let slen = s.unicode_len();
    let plen = p.unicode_len();
    if plen == 0 {
        return String::from_str(s);
    }
    let mut out = String::new();
    let mut start: usize = 0;
    let mut i: usize = 0;
    proof {
        assert(s@.skip(0) =~= s@);
        assert(out@ + s@.subrange(0, 0) =~= Seq::<char>::empty());
    }
    while i < slen
        invariant
            slen == s@.len(),
            plen == p@.len(),
            plen > 0,
            start <= i <= slen,
            out@ + s@.subrange(start as int, i as int) + remove_all(s@.skip(i as int), p@)
                == remove_all(s@, p@),
        decreases slen - i,
    {
        proof {
            lemma_remove_all_step(s@, p@, i as int);
        }
        if occurs_at_exec(s, p, i) {
            let piece = s.substring_char(start, i);
            let ghost before = out@;
            out.append(piece);
            proof {
                assert(out@ + s@.subrange((i + plen) as int, (i + plen) as int) =~= before
                    + s@.subrange(start as int, i as int));
            }
            i = i + plen;
            start = i;
        } else {
            proof {
                assert(s@.subrange(start as int, i as int) + (seq![s@[i as int]] + remove_all(
                    s@.skip(i + 1),
                    p@,
                )) =~= s@.subrange(start as int, i + 1) + remove_all(s@.skip(i + 1), p@));
            }
            i = i + 1;
        }
    }
    proof {
        lemma_remove_all_step(s@, p@, i as int);
        assert(s@.skip(i as int) =~= Seq::<char>::empty());
    }
    let piece = s.substring_char(start, i);
    out.append(piece);
    proof {
        assert(out@ =~= remove_all(s@, p@));
    }
    out
}

/// `s` without the copies of `p` at its end, as `str::trim_end_matches(p)` does.
pub fn trim_end_matches<'a>(s: &'a str, p: &str) -> (r: &'a str)
    ensures
        r@ == trim_end_all(s@, p@),
{
    let slen = s.unicode_len();
    let plen = p.unicode_len();
    let mut end: usize = slen;
    if plen == 0 {
        proof {
            assert(s@.subrange(0, slen as int) =~= s@);
        }
        return s.substring_char(0, slen);
    }
    proof {
        assert(s@.take(slen as int) =~= s@);
    }
    while end >= plen && occurs_at_exec(s, p, end - plen)
        invariant
            slen == s@.len(),
            plen == p@.len(),
            plen > 0,
            end <= slen,
            trim_end_all(s@.take(end as int), p@) == trim_end_all(s@, p@),
        decreases end,
    {
        proof {
            let t = s@.take(end as int);
            assert(t.subrange(end - plen, end as int) =~= s@.subrange(end - plen, end as int));
            assert(t.take(end - plen) =~= s@.take(end - plen));
        }
        end = end - plen;
    }
    proof {
        let t = s@.take(end as int);
        if plen <= end {
            assert(t.subrange(end - plen, end as int) =~= s@.subrange(end - plen, end as int));
        }
        assert(s@.take(slen as int) =~= s@);
        assert(s@.subrange(0, end as int) =~= t);
    }
    s.substring_char(0, end)
}

/// The strings joined with a space between each two, as `[String]::join(" ")` does.
pub fn join_with_spaces(parts: &Vec<String>) -> (r: String)
    ensures
        r@ == join_spaces(parts@.map_values(|x: String| x@)),
{
    let ghost views = parts@.map_values(|x: String| x@);
    let mut out = String::new();
    let mut i: usize = 0;
    while i < parts.len()
        invariant
            views == parts@.map_values(|x: String| x@),
            i <= parts@.len(),
            out@ == join_spaces(views.take(i as int)),
        decreases parts@.len() - i,
    {
        proof {
            assert(views.take(i + 1).drop_last() =~= views.take(i as int));
        }
        if i > 0 {
            out.append(" ");
        }
        out.append(parts[i].as_str());
        proof {
            if i == 0 {
                assert(out@ =~= views.take(1)[0]);
            } else {
                reveal_strlit(" ");
                assert(out@ =~= join_spaces(views.take(i as int)) + seq![' '] + views.take(i + 1).last());
            }
        }
        i = i + 1;
    }
    proof {
        assert(views.take(parts@.len() as int) =~= views);
    }
    out
}

/// Whether `c` has the Unicode `White_Space` property, which is what
/// `char::is_whitespace` tests.
pub open spec fn is_white_space(c: char) -> bool {
    let u = c as u32;
    ||| 0x9 <= u <= 0xd
    ||| u == 0x20
    ||| u == 0x85
    ||| u == 0xa0
    ||| u == 0x1680
    ||| 0x2000 <= u <= 0x200a
    ||| u == 0x2028
    ||| u == 0x2029
    ||| u == 0x202f
    ||| u == 0x205f
    ||| u == 0x3000
}

/// The first position at or after `i` that holds no white space, or the end.
pub open spec fn next_non_white(s: Seq<char>, i: int) -> int
    decreases s.len() - i,
{
    if i < 0 || i >= s.len() {
        s.len() as int
    } else if is_white_space(s[i]) {
        next_non_white(s, i + 1)
    } else {
        i
    }
}

/// The first position at or after `i` that holds white space, or the end.
pub open spec fn next_white(s: Seq<char>, i: int) -> int
    decreases s.len() - i,
{
    if i < 0 || i >= s.len() {
        s.len() as int
    } else if is_white_space(s[i]) {
        i
    } else {
        next_white(s, i + 1)
    }
}

/// The first word of `s`, words being the runs of characters between white space
/// (what `str::split_whitespace().next()` gives).
pub open spec fn first_word_spec(s: Seq<char>) -> Option<Seq<char>> {
    let a = next_non_white(s, 0);
    if a >= s.len() {
        None
    } else {
        Some(s.subrange(a, next_white(s, a)))
    }
}

pub fn is_white_space_exec(c: char) -> (r: bool)
    ensures
        r == is_white_space(c),
{
    let u = c as u32;
    (0x9 <= u && u <= 0xd) || u == 0x20 || u == 0x85 || u == 0xa0 || u == 0x1680 || (0x2000 <= u
        && u <= 0x200a) || u == 0x2028 || u == 0x2029 || u == 0x202f || u == 0x205f || u == 0x3000
}

/// The first word of `s`, if it has one.
pub fn first_word(s: &str) -> (r: Option<String>)
    ensures
        r is None <==> first_word_spec(s@) is None,
        r matches Some(w) ==> first_word_spec(s@) == Some(w@),
{
    let len = s.unicode_len();
    let mut i: usize = 0;
    while i < len && is_white_space_exec(s.get_char(i))
        invariant
            len == s@.len(),
            i <= len,
            next_non_white(s@, 0) == next_non_white(s@, i as int),
        decreases len - i,
    {
        i = i + 1;
    }
    if i == len {
        return None;
    }
    let mut j: usize = i;
    while j < len && !is_white_space_exec(s.get_char(j))
        invariant
            len == s@.len(),
            i <= j <= len,
            next_white(s@, i as int) == next_white(s@, j as int),
        decreases len - j,
    {
        j = j + 1;
    }
    let w = String::from_str(s.substring_char(i, j));
    Some(w)
}

/// The characters with the Unicode `White_Space` property, listed one by one.
pub open spec fn white_space_chars() -> Seq<char> {
    seq![
        '\u{9}', '\u{a}', '\u{b}', '\u{c}', '\u{d}', ' ', '\u{85}', '\u{a0}', '\u{1680}',
        '\u{2000}', '\u{2001}', '\u{2002}', '\u{2003}', '\u{2004}', '\u{2005}', '\u{2006}',
        '\u{2007}', '\u{2008}', '\u{2009}', '\u{200a}', '\u{2028}', '\u{2029}', '\u{202f}',
        '\u{205f}', '\u{3000}',
    ]
}

/// White space is exactly the listed `White_Space` characters: tab, line feed,
/// vertical tab, form feed, carriage return, space, next line, no-break space and
/// the other spaces and separators of Unicode.
pub proof fn lemma_white_space_is_unicode_white_space(c: char)
    ensures
        is_white_space(c) <==> white_space_chars().contains(c),
{
    let l = white_space_chars();
    let u = c as u32;
    if is_white_space(c) {
        let k: int = if u <= 0xd {
            u - 0x9
        } else if u == 0x20 {
            5
        } else if u == 0x85 {
            6
        } else if u == 0xa0 {
            7
        } else if u == 0x1680 {
            8
        } else if u <= 0x200a {
            u - 0x2000 + 9
        } else if u == 0x2028 {
            20
        } else if u == 0x2029 {
            21
        } else if u == 0x202f {
            22
        } else if u == 0x205f {
            23
        } else {
            24
        };
        assert(l[k] as u32 == u);
        assert(l[k] == c);
    }
    if l.contains(c) {
        let k = choose|k: int| 0 <= k < l.len() && l[k] == c;
        assert(is_white_space(l[k]));
    }
}

/// Where `next_non_white` stops: everything skipped is white space, and it stops at
/// a character that is not, or at the end.
pub proof fn lemma_next_non_white(s: Seq<char>, i: int)
    requires
        0 <= i <= s.len(),
    ensures
        i <= next_non_white(s, i) <= s.len(),
        forall|k: int| i <= k < next_non_white(s, i) ==> is_white_space(#[trigger] s[k]),
        next_non_white(s, i) < s.len() ==> !is_white_space(s[next_non_white(s, i)]),
    decreases s.len() - i,
{
    if i < s.len() && is_white_space(s[i]) {
        lemma_next_non_white(s, i + 1);
    }
}

/// Where `next_white` stops: everything skipped is not white space, and it stops at
/// white space, or at the end.
pub proof fn lemma_next_white(s: Seq<char>, i: int)
    requires
        0 <= i <= s.len(),
    ensures
        i <= next_white(s, i) <= s.len(),
        forall|k: int| i <= k < next_white(s, i) ==> !is_white_space(#[trigger] s[k]),
        next_white(s, i) < s.len() ==> is_white_space(s[next_white(s, i)]),
    decreases s.len() - i,
{
    if i < s.len() && !is_white_space(s[i]) {
        lemma_next_white(s, i + 1);
    }
}

/// The first word is a non-empty run of characters that are not white space, with
/// only white space before it in `s` and white space or the end of `s` after it;
/// there is none exactly when `s` is all white space.
pub proof fn lemma_first_word(s: Seq<char>)
    ensures
        first_word_spec(s) is None <==> forall|k: int| 0 <= k < s.len() ==> is_white_space(
            #[trigger] s[k],
        ),
        first_word_spec(s) matches Some(w) ==> {
            &&& w.len() > 0
            &&& forall|k: int| 0 <= k < w.len() ==> !is_white_space(#[trigger] w[k])
            &&& exists|a: int|
                0 <= a && a + w.len() <= s.len() && #[trigger] s.skip(a).take(w.len() as int) == w
                    && (forall|
                    k: int,
                | 0 <= k < a ==> is_white_space(#[trigger] s[k])) && (a + w.len() == s.len()
                    || is_white_space(s[a + w.len()]))
        },
{
    lemma_next_non_white(s, 0);
    let a = next_non_white(s, 0);
    if a < s.len() {
        lemma_next_white(s, a);
        let b = next_white(s, a);
        let w = s.subrange(a, b);
        assert forall|k: int| 0 <= k < w.len() implies !is_white_space(#[trigger] w[k]) by {
            assert(w[k] == s[a + k]);
        }
        assert(s.skip(a).take(w.len() as int) =~= w);
        assert(!is_white_space(s[a]));
        assert(b > a);
        assert(w.len() == b - a);
        assert(first_word_spec(s) == Some(w));
        assert(0 <= a && a + w.len() <= s.len() && s.skip(a).take(w.len() as int) == w && (forall|
            k: int,
        | 0 <= k < a ==> is_white_space(#[trigger] s[k])) && (a + w.len() == s.len()
            || is_white_space(s[a + w.len()])));
    }
}

} // verus!
