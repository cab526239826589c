//! Character-level text utilities: whitespace trimming, string equality,
//! searching, and splitting a text into its lines.
use vstd::prelude::*;

verus! {

/// Whether `c` has the Unicode `White_Space` property, the set of characters
/// that surrounding-whitespace trimming removes.
pub open spec fn is_space_char(c: char) -> bool {
    c == '\u{9}' || c == '\u{a}' || c == '\u{b}' || c == '\u{c}' || c == '\u{d}' || c == ' '
        || c == '\u{85}' || c == '\u{a0}' || c == '\u{1680}' || c == '\u{2000}' || c == '\u{2001}'
        || c == '\u{2002}' || c == '\u{2003}' || c == '\u{2004}' || c == '\u{2005}'
        || c == '\u{2006}' || c == '\u{2007}' || c == '\u{2008}' || c == '\u{2009}'
        || c == '\u{200a}' || c == '\u{2028}' || c == '\u{2029}' || c == '\u{202f}'
        || c == '\u{205f}' || c == '\u{3000}'
}

/// `s` with leading whitespace removed.
pub open spec fn trim_front(s: Seq<char>) -> Seq<char>
    decreases s.len(),
{
    if s.len() > 0 && is_space_char(s[0]) {
        trim_front(s.drop_first())
    } else {
        s
    }
}

/// `s` with trailing whitespace removed.
pub open spec fn trim_back(s: Seq<char>) -> Seq<char>
    decreases s.len(),
{
    if s.len() > 0 && is_space_char(s.last()) {
        trim_back(s.drop_last())
    } else {
        s
    }
}

/// `s` with surrounding whitespace removed.
pub open spec fn trim_spec(s: Seq<char>) -> Seq<char> {
    trim_back(trim_front(s))
}

/// The segments of `s` between occurrences of `sep`, in order. The
/// separator belongs to no segment; a text with `n` separators has `n + 1`
/// segments.
pub open spec fn split_char(s: Seq<char>, sep: char) -> Seq<Seq<char>>
    decreases s.len(),
{
    if s.len() == 0 {
        seq![Seq::<char>::empty()]
    } else if s[0] == sep {
        seq![Seq::<char>::empty()] + split_char(s.drop_first(), sep)
    } else {
        let rest = split_char(s.drop_first(), sep);
        seq![seq![s[0]] + rest[0]] + rest.drop_first()
    }
}

/// The lines of a text: its segments between newline characters.
pub open spec fn split_nl(s: Seq<char>) -> Seq<Seq<char>> {
    split_char(s, '\n')
}

pub proof fn lemma_split_char_len(s: Seq<char>, sep: char)
    ensures
        split_char(s, sep).len() >= 1,
    decreases s.len(),
{
    if s.len() > 0 {
        lemma_split_char_len(s.drop_first(), sep);
    }
}

pub proof fn lemma_split_nl_len(s: Seq<char>)
    ensures
        split_nl(s).len() >= 1,
{
    lemma_split_char_len(s, '\n');
}

/// How `split_char` decomposes at the first separator: everything before it
/// is the first segment, and the rest of the text splits independently. A
/// text without the separator is one segment.
pub proof fn lemma_split_char_first(s: Seq<char>, sep: char, i: int)
    requires
        0 <= i <= s.len(),
        forall|j: int| 0 <= j < i ==> s[j] != sep,
        i < s.len() ==> s[i] == sep,
    ensures
        i < s.len() ==> split_char(s, sep) == seq![s.take(i)] + split_char(s.skip(i + 1), sep),
        i == s.len() ==> split_char(s, sep) == seq![s],
    decreases i,
{
    lemma_split_char_len(s, sep);
    if i == s.len() {
        if s.len() == 0 {
            assert(split_char(s, sep) =~~= seq![s]);
        } else {
            lemma_split_char_first(s.drop_first(), sep, i - 1);
            let rest = split_char(s.drop_first(), sep);
            assert(rest == seq![s.drop_first()]);
            assert(seq![s[0]] + rest[0] =~= s);
            assert(rest.drop_first() =~= Seq::<Seq<char>>::empty());
            assert(split_char(s, sep) == seq![seq![s[0]] + rest[0]] + rest.drop_first());
            assert(split_char(s, sep) =~~= seq![s]);
        }
    } else if i == 0 {
        assert(s.take(0) =~= Seq::<char>::empty());
        assert(s.skip(1) =~= s.drop_first());
        assert(split_char(s, sep) =~~= seq![s.take(0)] + split_char(s.skip(1), sep));
    } else {
        lemma_split_char_first(s.drop_first(), sep, i - 1);
        lemma_split_char_len(s.drop_first().skip(i), sep);
        let rest = split_char(s.drop_first(), sep);
        assert(rest == seq![s.drop_first().take(i - 1)] + split_char(s.drop_first().skip(i), sep));
        assert(seq![s[0]] + rest[0] =~= s.take(i));
        assert(rest.drop_first() =~= split_char(s.drop_first().skip(i), sep));
        assert(s.drop_first().skip(i) =~= s.skip(i + 1));
        assert(split_char(s, sep) =~~= seq![s.take(i)] + split_char(s.skip(i + 1), sep));
    }
}

pub proof fn lemma_split_nl_first(s: Seq<char>, i: int)
    requires
        0 <= i <= s.len(),
        forall|j: int| 0 <= j < i ==> s[j] != '\n',
        i < s.len() ==> s[i] == '\n',
    ensures
        i < s.len() ==> split_nl(s) == seq![s.take(i)] + split_nl(s.skip(i + 1)),
        i == s.len() ==> split_nl(s) == seq![s],
{
    lemma_split_char_first(s, '\n', i);
}

/// Whether `c` has the Unicode `White_Space` property.
pub fn is_space(c: char) -> (r: bool)
    ensures
        r == is_space_char(c),
{
    c == '\u{9}' || c == '\u{a}' || c == '\u{b}' || c == '\u{c}' || c == '\u{d}' || c == ' '
        || c == '\u{85}' || c == '\u{a0}' || c == '\u{1680}' || c == '\u{2000}' || c == '\u{2001}'
        || c == '\u{2002}' || c == '\u{2003}' || c == '\u{2004}' || c == '\u{2005}'
        || c == '\u{2006}' || c == '\u{2007}' || c == '\u{2008}' || c == '\u{2009}'
        || c == '\u{200a}' || c == '\u{2028}' || c == '\u{2029}' || c == '\u{202f}'
        || c == '\u{205f}' || c == '\u{3000}'
}

/// Whether two string slices hold the same characters.
pub fn str_eq(a: &str, b: &str) -> (r: bool)
    ensures
        r == (a@ == b@),
{
    let na = a.unicode_len();
    let nb = b.unicode_len();
    if na != nb {
        return false;
    }
    let mut i: usize = 0;
    while i < na
        invariant
            0 <= i <= na,
            na == a@.len(),
            na == b@.len(),
            forall|j: int| 0 <= j < i ==> a@[j] == b@[j],
        decreases na - i,
    {
        if a.get_char(i) != b.get_char(i) {
            return false;
        }
        i += 1;
    }
    proof {
        assert(a@ =~= b@);
    }
    true
}

/// The position of the first `target` at or after `from`, if any.
pub fn find_char_from(s: &str, from: usize, target: char) -> (r: Option<usize>)
    requires
        from <= s@.len(),
    ensures
        match r {
            Some(i) => from <= i < s@.len() && s@[i as int] == target && forall|j: int|
                from <= j < i ==> s@[j] != target,
            None => forall|j: int| from <= j < s@.len() ==> s@[j] != target,
        },
{
    let n = s.unicode_len();
    let mut i: usize = from;
    while i < n
        invariant
            from <= i <= n,
            n == s@.len(),
            forall|j: int| from <= j < i ==> s@[j] != target,
        decreases n - i,
    {
        if s.get_char(i) == target {
            return Some(i);
        }
        i += 1;
    }
    None
}

/// The slice of `s` with surrounding whitespace removed.
pub fn trim_str<'a>(s: &'a str) -> (r: &'a str)
    ensures
        r@ == trim_spec(s@),
{
    let n = s.unicode_len();
    proof {
        assert(s@.skip(0) =~= s@);
    }
    let mut lo: usize = 0;
    while lo < n && is_space(s.get_char(lo))
        invariant
            0 <= lo <= n,
            n == s@.len(),
            trim_front(s@) == trim_front(s@.skip(lo as int)),
        decreases n - lo,
    {
        proof {
            assert(s@.skip(lo as int).drop_first() =~= s@.skip(lo as int + 1));
        }
        lo += 1;
    }
    proof {
        if lo == n {
            assert(s@.skip(lo as int) =~= Seq::<char>::empty());
        }
        assert(trim_front(s@) == s@.skip(lo as int));
    }
    let mut hi: usize = n;
    while hi > lo && is_space(s.get_char(hi - 1))
        invariant
            lo <= hi <= n,
            n == s@.len(),
            trim_front(s@) == s@.skip(lo as int),
            trim_back(trim_front(s@)) == trim_back(s@.subrange(lo as int, hi as int)),
        decreases hi,
    {
        proof {
            assert(s@.subrange(lo as int, hi as int).drop_last() =~= s@.subrange(
                lo as int,
                hi as int - 1,
            ));
            assert(s@.subrange(lo as int, hi as int).last() == s@[hi - 1]);
        }
        hi -= 1;
    }
    proof {
        assert(trim_spec(s@) == s@.subrange(lo as int, hi as int));
    }
    s.substring_char(lo, hi)
}

/// Split `s` at every occurrence of `sep`, returning the segments in order;
/// there is always at least one segment.
pub fn split_str(s: &str, sep: char) -> (r: Vec<String>)
    ensures
        r@.map_values(|t: String| t@) == split_char(s@, sep),
        r@.len() >= 1,
{
    let ghost segs = split_char(s@, sep);
    proof {
        lemma_split_char_len(s@, sep);
        assert(s@.skip(0) =~= s@);
    }
    let n = s.unicode_len();
    let mut parts: Vec<String> = Vec::new();
    let mut pos: usize = 0;
    let ghost mut k: int = 0;
    let mut done = false;
    proof {
        assert(segs.skip(0) =~= segs);
        assert(parts@.map_values(|t: String| t@) =~= segs.take(0));
    }
    while !done
        invariant
            segs == split_char(s@, sep),
            n == s@.len(),
            0 <= pos <= n,
            0 <= k <= segs.len(),
            !done ==> k < segs.len(),
            !done ==> split_char(s@.skip(pos as int), sep) == segs.skip(k),
            done ==> k == segs.len(),
            parts@.map_values(|t: String| t@) == segs.take(k),
        decreases 2 * (segs.len() - k) + (if done {
            0int
        } else {
            1int
        }),
    {
        let ghost rem = s@.skip(pos as int);
        let seg_end: usize;
        match find_char_from(s, pos, sep) {
            Some(i) => {
                seg_end = i;
                proof {
                    assert forall|j: int| 0 <= j < i - pos implies rem[j] != sep by {
                        assert(rem[j] == s@[j + pos]);
                    }
                    assert(rem[i - pos] == s@[i as int]);
                    lemma_split_char_first(rem, sep, i - pos);
                    assert(rem.take(i - pos) =~= s@.subrange(pos as int, i as int));
                    assert(rem.skip(i - pos + 1) =~= s@.skip(i + 1));
                }
            },
            None => {
                seg_end = n;
                proof {
                    assert forall|j: int| 0 <= j < rem.len() implies rem[j] != sep by {
                        assert(rem[j] == s@[j + pos]);
                    }
                    lemma_split_char_first(rem, sep, rem.len() as int);
                    assert(rem =~= s@.subrange(pos as int, n as int));
                }
                done = true;
            },
        }
        proof {
            assert(segs.skip(k)[0] == segs[k]);
            assert(segs[k] == s@.subrange(pos as int, seg_end as int));
        }
        let ghost pre = parts@.map_values(|t: String| t@);
        parts.push(String::from_str(s.substring_char(pos, seg_end)));
        proof {
            assert(parts@.map_values(|t: String| t@) =~= pre.push(segs[k]));
            assert(segs.take(k).push(segs[k]) =~= segs.take(k + 1));
            assert(segs.skip(k).drop_first() =~= segs.skip(k + 1));
            if !done {
                lemma_split_char_len(s@.skip(seg_end + 1), sep);
            }
        }
        pos = if seg_end < n {
            seg_end + 1
        } else {
            n
        };
        proof {
            k = k + 1;
        }
    }
    proof {
        assert(segs.take(k) =~= segs);
    }
    parts
}

} // verus!
