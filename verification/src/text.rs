//! Character-level text processing: whitespace trimming, string equality,
//! splitting on a separator, and line splitting, each proved against a
//! spec-level model over `Seq<char>`.

use vstd::prelude::*;

verus! {

/// The Unicode `White_Space` code points, the set that `str::trim` removes.
pub open spec fn is_ws_char(c: char) -> bool {
    c == ' ' || c == '\t' || c == '\n' || c == '\u{b}' || c == '\u{c}' || c == '\r'
        || c == '\u{85}' || c == '\u{a0}' || c == '\u{1680}' || c == '\u{2000}'
        || c == '\u{2001}' || c == '\u{2002}' || c == '\u{2003}' || c == '\u{2004}'
        || c == '\u{2005}' || c == '\u{2006}' || c == '\u{2007}' || c == '\u{2008}'
        || c == '\u{2009}' || c == '\u{200a}' || c == '\u{2028}' || c == '\u{2029}'
        || c == '\u{202f}' || c == '\u{205f}' || c == '\u{3000}'
}

/// Decide membership in the whitespace set.
pub fn char_is_ws(c: char) -> (r: bool)
    ensures
        r == is_ws_char(c),
{
    c == ' ' || c == '\t' || c == '\n' || c == '\u{b}' || c == '\u{c}' || c == '\r'
        || c == '\u{85}' || c == '\u{a0}' || c == '\u{1680}' || c == '\u{2000}'
        || c == '\u{2001}' || c == '\u{2002}' || c == '\u{2003}' || c == '\u{2004}'
        || c == '\u{2005}' || c == '\u{2006}' || c == '\u{2007}' || c == '\u{2008}'
        || c == '\u{2009}' || c == '\u{200a}' || c == '\u{2028}' || c == '\u{2029}'
        || c == '\u{202f}' || c == '\u{205f}' || c == '\u{3000}'
}

/// Index of the first occurrence of `c` in `s`, or `s.len()` when absent.
pub open spec fn scan_to(s: Seq<char>, c: char) -> nat
    decreases s.len(),
{
    if s.len() == 0 {
        0
    } else if s[0] == c {
        0
    } else {
        1 + scan_to(s.drop_first(), c)
    }
}

/// `scan_to` is exactly the first index holding `c`, or the length when none does.
pub proof fn lemma_scan_to_is(s: Seq<char>, c: char, i: int)
    requires
        0 <= i <= s.len(),
        forall|j: int| 0 <= j < i ==> s[j] != c,
        i < s.len() ==> s[i] == c,
    ensures
        scan_to(s, c) == i,
    decreases i,
{
    if s.len() == 0 {
    } else if i == 0 {
    } else {
        assert(forall|j: int| 0 <= j < i - 1 ==> s.drop_first()[j] == s[j + 1]);
        lemma_scan_to_is(s.drop_first(), c, i - 1);
    }
}

/// `s` with its leading whitespace removed.
pub open spec fn trim_front(s: Seq<char>) -> Seq<char>
    decreases s.len(),
{
    if s.len() > 0 && is_ws_char(s[0]) {
        trim_front(s.drop_first())
    } else {
        s
    }
}

/// `s` with its trailing whitespace removed.
pub open spec fn trim_back(s: Seq<char>) -> Seq<char>
    decreases s.len(),
{
    if s.len() > 0 && is_ws_char(s[s.len() - 1]) {
        trim_back(s.drop_last())
    } else {
        s
    }
}

/// `s` with surrounding whitespace removed, the model of `str::trim`.
pub open spec fn spec_trim(s: Seq<char>) -> Seq<char> {
    trim_back(trim_front(s))
}

proof fn lemma_trim_front_at(s: Seq<char>, a: int)
    requires
        0 <= a <= s.len(),
        forall|j: int| 0 <= j < a ==> is_ws_char(s[j]),
        a < s.len() ==> !is_ws_char(s[a]),
    ensures
        trim_front(s) == s.subrange(a, s.len() as int),
    decreases a,
{
    if a == 0 {
        assert(s.subrange(0, s.len() as int) =~= s);
    } else {
        assert(is_ws_char(s[0]));
        lemma_trim_front_at(s.drop_first(), a - 1);
        assert(s.drop_first().subrange(a - 1, s.drop_first().len() as int) =~= s.subrange(
            a,
            s.len() as int,
        ));
    }
}

proof fn lemma_trim_back_at(s: Seq<char>, b: int)
    requires
        0 <= b <= s.len(),
        forall|j: int| b <= j < s.len() ==> is_ws_char(s[j]),
        b > 0 ==> !is_ws_char(s[b - 1]),
    ensures
        trim_back(s) == s.subrange(0, b),
    decreases s.len() - b,
{
    if b == s.len() {
        assert(s.subrange(0, b) =~= s);
    } else {
        assert(is_ws_char(s[s.len() - 1]));
        lemma_trim_back_at(s.drop_last(), b);
        assert(s.drop_last().subrange(0, b) =~= s.subrange(0, b));
    }
}

/// Remove surrounding whitespace, as `str::trim` does.
pub fn trim(s: &str) -> (r: &str)
    ensures
        r@ == spec_trim(s@),
{
    let len = s.unicode_len();
    let mut a: usize = 0;
    while a < len && char_is_ws(s.get_char(a))
        invariant
            len == s@.len(),
            0 <= a <= len,
            forall|j: int| 0 <= j < a ==> is_ws_char(s@[j]),
        decreases len - a,
    {
        a = a + 1;
    }
    let mut b: usize = len;
    while b > a && char_is_ws(s.get_char(b - 1))
        invariant
            len == s@.len(),
            0 <= a <= b <= len,
            forall|j: int| b <= j < len ==> is_ws_char(s@[j]),
        decreases b,
    {
        b = b - 1;
    }
    proof {
        lemma_trim_front_at(s@, a as int);
        let t = s@.subrange(a as int, s@.len() as int);
        assert(forall|j: int| b - a <= j < t.len() ==> is_ws_char(t[j]));
        lemma_trim_back_at(t, b - a);
        assert(t.subrange(0, b - a) =~= s@.subrange(a as int, b as int));
    }
    s.substring_char(a, b)
}

/// Find the first occurrence of `c` in `s` at or after `start`; `len` when absent.
fn find_from(s: &str, start: usize, len: usize, c: char) -> (j: usize)
    requires
        len == s@.len(),
        start <= len,
    ensures
        start <= j <= len,
        forall|k: int| start <= k < j ==> s@[k] != c,
        j < len ==> s@[j as int] == c,
        scan_to(s@.subrange(start as int, len as int), c) == j - start,
{
    let mut j: usize = start;
    while j < len && s.get_char(j) != c
        invariant
            len == s@.len(),
            start <= j <= len,
            forall|k: int| start <= k < j ==> s@[k] != c,
        decreases len - j,
    {
        j = j + 1;
    }
    proof {
        let suf = s@.subrange(start as int, len as int);
        assert(forall|k: int| 0 <= k < suf.len() ==> suf[k] == s@[k + start]);
        lemma_scan_to_is(suf, c, j - start);
    }
    j
}

/// Drop one trailing carriage return, as the line iterator does before `\n`.
pub open spec fn strip_cr(p: Seq<char>) -> Seq<char> {
    if p.len() > 0 && p[p.len() - 1] == '\r' {
        p.drop_last()
    } else {
        p
    }
}

/// The lines of `s`, the model of `str::lines`: split at `\n`, drop one `\r`
/// before each `\n`, and no final empty line for a trailing newline.
pub open spec fn spec_lines(s: Seq<char>) -> Seq<Seq<char>>
    decreases s.len(),
{
    if s.len() == 0 {
        Seq::empty()
    } else {
        let i = scan_to(s, '\n') as int;
        if i < s.len() {
            seq![strip_cr(s.subrange(0, i))] + spec_lines(s.subrange(i + 1, s.len() as int))
        } else {
            seq![s]
        }
    }
}

/// The parts of `s` split on `sep`, empties kept, the model of `str::split`.
pub open spec fn spec_split(s: Seq<char>, sep: char) -> Seq<Seq<char>>
    decreases s.len(),
{
    let i = scan_to(s, sep) as int;
    if i < s.len() {
        seq![s.subrange(0, i)] + spec_split(s.subrange(i + 1, s.len() as int), sep)
    } else {
        seq![s]
    }
}

/// Split `s` into its lines, as `str::lines` does.
pub fn lines_of(s: &str) -> (r: Vec<String>)
    ensures
        r.deep_view() == spec_lines(s@),
{
    let len = s.unicode_len();
    let mut out: Vec<String> = Vec::new();
    let mut start: usize = 0;
    proof {
        assert(out.deep_view() =~= Seq::<Seq<char>>::empty());
        assert(s@.subrange(0, len as int) =~= s@);
        assert(Seq::<Seq<char>>::empty() + spec_lines(s@) =~= spec_lines(s@));
    }
    while start < len
        invariant
            len == s@.len(),
            0 <= start <= len,
            spec_lines(s@) == out.deep_view() + spec_lines(
                s@.subrange(start as int, len as int),
            ),
        decreases len - start,
    {
        let ghost pre_dv = out.deep_view();
        let ghost suf = s@.subrange(start as int, len as int);
        let j = find_from(s, start, len, '\n');
        if j < len {
            let ghost p = s@.subrange(start as int, j as int);
            proof {
                assert(suf.subrange(0, (j - start) as int) =~= p);
            }
            let line = if j > start && s.get_char(j - 1) == '\r' {
                proof {
                    assert(p[p.len() - 1] == s@[j as int - 1]);
                    assert(strip_cr(p) =~= s@.subrange(start as int, j as int - 1));
                }
                s.substring_char(start, j - 1)
            } else {
                s.substring_char(start, j)
            };
            proof {
                assert(line@ == strip_cr(p));
            }
            out.push(String::from_str(line));
            proof {
                assert(out.deep_view() =~= pre_dv.push(strip_cr(p)));
                assert(suf.subrange((j - start + 1) as int, suf.len() as int) =~= s@.subrange(
                    j as int + 1,
                    len as int,
                ));
                assert(pre_dv + spec_lines(suf) =~= out.deep_view() + spec_lines(
                    s@.subrange(j as int + 1, len as int),
                ));
            }
            start = j + 1;
        } else {
            let line = s.substring_char(start, len);
            out.push(String::from_str(line));
            proof {
                assert(out.deep_view() =~= pre_dv.push(suf));
                assert(pre_dv + spec_lines(suf) =~= out.deep_view());
                assert(s@.subrange(len as int, len as int) =~= Seq::<char>::empty());
            }
            start = len;
        }
    }
    proof {
        assert(s@.subrange(start as int, len as int) =~= s@.subrange(len as int, len as int));
        assert(s@.subrange(len as int, len as int).len() == 0);
        assert(out.deep_view() + spec_lines(s@.subrange(start as int, len as int))
            =~= out.deep_view());
    }
    out
}

/// Split `s` on `sep`, keeping empty parts, as `str::split` does.
pub fn split_fields(s: &str, sep: char) -> (r: Vec<String>)
    ensures
        r.deep_view() == spec_split(s@, sep),
{
    let len = s.unicode_len();
    let mut out: Vec<String> = Vec::new();
    let mut start: usize = 0;
    proof {
        assert(out.deep_view() =~= Seq::<Seq<char>>::empty());
        assert(s@.subrange(0, len as int) =~= s@);
        assert(Seq::<Seq<char>>::empty() + spec_split(s@, sep) =~= spec_split(s@, sep));
    }
    loop
        invariant_except_break
            len == s@.len(),
            0 <= start <= len,
            spec_split(s@, sep) == out.deep_view() + spec_split(
                s@.subrange(start as int, len as int),
                sep,
            ),
        ensures
            out.deep_view() == spec_split(s@, sep),
        decreases len - start,
    {
        let ghost pre_dv = out.deep_view();
        let ghost suf = s@.subrange(start as int, len as int);
        let j = find_from(s, start, len, sep);
        let part = s.substring_char(start, j);
        proof {
            assert(suf.subrange(0, (j - start) as int) =~= s@.subrange(start as int, j as int));
        }
        out.push(String::from_str(part));
        proof {
            assert(out.deep_view() =~= pre_dv.push(s@.subrange(start as int, j as int)));
        }
        if j >= len {
            proof {
                assert(suf =~= s@.subrange(start as int, j as int));
                assert(pre_dv + spec_split(suf, sep) =~= out.deep_view());
            }
            break;
        }
        proof {
            assert(suf.subrange((j - start + 1) as int, suf.len() as int) =~= s@.subrange(
                j as int + 1,
                len as int,
            ));
            assert(pre_dv + spec_split(suf, sep) =~= out.deep_view() + spec_split(
                s@.subrange(j as int + 1, len as int),
                sep,
            ));
        }
        start = j + 1;
    }
    out
}

/// A ledger line matches `key` when it begins with the key followed by `|`.
pub open spec fn line_matches(line: Seq<char>, key: Seq<char>) -> bool {
    line.len() > key.len() && line.subrange(0, key.len() as int) == key && line[key.len() as int]
        == '|'
}

/// Does `line` begin with `key` immediately followed by `|`?
pub fn line_has_key(line: &str, key: &str) -> (r: bool)
    ensures
        r == line_matches(line@, key@),
{
    let klen = key.unicode_len();
    let llen = line.unicode_len();
    if llen <= klen {
        return false;
    }
    let mut i: usize = 0;
    while i < klen
        invariant
            klen == key@.len(),
            llen == line@.len(),
            klen < llen,
            0 <= i <= klen,
            forall|j: int| 0 <= j < i ==> line@[j] == key@[j],
        decreases klen - i,
    {
        if line.get_char(i) != key.get_char(i) {
            proof {
                assert(line@.subrange(0, klen as int)[i as int] == line@[i as int]);
            }
            return false;
        }
        i = i + 1;
    }
    proof {
        assert(line@.subrange(0, klen as int) =~= key@);
    }
    line.get_char(klen) == '|'
}

/// Character-for-character string equality.
pub fn str_eq(a: &str, b: &str) -> (r: bool)
    ensures
        r == (a@ == b@),
{
    let alen = a.unicode_len();
    let blen = b.unicode_len();
    if alen != blen {
        return false;
    }
    let mut i: usize = 0;
    while i < alen
        invariant
            alen == a@.len(),
            alen == b@.len(),
            0 <= i <= alen,
            forall|j: int| 0 <= j < i ==> a@[j] == b@[j],
        decreases alen - i,
    {
        if a.get_char(i) != b.get_char(i) {
            return false;
        }
        i = i + 1;
    }
    proof {
        assert(a@ =~= b@);
    }
    true
}

} // verus!
