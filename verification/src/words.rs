//! Turning the raw word-list text into words: split on newlines, trim each
//! line, and drop empty lines so that no empty alternative can reach the
//! pattern.

use vstd::prelude::*;
use vstd::std_specs::iter::IteratorSpec;

verus! {

/// The characters trimmed from the ends of each word-list line: the Unicode
/// white-space characters.
pub open spec fn is_space(c: char) -> bool {
    c == '\t' || c == '\n' || c == '\u{000B}' || c == '\u{000C}' || c == '\r' || c == ' '
        || c == '\u{0085}' || c == '\u{00A0}' || c == '\u{1680}' || c == '\u{2000}'
        || c == '\u{2001}' || c == '\u{2002}' || c == '\u{2003}' || c == '\u{2004}'
        || c == '\u{2005}' || c == '\u{2006}' || c == '\u{2007}' || c == '\u{2008}'
        || c == '\u{2009}' || c == '\u{200A}' || c == '\u{2028}' || c == '\u{2029}'
        || c == '\u{202F}' || c == '\u{205F}' || c == '\u{3000}'
}

/// Drops leading whitespace.
pub open spec fn trim_front(s: Seq<char>) -> Seq<char>
    decreases s.len(),
{
    if s.len() > 0 && is_space(s[0]) {
        trim_front(s.drop_first())
    } else {
        s
    }
}

/// Drops trailing whitespace.
pub open spec fn trim_back(s: Seq<char>) -> Seq<char>
    decreases s.len(),
{
    if s.len() > 0 && is_space(s.last()) {
        trim_back(s.drop_last())
    } else {
        s
    }
}

/// Drops whitespace from both ends.
pub open spec fn trim_spec(s: Seq<char>) -> Seq<char> {
    trim_back(trim_front(s))
}

/// Position of the first newline in `s`, or -1 if there is none.
pub open spec fn find_newline(s: Seq<char>) -> int
    decreases s.len(),
{
    if s.len() == 0 {
        -1
    } else if s[0] == '\n' {
        0
    } else {
        let r = find_newline(s.drop_first());
        if r < 0 {
            -1
        } else {
            r + 1
        }
    }
}

proof fn lemma_find_newline_bounds(s: Seq<char>)
    ensures
        -1 <= find_newline(s) < s.len(),
        find_newline(s) >= 0 ==> s[find_newline(s)] == '\n',
    decreases s.len(),
{
    if s.len() > 0 && s[0] != '\n' {
        lemma_find_newline_bounds(s.drop_first());
    }
}

proof fn lemma_find_newline_none(s: Seq<char>)
    requires
        forall|i: int| 0 <= i < s.len() ==> s[i] != '\n',
    ensures
        find_newline(s) == -1,
    decreases s.len(),
{
    if s.len() > 0 {
        assert(forall|i: int| 0 <= i < s.drop_first().len() ==> s.drop_first()[i] == s[i + 1]);
        lemma_find_newline_none(s.drop_first());
    }
}

proof fn lemma_find_newline_at(s: Seq<char>, k: int)
    requires
        0 <= k < s.len(),
        s[k] == '\n',
        forall|i: int| 0 <= i < k ==> s[i] != '\n',
    ensures
        find_newline(s) == k,
    decreases k,
{
    if k > 0 {
        assert(forall|i: int| 0 <= i < s.drop_first().len() ==> s.drop_first()[i] == s[i + 1]);
        lemma_find_newline_at(s.drop_first(), k - 1);
    }
}

/// The words of the raw text: one candidate per line, trimmed, with empty
/// lines dropped.
pub open spec fn words_of(s: Seq<char>) -> Seq<Seq<char>>
    decreases s.len(),
    via words_of_decreases
{
    let i = find_newline(s);
    if i < 0 {
        if trim_spec(s).len() > 0 {
            seq![trim_spec(s)]
        } else {
            Seq::empty()
        }
    } else {
        let head = trim_spec(s.take(i));
        let rest = words_of(s.skip(i + 1));
        if head.len() > 0 {
            seq![head] + rest
        } else {
            rest
        }
    }
}

#[via_fn]
proof fn words_of_decreases(s: Seq<char>) {
    lemma_find_newline_bounds(s);
}

/// Every word that parsing yields is non-empty and carries no surrounding
/// whitespace: an empty line can never become an (everywhere-matching)
/// empty alternative.
pub proof fn lemma_words_of_nonempty(s: Seq<char>)
    ensures
        forall|i: int| 0 <= i < words_of(s).len() ==> (#[trigger] words_of(s)[i]).len() > 0,
    decreases s.len(),
{
    let k = find_newline(s);
    if k >= 0 {
        lemma_find_newline_bounds(s);
        lemma_words_of_nonempty(s.skip(k + 1));
        let head = trim_spec(s.take(k));
        let rest = words_of(s.skip(k + 1));
        if head.len() > 0 {
            assert(forall|i: int| 0 <= i < words_of(s).len() ==> (#[trigger] words_of(s)[i]).len()
                > 0) by {
                assert(words_of(s) == seq![head] + rest);
                assert(forall|i: int| 0 < i < words_of(s).len() ==> words_of(s)[i] == rest[i - 1]);
            }
        }
    }
}

/// The text that lossy UTF-8 decoding yields for a byte string: valid
/// sequences decoded, invalid ones replaced (what `String::from_utf8_lossy`
/// returns, a function of the bytes alone).
pub uninterp spec fn lossy_decode(bytes: Seq<u8>) -> Seq<char>;

/// Relies on `String::from_utf8_lossy`: decodes bytes as text, substituting
/// the replacement character for invalid sequences rather than failing.
#[verifier::external_body]
pub(crate) fn decode_lossy(bytes: &[u8]) -> (s: String)
    ensures
        s@ == lossy_decode(bytes@),
{
    String::from_utf8_lossy(bytes).into_owned()
}

/// Exec mirror of `is_space`.
fn is_space_char(c: char) -> (r: bool)
    ensures
        r == is_space(c),
{
    c == '\t' || c == '\n' || c == '\u{000B}' || c == '\u{000C}' || c == '\r' || c == ' '
        || c == '\u{0085}' || c == '\u{00A0}' || c == '\u{1680}' || c == '\u{2000}'
        || c == '\u{2001}' || c == '\u{2002}' || c == '\u{2003}' || c == '\u{2004}'
        || c == '\u{2005}' || c == '\u{2006}' || c == '\u{2007}' || c == '\u{2008}'
        || c == '\u{2009}' || c == '\u{200A}' || c == '\u{2028}' || c == '\u{2029}'
        || c == '\u{202F}' || c == '\u{205F}' || c == '\u{3000}'
}

/// Collects the characters of a string into a vector.
fn chars_vec(s: &str) -> (v: Vec<char>)
    ensures
        v@ == s@,
{
    broadcast use vstd::string::axiom_spec_iter;
    broadcast use vstd::string::next_postcondition;

    let mut it = s.chars();
    let mut v: Vec<char> = Vec::new();
    proof {
        assert(v@ + it.remaining() =~= s@);
    }
    loop
        invariant
            it.obeys_prophetic_iter_laws(),
            it.decrease() is Some,
            v@ + it.remaining() == s@,
        ensures
            v@ == s@,
        decreases it.decrease()->0,
    {
        let ghost prev = it;
        let r = it.next();
        proof {
            vstd::string::next_postcondition(&prev, &it, r);
        }
        match r {
            Some(c) => {
                v.push(c);
                assert(v@ + it.remaining() =~= s@);
            },
            None => {
                assert(it.remaining().len() == 0);
                assert(v@ =~= s@);
                break;
            },
        }
    }
    v
}

/// Narrows `[a, b)` to the trimmed extent of the line `cs[a..b]`.
fn trim_range(cs: &Vec<char>, a: usize, b: usize) -> (r: (usize, usize))
    requires
        a <= b <= cs@.len(),
    ensures
        a <= r.0 <= r.1 <= b,
        cs@.subrange(r.0 as int, r.1 as int) == trim_spec(cs@.subrange(a as int, b as int)),
{
    let ghost line = cs@.subrange(a as int, b as int);
    let mut lo: usize = a;
    while lo < b && is_space_char(cs[lo])
        invariant
            a <= lo <= b <= cs@.len(),
            trim_front(line) == trim_front(cs@.subrange(lo as int, b as int)),
        decreases b - lo,
    {
        proof {
            let cur = cs@.subrange(lo as int, b as int);
            assert(cur.drop_first() =~= cs@.subrange(lo as int + 1, b as int));
        }
        lo = lo + 1;
    }
    proof {
        assert(trim_front(line) == cs@.subrange(lo as int, b as int));
    }
    let mut hi: usize = b;
    while hi > lo && is_space_char(cs[hi - 1])
        invariant
            a <= lo <= hi <= b <= cs@.len(),
            trim_back(trim_front(line)) == trim_back(cs@.subrange(lo as int, hi as int)),
        decreases hi - lo,
    {
        proof {
            let cur = cs@.subrange(lo as int, hi as int);
            assert(cur.drop_last() =~= cs@.subrange(lo as int, hi as int - 1));
        }
        hi = hi - 1;
    }
    (lo, hi)
}

/// Splits the raw word-list text into trimmed, non-empty words, one
/// candidate per line, in line order.
pub fn parse_word_list(text: &str) -> (words: Vec<String>)
    ensures
        words.deep_view() == words_of(text@),
        forall|i: int| 0 <= i < words.deep_view().len()
            ==> (#[trigger] words.deep_view()[i]).len() > 0,
{
    let cs = chars_vec(text);
    let n = cs.len();
    let mut words: Vec<String> = Vec::new();
    let mut pos: usize = 0;
    proof {
        assert(cs@.skip(0) =~= cs@);
        assert(words.deep_view() + words_of(cs@) =~= words_of(cs@));
    }
    while pos < n
        invariant
            pos <= n == cs@.len(),
            cs@ == text@,
            words.deep_view() + words_of(cs@.skip(pos as int)) == words_of(cs@),
        decreases n - pos,
    {
        let ghost w0 = words.deep_view();
        let ghost suffix = cs@.skip(pos as int);
        let mut j: usize = pos;
        while j < n && cs[j] != '\n'
            invariant
                pos <= j <= n == cs@.len(),
                forall|k: int| pos <= k < j ==> cs@[k] != '\n',
            decreases n - j,
        {
            j = j + 1;
        }
        let ghost head = trim_spec(cs@.subrange(pos as int, j as int));
        let ghost rest = if j < n {
            words_of(cs@.skip(j + 1))
        } else {
            Seq::<Seq<char>>::empty()
        };
        proof {
            assert(forall|k: int| 0 <= k < j - pos ==> suffix[k] == cs@[pos + k]);
            if j < n {
                lemma_find_newline_at(suffix, j - pos);
                assert(suffix.take(j - pos) =~= cs@.subrange(pos as int, j as int));
                assert(suffix.skip(j - pos + 1) =~= cs@.skip(j + 1));
                if head.len() > 0 {
                    assert(words_of(suffix) == seq![head] + rest);
                } else {
                    assert(words_of(suffix) == rest);
                }
            } else {
                lemma_find_newline_none(suffix);
                assert(suffix =~= cs@.subrange(pos as int, j as int));
                if head.len() > 0 {
                    assert(words_of(suffix) =~= seq![head] + rest);
                } else {
                    assert(words_of(suffix) =~= rest);
                }
            }
        }
        let (lo, hi) = trim_range(&cs, pos, j);
        if lo < hi {
            let w = text.substring_char(lo, hi);
            let w = w.to_owned();
            assert(w@ == head);
            words.push(w);
            proof {
                assert(words.deep_view() =~= w0 + seq![head]);
                assert(words.deep_view() + rest =~= w0 + (seq![head] + rest));
            }
        } else {
            proof {
                assert(head.len() == 0);
            }
        }
        if j < n {
            pos = j + 1;
        } else {
            pos = n;
            proof {
                assert(cs@.skip(pos as int) =~= Seq::<char>::empty());
                lemma_find_newline_none(cs@.skip(pos as int));
                assert(words_of(cs@.skip(pos as int)) == Seq::<Seq<char>>::empty());
            }
        }
        proof {
            assert(words.deep_view() + words_of(cs@.skip(pos as int)) =~= words_of(cs@));
        }
    }
    proof {
        assert(cs@.skip(pos as int) =~= Seq::<char>::empty());
        lemma_find_newline_none(cs@.skip(pos as int));
        assert(words.deep_view() =~= words_of(cs@));
        lemma_words_of_nonempty(text@);
    }
    words
}

/// Splits a fetched raw word list into words: the bytes are decoded as text,
/// lossily, then split into trimmed, non-empty lines.
pub fn parse_fetched_list(bytes: &[u8]) -> (words: Vec<String>)
    ensures
        words.deep_view() == words_of(lossy_decode(bytes@)),
{
    let text = decode_lossy(bytes);
    parse_word_list(text.as_str())
}

} // verus!
