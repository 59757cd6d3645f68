//! Building one alternation pattern from the word list and matching it.
//!
//! Every word is escaped so that it stands in the pattern as literal text,
//! then the words are joined with `\b|\b` and the whole is wrapped in
//! `(\b`...`\b)`: any listed word matches as a whole token, never as a
//! substring of a larger token.  The pattern text is built by verified code;
//! only compiling and running it is entrusted to the regex crate.

use vstd::prelude::*;
use crate::errors::PatternBuildError;

verus! {

/// Characters the pattern language gives a meaning of its own; each one is
/// preceded by a backslash so that the word stays literal text.
pub open spec fn is_meta(c: char) -> bool {
    c == '\\' || c == '.' || c == '+' || c == '*' || c == '?' || c == '(' || c == ')' || c == '|'
        || c == '[' || c == ']' || c == '{' || c == '}' || c == '^' || c == '$' || c == '#'
        || c == '&' || c == '-' || c == '~'
}

/// One escaped character of a word.
pub open spec fn escape_char(c: char) -> Seq<char> {
    if is_meta(c) {
        seq!['\\', c]
    } else {
        seq![c]
    }
}

/// A word as literal pattern text.
pub open spec fn escape_word(w: Seq<char>) -> Seq<char>
    decreases w.len(),
{
    if w.len() == 0 {
        Seq::empty()
    } else {
        escape_word(w.drop_last()) + escape_char(w.last())
    }
}

/// The separator between alternatives: a word boundary on each side of `|`.
pub open spec fn separator() -> Seq<char> {
    seq!['\\', 'b', '|', '\\', 'b']
}

/// All escaped words, joined by the separator, in word-list order.
pub open spec fn joined_words(words: Seq<Seq<char>>) -> Seq<char>
    decreases words.len(),
{
    if words.len() == 0 {
        Seq::empty()
    } else if words.len() == 1 {
        escape_word(words[0])
    } else {
        joined_words(words.drop_last()) + separator() + escape_word(words.last())
    }
}

/// The whole pattern: the joined alternatives wrapped in one boundary pair,
/// `(\b w1 \b|\b w2 \b|\b ... \b)`.
pub open spec fn pattern_spec(words: Seq<Seq<char>>) -> Seq<char> {
    seq!['(', '\\', 'b'] + joined_words(words) + seq!['\\', 'b', ')']
}

/// The pattern between the parentheses: the joined alternatives with one
/// boundary marker on each flank.
pub open spec fn inner_spec(words: Seq<Seq<char>>) -> Seq<char> {
    seq!['\\', 'b'] + joined_words(words) + seq!['\\', 'b']
}

/// A word's escaped text with a word-boundary marker on each side — the form
/// in which it must stand in the pattern.
pub open spec fn bounded_word(w: Seq<char>) -> Seq<char> {
    seq!['\\', 'b'] + escape_word(w) + seq!['\\', 'b']
}

proof fn lemma_inner_contains(words: Seq<Seq<char>>, i: int) -> (k: int)
    requires
        0 <= i < words.len(),
    ensures
        0 <= k,
        k + bounded_word(words[i]).len() <= inner_spec(words).len(),
        inner_spec(words).subrange(k, k + bounded_word(words[i]).len()) == bounded_word(words[i]),
    decreases words.len(),
{
    let e = escape_word(words[i]);
    let target = bounded_word(words[i]);
    if words.len() == 1 {
        assert(inner_spec(words) =~= target);
        assert(inner_spec(words).subrange(0, target.len() as int) =~= target);
        0
    } else if i < words.len() - 1 {
        let k = lemma_inner_contains(words.drop_last(), i);
        let prev = inner_spec(words.drop_last());
        let tail = seq!['|', '\\', 'b'] + escape_word(words.last()) + seq!['\\', 'b'];
        assert(inner_spec(words) =~= prev + tail);
        assert(inner_spec(words).subrange(k, k + target.len() as int) =~= prev.subrange(
            k,
            k + target.len() as int,
        ));
        k
    } else {
        let m = joined_words(words.drop_last()).len() as int;
        let k = m + 5;
        assert(words.last() == words[i]);
        assert(inner_spec(words).subrange(k, k + target.len() as int) =~= target);
        k
    }
}

/// Every listed word stands in the built pattern as its escaped, literal
/// text with a word-boundary marker immediately before and after it: the
/// pattern offers each word only as a whole token, never as part of one.
pub proof fn lemma_each_word_bounded_in_pattern(words: Seq<Seq<char>>, i: int) -> (k: int)
    requires
        0 <= i < words.len(),
    ensures
        0 <= k,
        k + bounded_word(words[i]).len() <= pattern_spec(words).len(),
        pattern_spec(words).subrange(k, k + bounded_word(words[i]).len()) == bounded_word(
            words[i],
        ),
{
    let target = bounded_word(words[i]);
    let k = lemma_inner_contains(words, i);
    assert(pattern_spec(words) =~= seq!['('] + inner_spec(words) + seq![')']);
    assert(pattern_spec(words).subrange(k + 1, k + 1 + target.len() as int) =~= inner_spec(
        words,
    ).subrange(k, k + target.len() as int));
    k + 1
}

/// Exec mirror of `is_meta`.
fn is_meta_char(c: char) -> (r: bool)
    ensures
        r == is_meta(c),
{
    c == '\\' || c == '.' || c == '+' || c == '*' || c == '?' || c == '(' || c == ')' || c == '|'
        || c == '[' || c == ']' || c == '{' || c == '}' || c == '^' || c == '$' || c == '#'
        || c == '&' || c == '-' || c == '~'
}

/// Appends a word to the pattern text, escaped to stand as literal text.
fn append_escaped(out: &mut String, w: &str)
    ensures
        final(out)@ == old(out)@ + escape_word(w@),
{
    let n = w.unicode_len();
    let mut i: usize = 0;
    proof {
        assert(escape_word(w@.take(0)) =~= Seq::<char>::empty());
        assert(out@ + escape_word(w@.take(0)) =~= out@);
    }
    while i < n
        invariant
            i <= n == w@.len(),
            out@ == old(out)@ + escape_word(w@.take(i as int)),
        decreases n - i,
    {
        let c = w.get_char(i);
        if is_meta_char(c) {
            out.append("\\");
            proof {
                reveal_strlit("\\");
            }
        }
        let piece = w.substring_char(i, i + 1);
        out.append(piece);
        proof {
            assert(w@.take(i + 1).drop_last() =~= w@.take(i as int));
            assert(w@.take(i + 1).last() == w@[i as int]);
            assert(piece@ =~= seq![w@[i as int]]);
            if is_meta(w@[i as int]) {
                assert("\\"@ =~= seq!['\\']);
                assert(out@ =~= old(out)@ + escape_word(w@.take(i + 1)));
            } else {
                assert(out@ =~= old(out)@ + escape_word(w@.take(i + 1)));
            }
        }
        i = i + 1;
    }
    proof {
        assert(w@.take(n as int) =~= w@);
    }
}

/// Builds the pattern text for the given words: each word escaped, joined by
/// `\b|\b`, wrapped in `(\b`...`\b)`.
pub fn build_pattern_text(words: &Vec<String>) -> (p: String)
    ensures
        p@ == pattern_spec(words.deep_view()),
{
    let ghost dv = words.deep_view();
    let mut p = String::new();
    p.append("(\\b");
    proof {
        reveal_strlit("(\\b");
        assert(p@ =~= seq!['(', '\\', 'b']);
        assert(joined_words(dv.take(0)) =~= Seq::<char>::empty());
        assert(p@ + joined_words(dv.take(0)) =~= p@);
    }
    let n = words.len();
    let mut i: usize = 0;
    while i < n
        invariant
            i <= n == dv.len(),
            dv == words.deep_view(),
            p@ == seq!['(', '\\', 'b'] + joined_words(dv.take(i as int)),
        decreases n - i,
    {
        if i > 0 {
            p.append("\\b|\\b");
            proof {
                reveal_strlit("\\b|\\b");
                assert("\\b|\\b"@ =~= separator());
            }
        }
        append_escaped(&mut p, words[i].as_str());
        proof {
            assert(dv.take(i + 1).drop_last() =~= dv.take(i as int));
            assert(dv.take(i + 1).last() == dv[i as int]);
            assert(dv[i as int] == words@[i as int]@);
            if i == 0 {
                assert(joined_words(dv.take(1)) == escape_word(dv[0]));
                assert(p@ =~= seq!['(', '\\', 'b'] + joined_words(dv.take(i + 1)));
            } else {
                assert(joined_words(dv.take(i + 1)) == joined_words(dv.take(i as int)) + separator()
                    + escape_word(dv[i as int]));
                assert(p@ =~= seq!['(', '\\', 'b'] + joined_words(dv.take(i + 1)));
            }
        }
        i = i + 1;
    }
    p.append("\\b)");
    proof {
        reveal_strlit("\\b)");
        assert(dv.take(n as int) =~= dv);
        assert(p@ =~= pattern_spec(dv));
    }
    p
}

#[verifier::external_type_specification]
#[verifier::external_body]
pub struct ExRegex(regex::Regex);

#[verifier::external_type_specification]
#[verifier::external_body]
pub struct ExRegexError(regex::Error);

/// The pattern text a compiled regex was built from (what `Regex::as_str`
/// returns).
pub uninterp spec fn regex_source(re: regex::Regex) -> Seq<char>;

/// The leftmost match of a pattern in a text, or none: start and end byte
/// offsets within the text's UTF-8 form, and the matched text itself (what
/// `Regex::find` returns, a function of the pattern and the text alone).
pub uninterp spec fn regex_find_spec(pattern: Seq<char>, text: Seq<char>) -> Option<
    (usize, usize, Seq<char>),
>;

/// Whether a pattern text compiles (what `Regex::new` decides, a function of
/// the pattern text alone).
pub uninterp spec fn regex_ok(pattern: Seq<char>) -> bool;

/// Relies on `regex::Regex::new`: compiles the pattern text, succeeding or
/// failing as a function of the text alone; a compiled regex keeps the
/// pattern text it was built from.
#[verifier::external_body]
fn regex_new(pattern: &str) -> (r: Result<regex::Regex, regex::Error>)
    ensures
        r is Ok <==> regex_ok(pattern@),
        r is Ok ==> regex_source(r->Ok_0) == pattern@,
{
    regex::Regex::new(pattern)
}

/// Relies on `regex::Regex::find`: the leftmost match, as start and end byte
/// offsets within the haystack together with the matched text, or none.  The
/// matched text is a slice of the haystack, so its characters stand
/// contiguously in the searched text.
#[verifier::external_body]
fn regex_find(re: &regex::Regex, text: &str) -> (r: Option<(usize, usize, String)>)
    ensures
        r is Some <==> regex_find_spec(regex_source(*re), text@) is Some,
        r is Some ==> {
            let m = regex_find_spec(regex_source(*re), text@)->0;
            (r->0).0 == m.0 && (r->0).1 == m.1 && ((r->0).2)@ == m.2 && m.0 <= m.1
        },
        r is Some ==> exists|a: int, b: int|
            0 <= a <= b <= text@.len() && text@.subrange(a, b) == ((r->0).2)@,
{
    match re.find(text) {
        Some(m) => Some((m.start(), m.end(), m.as_str().to_string())),
        None => None,
    }
}

/// A compiled matcher for the word list: matches any listed word as a whole
/// token, case-sensitively.  Immutable once built; one instance serves the
/// whole scan.
pub struct BadWordPattern {
    regex: regex::Regex,
    words: Ghost<Seq<Seq<char>>>,
}

impl BadWordPattern {
    /// The word list this pattern was built from.
    pub closed spec fn words(&self) -> Seq<Seq<char>> {
        self.words@
    }

    /// The compiled regex was built from exactly the pattern text that
    /// `pattern_spec` gives for the word list.
    pub closed spec fn wf(&self) -> bool {
        regex_source(self.regex) == pattern_spec(self.words@)
    }

    /// Compiles the word list into one pattern.  An empty list is refused:
    /// it would leave an empty alternative, which matches everywhere.
    pub fn build(words: &Vec<String>) -> (r: Result<BadWordPattern, PatternBuildError>)
        ensures
            r is Ok ==> r->Ok_0.wf() && r->Ok_0.words() == words.deep_view(),
            r is Ok <==> words@.len() > 0 && regex_ok(pattern_spec(words.deep_view())),
            words@.len() == 0 <==> r == Err::<BadWordPattern, PatternBuildError>(
                PatternBuildError::EmptyWordList,
            ),
    {
        if words.len() == 0 {
            return Err(PatternBuildError::EmptyWordList);
        }
        let text = build_pattern_text(words);
        match regex_new(text.as_str()) {
            Ok(re) => Ok(BadWordPattern { regex: re, words: Ghost(words.deep_view()) }),
            Err(_) => Err(PatternBuildError::CompileFailed),
        }
    }

    /// The first match of any listed word in `text`: start and end byte
    /// offsets within `text`'s UTF-8 form, and the matched word.
    pub fn find_first(&self, text: &str) -> (r: Option<(usize, usize, String)>)
        requires
            self.wf(),
        ensures
            r is Some <==> regex_find_spec(pattern_spec(self.words()), text@) is Some,
            r is Some ==> {
                let m = regex_find_spec(pattern_spec(self.words()), text@)->0;
                (r->0).0 == m.0 && (r->0).1 == m.1 && ((r->0).2)@ == m.2 && m.0 <= m.1
            },
            r is Some ==> exists|a: int, b: int|
                0 <= a <= b <= text@.len() && text@.subrange(a, b) == ((r->0).2)@,
    {
        regex_find(&self.regex, text)
    }
}

} // verus!
