//! The scan itself: candidate files are examined one by one, in enumeration
//! order, and the run ends with the first match or, once the sequence is
//! exhausted, with a clean outcome.
//!
//! Reading a file is I/O and stays outside; the caller hands each candidate
//! path together with its bytes — or nothing, where the file could not be
//! read — and this module decides everything else: exclusion, decoding,
//! matching, and when to stop.  `scan_result` is the whole run as one
//! mathematical fold; the lemmas below state its laws.

use vstd::prelude::*;
use crate::globs::{excluded_spec, ExclusionSet};
use crate::pattern::{pattern_spec, regex_find_spec, BadWordPattern};
use crate::words::{decode_lossy, lossy_decode};

verus! {

/// The first hit of the run: the file it was found in, the byte range of the
/// match within that file's decoded contents, and the matched word.
pub struct FoundWord {
    pub file: String,
    pub start: usize,
    pub end: usize,
    pub word: String,
}

/// The mathematical content of a `FoundWord`.
pub struct FoundWordView {
    pub file: Seq<char>,
    pub start: int,
    pub end: int,
    pub word: Seq<char>,
}

impl View for FoundWord {
    type V = FoundWordView;

    open spec fn view(&self) -> FoundWordView {
        FoundWordView {
            file: self.file@,
            start: self.start as int,
            end: self.end as int,
            word: self.word@,
        }
    }
}

/// One candidate file as the walker reported it: its path, and its raw bytes
/// where it could be read.
pub struct FileEntry {
    pub path: String,
    pub content: Option<Vec<u8>>,
}

/// The mathematical content of a `FileEntry`.
pub struct FileEntryView {
    pub path: Seq<char>,
    pub content: Option<Seq<u8>>,
}

impl View for FileEntry {
    type V = FileEntryView;

    open spec fn view(&self) -> FileEntryView {
        FileEntryView {
            path: self.path@,
            content: match self.content {
                Some(bytes) => Some(bytes@),
                None => None,
            },
        }
    }
}

impl DeepView for FileEntry {
    type V = FileEntryView;

    open spec fn deep_view(&self) -> FileEntryView {
        self.view()
    }
}

/// How the run ends: clean, or with the first match.
pub enum ScanOutcome {
    Clean,
    Found(FoundWord),
}

impl View for ScanOutcome {
    type V = Option<FoundWordView>;

    open spec fn view(&self) -> Option<FoundWordView> {
        match self {
            ScanOutcome::Clean => None,
            ScanOutcome::Found(f) => Some(f@),
        }
    }
}

/// What examining one file yields: nothing if the path is excluded or the
/// file was unreadable or its text has no match; otherwise the first match.
pub open spec fn verdict(
    words: Seq<Seq<char>>,
    excls: Seq<Seq<char>>,
    path: Seq<char>,
    content: Option<Seq<u8>>,
) -> Option<FoundWordView> {
    if excluded_spec(excls, path) {
        None
    } else {
        match content {
            None => None,
            Some(bytes) => match regex_find_spec(pattern_spec(words), lossy_decode(bytes)) {
                None => None,
                Some(m) => Some(
                    FoundWordView { file: path, start: m.0 as int, end: m.1 as int, word: m.2 },
                ),
            },
        }
    }
}

/// The whole run over a file sequence: the verdict of the first file that
/// yields one, or none.  Everything after the first hit is irrelevant.
pub open spec fn scan_result(
    words: Seq<Seq<char>>,
    excls: Seq<Seq<char>>,
    files: Seq<FileEntryView>,
) -> Option<FoundWordView>
    decreases files.len(),
{
    if files.len() == 0 {
        None
    } else {
        match verdict(words, excls, files[0].path, files[0].content) {
            Some(m) => Some(m),
            None => scan_result(words, excls, files.drop_first()),
        }
    }
}

/// The scanner: one compiled pattern and one exclusion set, both built once
/// at setup and read-only for the rest of the run.
pub struct Scanner<'a> {
    pattern: BadWordPattern,
    excludes: ExclusionSet<'a>,
}

impl<'a> Scanner<'a> {
    /// The word list behind the pattern.
    pub closed spec fn words(&self) -> Seq<Seq<char>> {
        self.pattern.words()
    }

    /// The exclusion patterns.
    pub closed spec fn exclusions(&self) -> Seq<Seq<char>> {
        self.excludes.patterns()
    }

    /// Both halves were built from what they claim to stand for.
    pub closed spec fn wf(&self) -> bool {
        self.pattern.wf() && self.excludes.wf()
    }

    /// Pairs a compiled pattern with an exclusion set.
    pub fn new(pattern: BadWordPattern, excludes: ExclusionSet<'a>) -> (r: Scanner<'a>)
        requires
            pattern.wf(),
            excludes.wf(),
        ensures
            r.wf(),
            r.words() == pattern.words(),
            r.exclusions() == excludes.patterns(),
    {
        Scanner { pattern, excludes }
    }

    /// Whether a candidate path is vetoed by some exclusion pattern; an
    /// excluded file need not even be opened.
    pub fn is_excluded(&self, path: &str) -> (r: bool)
        requires
            self.wf(),
        ensures
            r == excluded_spec(self.exclusions(), path@),
    {
        self.excludes.is_excluded(path)
    }

    /// Examines one candidate file: its verdict is the first match of the
    /// pattern in its lossily-decoded contents, none if the path is excluded
    /// or the file could not be read (`content` is `None`) or nothing
    /// matches.  One unreadable file never ends the run.
    pub fn examine(&self, path: &str, content: Option<&[u8]>) -> (r: Option<FoundWord>)
        requires
            self.wf(),
        ensures
            (match r {
                Some(f) => Some(f@),
                None => None,
            }) == verdict(
                self.words(),
                self.exclusions(),
                path@,
                match content {
                    Some(bytes) => Some(bytes@),
                    None => None,
                },
            ),
            r matches Some(f) ==> (content matches Some(bytes) && exists|a: int, b: int|
                0 <= a <= b <= lossy_decode(bytes@).len() && lossy_decode(bytes@).subrange(a, b)
                    == f@.word),
    {
        if self.excludes.is_excluded(path) {
            return None;
        }
        match content {
            None => None,
            Some(bytes) => {
                let text = decode_lossy(bytes);
                match self.pattern.find_first(text.as_str()) {
                    None => None,
                    Some(m) => Some(
                        FoundWord { file: path.to_owned(), start: m.0, end: m.1, word: m.2 },
                    ),
                }
            },
        }
    }

    /// Runs the scan over an already-gathered file sequence, in order,
    /// stopping at the first match.  A reported word is always a piece of the
    /// decoded contents of the readable file it names.
    pub fn run(&self, files: &Vec<FileEntry>) -> (r: ScanOutcome)
        requires
            self.wf(),
        ensures
            r@ == scan_result(self.words(), self.exclusions(), files.deep_view()),
            r@ matches Some(m) ==> exists|i: int|
                {
                    &&& 0 <= i < files.deep_view().len()
                    &&& (#[trigger] files.deep_view()[i]).path == m.file
                    &&& files.deep_view()[i].content matches Some(bytes)
                    &&& exists|a: int, b: int|
                        0 <= a <= b <= lossy_decode(bytes).len() && lossy_decode(bytes).subrange(
                            a,
                            b,
                        ) == m.word
                },
    {
        let ghost dv = files.deep_view();
        let n = files.len();
        let mut i: usize = 0;
        proof {
            assert(dv.skip(0) =~= dv);
        }
        while i < n
            invariant
                self.wf(),
                i <= n == dv.len(),
                dv == files.deep_view(),
                scan_result(self.words(), self.exclusions(), dv) == scan_result(
                    self.words(),
                    self.exclusions(),
                    dv.skip(i as int),
                ),
            decreases n - i,
        {
            let entry = &files[i];
            let content = match &entry.content {
                Some(bytes) => Some(bytes.as_slice()),
                None => None,
            };
            let r = self.examine(entry.path.as_str(), content);
            proof {
                assert(dv.skip(i as int)[0] == dv[i as int]);
                assert(dv[i as int] == files@[i as int].deep_view());
            }
            match r {
                Some(f) => {
                    proof {
                        let iv = i as int;
                        assert(f@.file == dv[iv].path);
                        assert(dv[iv].content matches Some(bytes) && exists|a: int, b: int|
                            0 <= a <= b <= lossy_decode(bytes).len() && lossy_decode(
                                bytes,
                            ).subrange(a, b) == f@.word);
                    }
                    return ScanOutcome::Found(f);
                },
                None => {
                    proof {
                        assert(dv.skip(i as int).drop_first() =~= dv.skip(i + 1));
                    }
                },
            }
            i = i + 1;
        }
        proof {
            assert(dv.skip(n as int) =~= Seq::<FileEntryView>::empty());
        }
        ScanOutcome::Clean
    }
}

/// A file that some exclusion pattern matches never yields a match, whatever
/// its contents: it never appears in the scanned sequence's outcome.
pub proof fn lemma_excluded_file_never_matches(
    words: Seq<Seq<char>>,
    excls: Seq<Seq<char>>,
    path: Seq<char>,
    content: Option<Seq<u8>>,
)
    requires
        excluded_spec(excls, path),
    ensures
        verdict(words, excls, path, content) is None,
{
}

/// A file whose verdict is none — excluded, unreadable, or simply matchless —
/// can be dropped from the sequence without changing the run's outcome.
pub proof fn lemma_skipped_file_irrelevant(
    words: Seq<Seq<char>>,
    excls: Seq<Seq<char>>,
    files: Seq<FileEntryView>,
    i: int,
)
    requires
        0 <= i < files.len(),
        verdict(words, excls, files[i].path, files[i].content) is None,
    ensures
        scan_result(words, excls, files) == scan_result(words, excls, files.remove(i)),
    decreases i,
{
    if i == 0 {
        assert(files.remove(0) =~= files.drop_first());
    } else {
        assert(files.remove(i)[0] == files[0]);
        match verdict(words, excls, files[0].path, files[0].content) {
            Some(_) => {},
            None => {
                lemma_skipped_file_irrelevant(words, excls, files.drop_first(), i - 1);
                assert(files.remove(i).drop_first() =~= files.drop_first().remove(i - 1));
            },
        }
    }
}

/// An unreadable file placed anywhere in the sequence never aborts or alters
/// the run: the scan continues past it as if it were not there.
pub proof fn lemma_unreadable_file_skipped(
    words: Seq<Seq<char>>,
    excls: Seq<Seq<char>>,
    files: Seq<FileEntryView>,
    i: int,
)
    requires
        0 <= i < files.len(),
        files[i].content is None,
    ensures
        scan_result(words, excls, files) == scan_result(words, excls, files.remove(i)),
{
    lemma_skipped_file_irrelevant(words, excls, files, i);
}

/// An excluded file placed anywhere in the sequence never alters the run,
/// even if its contents would match.
pub proof fn lemma_excluded_file_ignored(
    words: Seq<Seq<char>>,
    excls: Seq<Seq<char>>,
    files: Seq<FileEntryView>,
    i: int,
)
    requires
        0 <= i < files.len(),
        excluded_spec(excls, files[i].path),
    ensures
        scan_result(words, excls, files) == scan_result(words, excls, files.remove(i)),
{
    lemma_skipped_file_irrelevant(words, excls, files, i);
}

/// A match is only ever reported from a file that no exclusion pattern
/// matches.
pub proof fn lemma_match_never_from_excluded_file(
    words: Seq<Seq<char>>,
    excls: Seq<Seq<char>>,
    files: Seq<FileEntryView>,
)
    ensures
        scan_result(words, excls, files) matches Some(m) ==> exists|i: int|
            0 <= i < files.len() && m.file == files[i].path && !excluded_spec(excls, files[i].path),
    decreases files.len(),
{
    if files.len() > 0 {
        match verdict(words, excls, files[0].path, files[0].content) {
            Some(_) => {
                assert(scan_result(words, excls, files) matches Some(m) ==> m.file == files[0].path
                    && !excluded_spec(excls, files[0].path));
            },
            None => {
                lemma_match_never_from_excluded_file(words, excls, files.drop_first());
                assert(forall|k: int|
                    0 <= k < files.drop_first().len() ==> files.drop_first()[k] == files[k + 1]);
            },
        }
    }
}

/// Early termination: where file `i` is the first to yield a verdict, the
/// whole run's outcome is that verdict, and the files after `i` play no part
/// in it.
pub proof fn lemma_scan_stops_at_first_match(
    words: Seq<Seq<char>>,
    excls: Seq<Seq<char>>,
    files: Seq<FileEntryView>,
    i: int,
)
    requires
        0 <= i < files.len(),
        verdict(words, excls, files[i].path, files[i].content) is Some,
        forall|j: int| 0 <= j < i ==> verdict(words, excls, files[j].path, files[j].content) is None,
    ensures
        scan_result(words, excls, files) == verdict(words, excls, files[i].path, files[i].content),
        scan_result(words, excls, files) == scan_result(words, excls, files.take(i + 1)),
    decreases i,
{
    if i == 0 {
        assert(files.take(1)[0] == files[0]);
    } else {
        lemma_scan_stops_at_first_match(words, excls, files.drop_first(), i - 1);
        assert(forall|k: int|
            0 <= k < files.drop_first().len() ==> files.drop_first()[k] == files[k + 1]);
        assert(files.take(i + 1)[0] == files[0]);
        assert(files.take(i + 1).drop_first() =~= files.drop_first().take(i));
    }
}

/// The scan is a function of the word list, the exclusions and the file
/// sequence alone: two runs over an unchanged tree with the same word list
/// yield the same outcome.  `Scanner::run` returns exactly `scan_result`, so
/// any two runs on equal inputs agree.
pub proof fn lemma_scan_idempotent(
    words: Seq<Seq<char>>,
    excls: Seq<Seq<char>>,
    first: Seq<FileEntryView>,
    second: Seq<FileEntryView>,
)
    requires
        first == second,
    ensures
        scan_result(words, excls, first) == scan_result(words, excls, second),
{
}

} // verus!
