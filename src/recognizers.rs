//! The fixed set of line recognizers, each a regular expression compiled
//! once and matched against whole lines.
use vstd::prelude::*;
use regex::Regex;
use crate::segmenter::Classification;

verus! {

#[verifier::external_type_specification]
#[verifier::external_body]
pub struct ExRegex(regex::Regex);

#[verifier::external_type_specification]
#[verifier::external_body]
pub struct ExRegexError(regex::Error);

/// Whether the regular expression written `pattern` matches somewhere in
/// `haystack`.
pub uninterp spec fn regex_accepts(pattern: Seq<char>, haystack: Seq<char>) -> bool;

/// Whether the regular expression written `pattern` compiles.
pub uninterp spec fn regex_compiles(pattern: Seq<char>) -> bool;

/// The patterns whose match makes a line confidently Lua code, in the order
/// they are tried.
pub open spec fn confident_sources() -> Seq<Seq<char>> {
    seq![
        // variable definitions
        r"^(?:(\`)?\s*(?:local\s+)?(\w+[:.])*(\w+\s*)([\+\-\*\/]?=\s*.+))$"@,
        r"^(?:(\`)?\s*(local\s+)(\w+\s*)(,\s*\w+)*\s*([\+\-\*\/]?=\s*.+)?)$"@,
        // multiple assignment, block ends, function definitions
        r"^(?:(\`)?\s*(\w+\s*)(,\s*\w+)*\s*([\+\-\*\/]?=\s*.+))$"@,
        r"^\s*end\s*$"@,
        r"^(?:(\`)?\s*(?:local\s+)?function\s+(\w+[:.])*\w+\(.*?\))$"@,
        // control structures
        r"^\s*(?:else)?if\s+.+?\s+then$"@,
        r"^\s*else$"@,
        // function calls
        r"^\s*(\w+[:.])*\w+\s*\(.*?\)\s*$"@,
        r"^\s*\w+\(.*?\)$"@,
        // other keywords
        r"^\s*return\s*.*?$"@,
        r"^\s*for\s*(.+)do$"@,
        r"^\s*while\s*(.+)do$"@,
        r"^\s*repeat\s*(.*)$"@,
        r"^\s*until\s*(.+)$"@,
        // comments
        r"^\s*--.*?$"@,
    ]
}

/// The patterns of lines whose status depends on the line before them.
pub open spec fn ambiguous_sources() -> Seq<Seq<char>> {
    seq![r"^[ \t]*$"@]
}

/// Some pattern of `patterns` matches `line`.
pub open spec fn any_accepts(patterns: Seq<Seq<char>>, line: Seq<char>) -> bool {
    exists|i: int| 0 <= i < patterns.len() && regex_accepts(#[trigger] patterns[i], line)
}

pub open spec fn confident_shape(line: Seq<char>) -> bool {
    any_accepts(confident_sources(), line)
}

pub open spec fn ambiguous_shape(line: Seq<char>) -> bool {
    any_accepts(ambiguous_sources(), line)
}

/// The class of a line: confident if a confident pattern matches, else
/// ambiguous if an ambiguous one does.
pub open spec fn classification(line: Seq<char>) -> Classification {
    if confident_shape(line) {
        Classification::Confident
    } else if ambiguous_shape(line) {
        Classification::Ambiguous
    } else {
        Classification::NotCode
    }
}

/// A compiled regular expression together with the text it was compiled from.
pub struct Recognizer {
    source: String,
    compiled: Regex,
}

impl Recognizer {
    /// The text of the regular expression.
    pub closed spec fn pattern(&self) -> Seq<char> {
        self.source@
    }

    /// Relies on regex::Regex::new: on success, the compiled form of
    /// `pattern`; otherwise its error. Whether it succeeds depends on the
    /// pattern text alone.
    #[verifier::external_body]
    fn compile(pattern: &str) -> (r: Result<Recognizer, regex::Error>)
        ensures
            r is Ok <==> regex_compiles(pattern@),
            r matches Ok(rec) ==> rec.pattern() == pattern@,
    {
        match Regex::new(pattern) {
            Ok(compiled) => Ok(Recognizer { source: pattern.to_string(), compiled }),
            Err(e) => Err(e),
        }
    }

    /// Relies on regex::Regex::is_match: whether the expression matches
    /// somewhere in `haystack`.
    #[verifier::external_body]
    fn is_match(&self, haystack: &str) -> (r: bool)
        ensures
            r == regex_accepts(self.pattern(), haystack@),
    {
        self.compiled.is_match(haystack)
    }
}

pub open spec fn patterns_of(recognizers: Seq<Recognizer>) -> Seq<Seq<char>> {
    recognizers.map_values(|r: Recognizer| r.pattern())
}

/// A pattern of the built-in set that does not compile.
#[derive(Debug)]
pub struct PatternError {
    pub pattern: String,
}

/// Compiles each of `sources`, in order, stopping at the first failure.
fn compile_all(sources: &Vec<&str>) -> (r: Result<Vec<Recognizer>, PatternError>)
    ensures
        r matches Ok(v) ==> patterns_of(v@) == sources@.map_values(|s: &str| s@),
        r matches Err(e) ==> sources@.map_values(|s: &str| s@).contains(e.pattern@),
        r matches Err(e) ==> !regex_compiles(e.pattern@),
        r is Ok <==> forall|k: int| 0 <= k < sources@.len() ==> regex_compiles(#[trigger] sources@[k]@),
{
    let mut out: Vec<Recognizer> = Vec::new();
    for i in 0..sources.len()
        invariant
            patterns_of(out@) == sources@.take(i as int).map_values(|s: &str| s@),
            forall|k: int| 0 <= k < i ==> regex_compiles(#[trigger] sources@[k]@),
    {
        match Recognizer::compile(sources[i]) {
            Ok(rec) => {
                let ghost before = out@;
                out.push(rec);
                assert(sources@.take(i + 1).map_values(|s: &str| s@) =~= sources@.take(
                    i as int,
                ).map_values(|s: &str| s@).push(sources@[i as int]@));
                assert(patterns_of(out@) =~= patterns_of(before).push(out@[i as int].pattern()));
            },
            Err(_) => {
                let e = PatternError { pattern: String::from_str(sources[i]) };
                assert(sources@.map_values(|s: &str| s@)[i as int] == e.pattern@);
                return Err(e);
            },
        }
    }
    assert(sources@.take(sources@.len() as int) =~= sources@);
    Ok(out)
}

/// Whether any of `recognizers` matches `line`, trying them in order.
fn any_match(recognizers: &Vec<Recognizer>, line: &str) -> (r: bool)
    ensures
        r == any_accepts(patterns_of(recognizers@), line@),
{
    let ghost patterns = patterns_of(recognizers@);
    for i in 0..recognizers.len()
        invariant
            patterns == patterns_of(recognizers@),
            forall|k: int| 0 <= k < i ==> !regex_accepts(#[trigger] patterns[k], line@),
    {
        if recognizers[i].is_match(line) {
            assert(regex_accepts(patterns[i as int], line@));
            return true;
        }
    }
    false
}

/// The confident and the ambiguous recognizers, compiled once.
pub struct RecognizerSet {
    confident: Vec<Recognizer>,
    ambiguous: Vec<Recognizer>,
}

impl RecognizerSet {
    pub closed spec fn confident_patterns(&self) -> Seq<Seq<char>> {
        patterns_of(self.confident@)
    }

    pub closed spec fn ambiguous_patterns(&self) -> Seq<Seq<char>> {
        patterns_of(self.ambiguous@)
    }

    /// The set holds exactly the built-in patterns.
    pub open spec fn wf(&self) -> bool {
        self.confident_patterns() == confident_sources() && self.ambiguous_patterns()
            == ambiguous_sources()
    }

    /// Compiles the built-in patterns.
    pub fn new() -> (r: Result<RecognizerSet, PatternError>)
        ensures
            r matches Ok(set) ==> set.wf(),
            r matches Err(e) ==> confident_sources().contains(e.pattern@)
                || ambiguous_sources().contains(e.pattern@),
            r matches Err(e) ==> !regex_compiles(e.pattern@),
            r is Ok <==> (forall|k: int|
                0 <= k < confident_sources().len() ==> regex_compiles(
                    #[trigger] confident_sources()[k],
                )) && (forall|k: int|
                0 <= k < ambiguous_sources().len() ==> regex_compiles(
                    #[trigger] ambiguous_sources()[k],
                )),
    {
        let confident_texts: Vec<&str> = vec![
            r"^(?:(\`)?\s*(?:local\s+)?(\w+[:.])*(\w+\s*)([\+\-\*\/]?=\s*.+))$",
            r"^(?:(\`)?\s*(local\s+)(\w+\s*)(,\s*\w+)*\s*([\+\-\*\/]?=\s*.+)?)$",
            r"^(?:(\`)?\s*(\w+\s*)(,\s*\w+)*\s*([\+\-\*\/]?=\s*.+))$",
            r"^\s*end\s*$",
            r"^(?:(\`)?\s*(?:local\s+)?function\s+(\w+[:.])*\w+\(.*?\))$",
            r"^\s*(?:else)?if\s+.+?\s+then$",
            r"^\s*else$",
            r"^\s*(\w+[:.])*\w+\s*\(.*?\)\s*$",
            r"^\s*\w+\(.*?\)$",
            r"^\s*return\s*.*?$",
            r"^\s*for\s*(.+)do$",
            r"^\s*while\s*(.+)do$",
            r"^\s*repeat\s*(.*)$",
            r"^\s*until\s*(.+)$",
            r"^\s*--.*?$",
        ];
        let ambiguous_texts: Vec<&str> = vec![r"^[ \t]*$"];
        assert(confident_texts@.map_values(|s: &str| s@) =~= confident_sources());
        assert(ambiguous_texts@.map_values(|s: &str| s@) =~= ambiguous_sources());
        let confident = match compile_all(&confident_texts) {
            Ok(v) => v,
            Err(e) => return Err(e),
        };
        let ambiguous = match compile_all(&ambiguous_texts) {
            Ok(v) => v,
            Err(e) => return Err(e),
        };
        Ok(RecognizerSet { confident, ambiguous })
    }

    /// Whether the line has the shape of a Lua statement.
    pub fn matches_confidently(&self, line: &str) -> (r: bool)
        requires
            self.wf(),
        ensures
            r == confident_shape(line@),
    {
        any_match(&self.confident, line)
    }

    /// Whether the line is empty or holds only spaces and tabs.
    pub fn matches_ambiguously(&self, line: &str) -> (r: bool)
        requires
            self.wf(),
        ensures
            r == ambiguous_shape(line@),
    {
        any_match(&self.ambiguous, line)
    }

    /// The class of `line`.
    pub fn classify(&self, line: &str) -> (r: Classification)
        requires
            self.wf(),
        ensures
            r == classification(line@),
    {
        if self.matches_confidently(line) {
            Classification::Confident
        } else if self.matches_ambiguously(line) {
            Classification::Ambiguous
        } else {
            Classification::NotCode
        }
    }
}

} // verus!
