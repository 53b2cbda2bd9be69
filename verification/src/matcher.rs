//! Compiled byte-matching patterns.
//!
//! A `Pattern` pairs a content mode with a compiled byte-oriented regular
//! expression and the source text it was compiled from. Hex-mode source is
//! prefixed so the compiler treats the expression byte-exactly (not
//! Unicode-aware): a pattern whose bytes are not valid text still matches
//! raw binary content. The expression engine itself is outside code; the
//! items that lean on it are declared here with the contracts its
//! documentation gives. Both engine calls are deterministic in their
//! arguments, so their results carry names: whether source compiles
//! (`spec_compiles`), and which match ranges it yields on a haystack
//! (`matches_of`). The fields of `Pattern` are private and `compile` is
//! its only constructor, so every `Pattern` holds the matcher its source
//! compiles to, which is what ties `matches_of` to the source text.

use crate::pattern::{
    has_invalid_char,
    hex_rewrite,
    hex_to_regex,
    strip_spaces,
    ContentMode,
    PatternError,
};
use vstd::prelude::*;
use vstd::string::StringExecFns;

verus! {

#[verifier::external_type_specification]
#[verifier::external_body]
pub struct ExBytesRegex(regex::bytes::Regex);

/// Whether the expression compiler accepts `src`. Compilation is a
/// function of the source text alone.
pub uninterp spec fn spec_compiles(src: Seq<char>) -> bool;

/// The match ranges the expression engine reports for the expression
/// compiled from `src` on the haystack `data`: successive non-overlapping
/// matches, earliest first. The result depends on the source text and the
/// haystack alone.
pub uninterp spec fn matches_of(src: Seq<char>, data: Seq<u8>) -> Seq<(usize, usize)>;

/// Compiles expression source into a byte-oriented matcher.
///
/// Relies on `regex::bytes::Regex::new`: compilation is deterministic in
/// the source text and succeeds exactly when the source is a valid
/// expression within the default size limit — `spec_compiles` names that
/// outcome. On failure the diagnostic is rendered to a plain string.
#[verifier::external_body]
fn new_bytes_regex(src: &str) -> (r: Result<regex::bytes::Regex, String>)
    ensures
        (r is Ok) == spec_compiles(src@),
{
    match regex::bytes::Regex::new(src) {
        Ok(re) => Ok(re),
        Err(e) => Err(format!("{}", e)),
    }
}

/// Match ranges as the expression engine reports them: within bounds,
/// half-open, in increasing order, non-overlapping.
pub open spec fn valid_match_seq(ms: Seq<(usize, usize)>, len: int) -> bool {
    &&& forall|i: int|
        0 <= i < ms.len() ==> (#[trigger] ms[i]).0 <= ms[i].1 && ms[i].1 <= len
    &&& forall|i: int|
        0 <= i && i + 1 < ms.len() ==> (#[trigger] ms[i]).1 <= ms[i + 1].0 && ms[i].0 < ms[i
            + 1].0
}

/// A compiled, immutable matcher over raw bytes. The fields are private:
/// `compile` is the only constructor, so the matcher always is the one
/// its source compiles to.
pub struct Pattern {
    /// The content mode the pattern was compiled for.
    mode: ContentMode,
    /// The expression source handed to the compiler.
    source: String,
    /// The compiled byte-oriented expression.
    re: regex::bytes::Regex,
}

/// The expression source that hex-mode pattern text compiles to: the
/// hex-pair rewrite of the stripped text, under a prefix that switches the
/// compiler to byte-exact semantics.
pub open spec fn hex_pattern_source(raw: Seq<char>) -> Seq<char> {
    ("(?-u)")@ + hex_rewrite(strip_spaces(raw))
}

/// The expression source for pattern text in either mode.
pub open spec fn pattern_source_for(raw: Seq<char>, mode: ContentMode) -> Seq<char> {
    match mode {
        ContentMode::Hex => hex_pattern_source(raw),
        ContentMode::Text => raw,
    }
}

/// Rejection cases settled by validation alone, before the expression
/// compiler is consulted.
pub open spec fn compile_rejected(raw: Seq<char>, mode: ContentMode) -> Option<PatternError> {
    if mode is Hex && raw.len() > 0 && has_invalid_char(strip_spaces(raw)) {
        Some(PatternError::InvalidCharacter)
    } else if raw.len() == 0 {
        Some(PatternError::EmptyPattern)
    } else {
        None
    }
}

/// Law (empty-pattern rejection): both modes reject empty pattern text,
/// always as `EmptyPattern`.
pub proof fn lemma_empty_rejected(mode: ContentMode)
    ensures
        compile_rejected(Seq::empty(), mode) == Some(PatternError::EmptyPattern),
{
}

/// Law (hex pairs accepted): pattern text that is nothing but
/// whitespace-separated two-digit hex pairs passes validation outright;
/// only the expression compiler itself could still refuse it.
pub proof fn lemma_hex_pairs_accepted(s: Seq<char>)
    requires
        s.len() > 0,
        strip_spaces(s).len() > 0,
        strip_spaces(s).len() % 2 == 0,
        forall|i: int|
            0 <= i < s.len() ==> crate::pattern::is_space_char(#[trigger] s[i])
                || crate::hex::is_hex_digit_char(s[i]),
    ensures
        compile_rejected(s, ContentMode::Hex) is None,
{
    crate::pattern::lemma_hex_pairs_translation(s);
}

impl Pattern {
    /// The content mode the pattern was compiled for.
    pub closed spec fn spec_mode(self) -> ContentMode {
        self.mode
    }

    /// The expression source the matcher was compiled from.
    pub closed spec fn spec_source(self) -> Seq<char> {
        self.source@
    }

    /// The content mode the pattern was compiled for.
    pub fn mode(&self) -> (r: ContentMode)
        ensures
            r == self.spec_mode(),
    {
        self.mode
    }

    /// The expression source the matcher was compiled from.
    pub fn source(&self) -> (r: &str)
        ensures
            r@ == self.spec_source(),
    {
        self.source.as_str()
    }

    /// Compiles pattern text in the given mode.
    ///
    /// Empty text is always rejected. Hex-mode text is validated and
    /// rewritten first; text-mode text goes to the compiler unchanged.
    /// Validated source compiles exactly when the expression compiler
    /// accepts it; a rejection there is reported as `CompileError` with
    /// its diagnostic.
    pub fn compile(raw: &str, mode: ContentMode) -> (r: Result<Pattern, PatternError>)
        ensures
            compile_rejected(raw@, mode) matches Some(e) ==> r == Err::<Pattern, PatternError>(e),
            compile_rejected(raw@, mode) is None ==> ((r is Ok) == spec_compiles(
                pattern_source_for(raw@, mode),
            )),
            compile_rejected(raw@, mode) is None ==> match r {
                Ok(p) => p.spec_mode() == mode && p.spec_source() == pattern_source_for(
                    raw@,
                    mode,
                ),
                Err(e) => e is CompileError,
            },
    {
        match mode {
            ContentMode::Hex => {
                match hex_to_regex(raw) {
                    Err(e) => Err(e),
                    Ok(body) => {
                        let mut source = String::new();
                        source.append("(?-u)");
                        source.append(body.as_str());
                        proof {
                            assert(source@ =~= ("(?-u)")@ + body@);
                        }
                        match new_bytes_regex(source.as_str()) {
                            Ok(re) => Ok(Pattern { mode, source, re }),
                            Err(diag) => Err(PatternError::CompileError(diag)),
                        }
                    },
                }
            },
            ContentMode::Text => {
                if raw.is_empty() {
                    Err(PatternError::EmptyPattern)
                } else {
                    match new_bytes_regex(raw) {
                        Ok(re) => Ok(
                            Pattern { mode, source: String::from_str(raw), re },
                        ),
                        Err(diag) => Err(PatternError::CompileError(diag)),
                    }
                }
            },
        }
    }

    /// Finds every non-overlapping match of this pattern in `data`, as
    /// half-open byte ranges.
    ///
    /// Relies on `regex::bytes::Regex::find_iter`: the matches are a
    /// function of the expression and the haystack alone — `matches_of`
    /// names them over the source this matcher was compiled from (the
    /// fields are private and `compile` the only constructor). It yields
    /// successive non-overlapping matches, earliest first; each satisfies
    /// `start <= end <= data.len()`, and a later match starts strictly
    /// after an earlier match's start and no earlier than its end
    /// (iteration resumes at a match's end, and steps one position past
    /// an empty match before searching again).
    #[verifier::external_body]
    pub(crate) fn find_matches(&self, data: &[u8]) -> (r: Vec<(usize, usize)>)
        ensures
            r@ == matches_of(self.spec_source(), data@),
            valid_match_seq(r@, data@.len() as int),
    {
        self.re.find_iter(data).map(|m| (m.start(), m.end())).collect()
    }
}

} // verus!
