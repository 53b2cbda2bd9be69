//! Scanning a file's bytes for pattern matches.
//!
//! Given the matches the expression engine reports for one file, the
//! scanner walks them in order, counting every match against the per-file
//! cap, discarding (but still counting) binary-mode matches that miss the
//! alignment constraint, and rendering each accepted match as a finding:
//! hex pairs in hex mode, lossily decoded text in text mode.

use crate::hex::{hex_pairs_string, to_hex_pairs};
use crate::matcher::{matches_of, valid_match_seq, Pattern};
use crate::pattern::{ContentMode, PatternError};
use vstd::prelude::*;
use vstd::slice::slice_subrange;
use vstd::string::StringExecFns;

verus! {

/// What a sequence of bytes decodes to as text when undecodable sequences
/// are replaced by a placeholder character.
pub uninterp spec fn lossy_decoded(bytes: Seq<u8>) -> Seq<char>;

/// Decodes bytes as text, replacing undecodable sequences with a
/// placeholder character.
///
/// Relies on `String::from_utf8_lossy`: the result depends on the bytes
/// alone, and no bytes decode to no text.
#[verifier::external_body]
fn utf8_lossy(bytes: &[u8]) -> (r: String)
    ensures
        r@ == lossy_decoded(bytes@),
        bytes@.len() == 0 ==> r@.len() == 0,
{
    String::from_utf8_lossy(bytes).to_string()
}

/// One reported match: where it was found, where it starts, how long it
/// is, and a human-presentable rendering of the matched bytes.
pub struct Finding {
    /// Path of the file the match was found in.
    pub filepath: String,
    /// Byte offset of the match start within the file.
    pub offset: usize,
    /// Byte length of the match.
    pub match_size: usize,
    /// Rendering of the matched bytes: hex pairs in hex mode, lossily
    /// decoded text in text mode.
    pub match_content: String,
}

/// The mathematical value of a finding.
pub ghost struct FindingModel {
    pub filepath: Seq<char>,
    pub offset: int,
    pub match_size: int,
    pub match_content: Seq<char>,
}

impl View for Finding {
    type V = FindingModel;

    open spec fn view(&self) -> FindingModel {
        FindingModel {
            filepath: self.filepath@,
            offset: self.offset as int,
            match_size: self.match_size as int,
            match_content: self.match_content@,
        }
    }
}

/// The option snapshot one search runs under.
pub struct SearchOptions {
    /// The compiled pattern, or the error that blocked compilation.
    pub pattern: Result<Pattern, PatternError>,
    /// Cap on the number of matches counted per file; always positive.
    pub max_hits: u32,
    /// Byte-alignment constraint for hex-mode matches; zero disables it.
    pub alignment: u32,
}

impl SearchOptions {
    /// The per-file cap is positive.
    pub open spec fn wf(self) -> bool {
        self.max_hits >= 1
    }
}

/// Whether a match is emitted: text-mode matches always; hex-mode matches
/// whenever the alignment constraint is disabled or the start offset is a
/// multiple of it.
pub open spec fn match_accepted(m: (usize, usize), mode: ContentMode, alignment: u32) -> bool {
    mode is Text || alignment == 0 || (m.0 as int % alignment as int) == 0
}

/// The matches the scanner emits: walking the reported matches in order,
/// every match consumes one unit of budget (the per-file cap), whether or
/// not it is accepted; walking stops when the budget is spent.
pub open spec fn selected_matches(
    ms: Seq<(usize, usize)>,
    mode: ContentMode,
    alignment: u32,
    budget: int,
) -> Seq<(usize, usize)>
    decreases ms.len(),
{
    if ms.len() == 0 || budget <= 0 {
        Seq::empty()
    } else if match_accepted(ms[0], mode, alignment) {
        seq![ms[0]] + selected_matches(ms.skip(1), mode, alignment, budget - 1)
    } else {
        selected_matches(ms.skip(1), mode, alignment, budget - 1)
    }
}

/// How matched bytes are rendered for presentation.
pub open spec fn rendered_content(data: Seq<u8>, m: (usize, usize), mode: ContentMode) -> Seq<
    char,
> {
    match mode {
        ContentMode::Hex => hex_pairs_string(data.subrange(m.0 as int, m.1 as int)),
        ContentMode::Text => lossy_decoded(data.subrange(m.0 as int, m.1 as int)),
    }
}

/// The finding constructed for one accepted match.
pub open spec fn finding_for(
    path: Seq<char>,
    data: Seq<u8>,
    m: (usize, usize),
    mode: ContentMode,
) -> FindingModel {
    FindingModel {
        filepath: path,
        offset: m.0 as int,
        match_size: m.1 - m.0,
        match_content: rendered_content(data, m, mode),
    }
}

/// Builds the findings for the matches reported in one file: every match
/// counts toward the per-file cap, and each accepted match within the cap
/// becomes one finding.
pub fn select_findings(
    path: &str,
    data: &[u8],
    ms: &Vec<(usize, usize)>,
    mode: ContentMode,
    alignment: u32,
    max_hits: u32,
) -> (r: Vec<Finding>)
    requires
        valid_match_seq(ms@, data@.len() as int),
    ensures
        ({
            let sel = selected_matches(ms@, mode, alignment, max_hits as int);
            &&& r@.len() == sel.len()
            &&& forall|j: int|
                0 <= j < r@.len() ==> r@[j]@ == finding_for(path@, data@, sel[j], mode)
        }),
{
    let n = ms.len();
    let limit: usize = if n < max_hits as usize {
        n
    } else {
        max_hits as usize
    };
    let mut r: Vec<Finding> = Vec::new();
    let ghost budget: int = max_hits as int;
    let ghost mut sel_done: Seq<(usize, usize)> = Seq::empty();
    let mut i: usize = 0;
    proof {
        assert(ms@.skip(0) =~= ms@);
        assert(sel_done + selected_matches(ms@, mode, alignment, budget) =~= selected_matches(
            ms@,
            mode,
            alignment,
            budget,
        ));
    }
    while i < limit
        invariant
            0 <= i <= limit,
            n == ms@.len(),
            limit == if n < max_hits as usize {
                n
            } else {
                max_hits as usize
            },
            budget == max_hits as int,
            valid_match_seq(ms@, data@.len() as int),
            selected_matches(ms@, mode, alignment, budget) == sel_done + selected_matches(
                ms@.skip(i as int),
                mode,
                alignment,
                budget - i,
            ),
            r@.len() == sel_done.len(),
            forall|j: int|
                0 <= j < r@.len() ==> r@[j]@ == finding_for(path@, data@, sel_done[j], mode),
        decreases limit - i,
    {
        let ghost rest = ms@.skip(i as int);
        proof {
            assert(rest[0] == ms@[i as int]);
            assert(rest.skip(1) =~= ms@.skip(i as int + 1));
        }
        let m = ms[i];
        proof {
            assert(ms@[i as int].0 <= ms@[i as int].1 && ms@[i as int].1 <= data@.len());
        }
        let accept = match mode {
            ContentMode::Text => true,
            ContentMode::Hex => alignment == 0 || m.0 % (alignment as usize) == 0,
        };
        proof {
            assert(accept == match_accepted(ms@[i as int], mode, alignment));
        }
        if accept {
            let bytes = slice_subrange(data, m.0, m.1);
            let content = match mode {
                ContentMode::Hex => to_hex_pairs(bytes),
                ContentMode::Text => utf8_lossy(bytes),
            };
            let f = Finding {
                filepath: String::from_str(path),
                offset: m.0,
                match_size: m.1 - m.0,
                match_content: content,
            };
            proof {
                assert(f@ == finding_for(path@, data@, ms@[i as int], mode));
            }
            r.push(f);
            proof {
                let prev = sel_done;
                sel_done = sel_done.push(ms@[i as int]);
                assert(sel_done =~= prev + seq![ms@[i as int]]);
                assert(prev + (seq![ms@[i as int]] + selected_matches(
                    ms@.skip(i as int + 1),
                    mode,
                    alignment,
                    budget - i - 1,
                )) =~= sel_done + selected_matches(
                    ms@.skip(i as int + 1),
                    mode,
                    alignment,
                    budget - i - 1,
                ));
            }
        }
        i += 1;
    }
    proof {
        if i < n {
            assert(budget - i <= 0);
        } else {
            assert(ms@.skip(i as int) =~= Seq::<(usize, usize)>::empty());
        }
        assert(sel_done + Seq::<(usize, usize)>::empty() =~= sel_done);
    }
    r
}

/// Law (per-file cap, one half): the scanner never emits more findings
/// than there are matches, nor more than the per-file cap.
pub proof fn lemma_selected_len(
    ms: Seq<(usize, usize)>,
    mode: ContentMode,
    alignment: u32,
    budget: int,
)
    ensures
        selected_matches(ms, mode, alignment, budget).len() <= ms.len(),
        budget >= 0 ==> selected_matches(ms, mode, alignment, budget).len() <= budget,
    decreases ms.len(),
{
    if ms.len() == 0 || budget <= 0 {
    } else {
        lemma_selected_len(ms.skip(1), mode, alignment, budget - 1);
    }
}

/// Law (per-file cap, other half): when every match passes the
/// acceptance filter, the scanner emits one finding per match up to
/// exactly the per-file cap.
pub proof fn lemma_selected_complete(
    ms: Seq<(usize, usize)>,
    mode: ContentMode,
    alignment: u32,
    budget: int,
)
    requires
        budget >= 0,
        forall|i: int| 0 <= i < ms.len() ==> match_accepted(#[trigger] ms[i], mode, alignment),
    ensures
        selected_matches(ms, mode, alignment, budget).len() == if ms.len() <= budget {
            ms.len() as int
        } else {
            budget
        },
    decreases ms.len(),
{
    if ms.len() == 0 || budget <= 0 {
    } else {
        assert(forall|i: int|
            0 <= i < ms.skip(1).len() ==> match_accepted(#[trigger] ms.skip(1)[i], mode, alignment)
                && ms.skip(1)[i] == ms[i + 1]);
        lemma_selected_complete(ms.skip(1), mode, alignment, budget - 1);
    }
}

/// Law (alignment filter): every match the scanner emits passed the
/// acceptance filter, so in hex mode under a non-zero alignment every
/// emitted offset is an exact multiple of it; a match that misses the
/// constraint is suppressed yet still consumed budget.
pub proof fn lemma_selected_accepted(
    ms: Seq<(usize, usize)>,
    mode: ContentMode,
    alignment: u32,
    budget: int,
)
    ensures
        forall|j: int|
            0 <= j < selected_matches(ms, mode, alignment, budget).len() ==> match_accepted(
                #[trigger] selected_matches(ms, mode, alignment, budget)[j],
                mode,
                alignment,
            ),
    decreases ms.len(),
{
    if ms.len() == 0 || budget <= 0 {
    } else {
        lemma_selected_accepted(ms.skip(1), mode, alignment, budget - 1);
        let sel = selected_matches(ms, mode, alignment, budget);
        let tsel = selected_matches(ms.skip(1), mode, alignment, budget - 1);
        if match_accepted(ms[0], mode, alignment) {
            assert forall|j: int| 0 <= j < sel.len() implies match_accepted(
                #[trigger] sel[j],
                mode,
                alignment,
            ) by {
                if j > 0 {
                    assert(sel[j] == tsel[j - 1]);
                }
            }
        }
    }
}

/// A shortened match sequence still satisfies the engine's guarantees.
proof fn lemma_valid_skip(ms: Seq<(usize, usize)>, len: int)
    requires
        valid_match_seq(ms, len),
        ms.len() > 0,
    ensures
        valid_match_seq(ms.skip(1), len),
{
    let t = ms.skip(1);
    assert forall|i: int| 0 <= i < t.len() implies (#[trigger] t[i]).0 <= t[i].1 && t[i].1
        <= len by {
        assert(t[i] == ms[i + 1]);
    }
    assert forall|i: int| 0 <= i && i + 1 < t.len() implies (#[trigger] t[i]).1 <= t[i + 1].0
        && t[i].0 < t[i + 1].0 by {
        assert(t[i] == ms[i + 1]);
        assert(t[i + 1] == ms[i + 2]);
    }
}

/// The first emitted match starts no earlier than the first match.
proof fn lemma_selected_head_start(
    ms: Seq<(usize, usize)>,
    len: int,
    mode: ContentMode,
    alignment: u32,
    budget: int,
)
    requires
        valid_match_seq(ms, len),
        ms.len() > 0,
    ensures
        selected_matches(ms, mode, alignment, budget).len() > 0 ==> selected_matches(
            ms,
            mode,
            alignment,
            budget,
        )[0].0 >= ms[0].0,
    decreases ms.len(),
{
    let sel = selected_matches(ms, mode, alignment, budget);
    if budget <= 0 || sel.len() == 0 {
    } else if match_accepted(ms[0], mode, alignment) {
        assert(sel[0] == ms[0]);
    } else {
        if ms.len() > 1 {
            lemma_valid_skip(ms, len);
            lemma_selected_head_start(ms.skip(1), len, mode, alignment, budget - 1);
            assert(ms.skip(1)[0] == ms[1]);
        } else {
            assert(ms.skip(1) =~= Seq::<(usize, usize)>::empty());
        }
    }
}

/// Law (ordering): the emitted matches inherit the engine's guarantees —
/// in bounds, half-open, starts strictly increasing, non-overlapping.
pub proof fn lemma_selected_valid(
    ms: Seq<(usize, usize)>,
    len: int,
    mode: ContentMode,
    alignment: u32,
    budget: int,
)
    requires
        valid_match_seq(ms, len),
    ensures
        valid_match_seq(selected_matches(ms, mode, alignment, budget), len),
    decreases ms.len(),
{
    let sel = selected_matches(ms, mode, alignment, budget);
    if ms.len() == 0 || budget <= 0 {
    } else {
        lemma_valid_skip(ms, len);
        lemma_selected_valid(ms.skip(1), len, mode, alignment, budget - 1);
        let tsel = selected_matches(ms.skip(1), mode, alignment, budget - 1);
        if match_accepted(ms[0], mode, alignment) {
            assert(sel == seq![ms[0]] + tsel);
            if tsel.len() > 0 {
                lemma_selected_head_start(ms.skip(1), len, mode, alignment, budget - 1);
                assert(ms.skip(1)[0] == ms[1]);
                assert(tsel[0].0 >= ms[1].0);
            }
            assert forall|i: int| 0 <= i < sel.len() implies (#[trigger] sel[i]).0 <= sel[i].1
                && sel[i].1 <= len by {
                if i > 0 {
                    assert(sel[i] == tsel[i - 1]);
                }
            }
            assert forall|i: int| 0 <= i && i + 1 < sel.len() implies (#[trigger] sel[i]).1 <= sel[i
                + 1].0 && sel[i].0 < sel[i + 1].0 by {
                if i == 0 {
                    assert(sel[1] == tsel[0]);
                } else {
                    assert(sel[i] == tsel[i - 1]);
                    assert(sel[i + 1] == tsel[i]);
                }
            }
        }
    }
}

/// Any earlier match ends at or before a later match's start, and starts
/// strictly before it.
pub proof fn lemma_match_order(ms: Seq<(usize, usize)>, len: int, i: int, j: int)
    requires
        valid_match_seq(ms, len),
        0 <= i < j < ms.len(),
    ensures
        ms[i].0 < ms[j].0,
        ms[i].1 <= ms[j].0,
    decreases j - i,
{
    if i + 1 == j {
    } else {
        lemma_match_order(ms, len, i + 1, j);
    }
}

/// Everything the scanner promises of one emitted finding.
pub open spec fn scan_finding_ok(
    f: FindingModel,
    path: Seq<char>,
    data: Seq<u8>,
    mode: ContentMode,
    alignment: u32,
) -> bool {
    &&& f.filepath == path
    &&& 0 <= f.offset
    &&& 0 <= f.match_size
    &&& f.offset + f.match_size <= data.len()
    &&& f.match_content == match mode {
        ContentMode::Hex => hex_pairs_string(data.subrange(f.offset, f.offset + f.match_size)),
        ContentMode::Text => lossy_decoded(data.subrange(f.offset, f.offset + f.match_size)),
    }
    &&& (mode is Hex && alignment != 0 ==> f.offset % (alignment as int) == 0)
}

/// Scans one file's bytes under an option snapshot.
///
/// A snapshot whose pattern failed to compile yields no findings.
/// Otherwise the findings are exactly those selected from the match
/// ranges the expression engine reports for the pattern's source on
/// these bytes: the per-file hit counter counts every reported match; at
/// most `max_hits` findings come out, in strictly increasing offset
/// order, non-overlapping, each rendered from exactly the matched bytes,
/// and, in hex mode under a non-zero alignment, each starting at a
/// multiple of the alignment.
pub fn scan_slice(opts: &SearchOptions, path: &str, data: &[u8]) -> (r: Vec<Finding>)
    ensures
        r@.len() <= opts.max_hits,
        opts.pattern is Err ==> r@.len() == 0,
        opts.pattern matches Ok(p) ==> ({
            let sel = selected_matches(
                matches_of(p.spec_source(), data@),
                p.spec_mode(),
                opts.alignment,
                opts.max_hits as int,
            );
            &&& r@.len() == sel.len()
            &&& forall|i: int|
                0 <= i < r@.len() ==> (#[trigger] r@[i])@ == finding_for(
                    path@,
                    data@,
                    sel[i],
                    p.spec_mode(),
                )
        }),
        opts.pattern matches Ok(p) ==> forall|i: int|
            0 <= i < r@.len() ==> scan_finding_ok(
                (#[trigger] r@[i])@,
                path@,
                data@,
                p.spec_mode(),
                opts.alignment,
            ),
        forall|i: int, j: int|
            0 <= i < j < r@.len() ==> (#[trigger] r@[i])@.offset + r@[i]@.match_size <= (
            #[trigger] r@[j])@.offset && r@[i]@.offset < r@[j]@.offset,
{
    match &opts.pattern {
        Err(_) => Vec::new(),
        Ok(p) => {
            let mode = p.mode();
            let ms = p.find_matches(data);
            let r = select_findings(path, data, &ms, mode, opts.alignment, opts.max_hits);
            proof {
                let len = data@.len() as int;
                let sel = selected_matches(ms@, mode, opts.alignment, opts.max_hits as int);
                lemma_selected_len(ms@, mode, opts.alignment, opts.max_hits as int);
                lemma_selected_accepted(ms@, mode, opts.alignment, opts.max_hits as int);
                lemma_selected_valid(ms@, len, mode, opts.alignment, opts.max_hits as int);
                assert forall|i: int| 0 <= i < r@.len() implies scan_finding_ok(
                    (#[trigger] r@[i])@,
                    path@,
                    data@,
                    mode,
                    opts.alignment,
                ) by {
                    assert(r@[i]@ == finding_for(path@, data@, sel[i], mode));
                    assert((sel[i]).0 <= sel[i].1 && sel[i].1 <= len);
                    assert(match_accepted(sel[i], mode, opts.alignment));
                }
                assert forall|i: int, j: int| 0 <= i < j < r@.len() implies (#[trigger] r@[i])@.offset
                    + r@[i]@.match_size <= (#[trigger] r@[j])@.offset && r@[i]@.offset < r@[j]@.offset by {
                    lemma_match_order(sel, len, i, j);
                }
            }
            r
        },
    }
}

} // verus!
