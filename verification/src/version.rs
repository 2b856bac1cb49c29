//! Finding a dotted version number in what a browser or a driver printed.
use vstd::prelude::*;
use crate::error::{Error, ErrorView};
use crate::text::{contains_lowered, has_infix, lower, split, split_on, texts, trim_trailing_dot, without_trailing_dot};

verus! {

/// The word whose presence, in any letter case, marks output that reports a
/// failure.
pub const ERROR_MARK: &'static str = "error";

/// Matches every character that is neither a digit nor a dot.
pub const STRIP_PATTERN: &'static str = r"[^\d.]";

/// Matches a run of three groups of digits with dots between them, with up
/// to two more such groups before it.
pub const VERSION_PATTERN: &'static str = r"(?:(\d+)\.)?(?:(\d+)\.)?(?:(\d+)\.\d+\.\d+)";

/// Whether `regex` accepts the pattern.
pub uninterp spec fn pattern_compiles(pattern: Seq<char>) -> bool;

/// The text with every match of the pattern exchanged for the replacement,
/// as `regex` does it.
pub uninterp spec fn replaced_text(pattern: Seq<char>, text: Seq<char>, replacement: Seq<char>) -> Seq<char>;

/// Whether `regex` finds a match of the pattern anywhere in the text.
pub uninterp spec fn has_match(pattern: Seq<char>, text: Seq<char>) -> bool;

/// Compiles the pattern with `regex::Regex::new` and calls
/// `Regex::replace_all`. Assumed: whether the pattern compiles depends on
/// the pattern alone, and the new text on the three arguments alone.
#[verifier::external_body]
fn regex_replace_all(pattern: &str, text: &str, replacement: &str) -> (r: Option<String>)
    ensures
        match r {
            Some(s) => pattern_compiles(pattern@) && s@ == replaced_text(pattern@, text@, replacement@),
            None => !pattern_compiles(pattern@),
        },
{
    let re = regex::Regex::new(pattern).ok()?;
    Some(re.replace_all(text, replacement).into_owned())
}

/// Compiles the pattern with `regex::Regex::new` and calls
/// `Regex::is_match`. Assumed: whether the pattern compiles depends on the
/// pattern alone, and the answer on the two arguments alone.
#[verifier::external_body]
fn regex_is_match(pattern: &str, text: &str) -> (r: Option<bool>)
    ensures
        match r {
            Some(found) => pattern_compiles(pattern@) && found == has_match(pattern@, text@),
            None => !pattern_compiles(pattern@),
        },
{
    let re = regex::Regex::new(pattern).ok()?;
    Some(re.is_match(text))
}

/// What is left of one word of the output once everything but digits and
/// dots is taken away, and whether a version number was found in it.
#[derive(Debug, Clone, PartialEq, Eq)]
pub struct Candidate {
    pub text: String,
    pub is_version: bool,
}

/// The mathematical value of a [`Candidate`].
pub struct CandidateView {
    pub text: Seq<char>,
    pub is_version: bool,
}

impl View for Candidate {
    type V = CandidateView;

    open spec fn view(&self) -> CandidateView {
        CandidateView { text: self.text@, is_version: self.is_version }
    }
}

/// The views of a sequence of candidates.
pub open spec fn candidate_views(v: Seq<Candidate>) -> Seq<CandidateView> {
    v.map_values(|c: Candidate| c@)
}

/// The text of the first candidate that is a version; where none is, the
/// text of the last candidate; where there is no candidate, nothing.
pub open spec fn picked(candidates: Seq<CandidateView>) -> Seq<char>
    decreases candidates.len(),
{
    if candidates.len() == 0 {
        Seq::<char>::empty()
    } else if candidates[0].is_version || candidates.len() == 1 {
        candidates[0].text
    } else {
        picked(candidates.drop_first())
    }
}

/// The version that a sequence of candidates stands for: the picked text,
/// less one trailing dot.
pub open spec fn chosen(candidates: Seq<CandidateView>) -> Seq<char> {
    without_trailing_dot(picked(candidates))
}

/// What one word of the output leaves as a candidate.
pub open spec fn candidate_of(token: Seq<char>) -> CandidateView {
    let text = replaced_text(STRIP_PATTERN@, token, Seq::<char>::empty());
    CandidateView { text, is_version: has_match(VERSION_PATTERN@, text) }
}

/// The mathematical value of what parsing returns.
pub open spec fn parsed(r: Result<String, Error>) -> Result<Seq<char>, ErrorView> {
    match r {
        Ok(version) => Ok(version@),
        Err(e) => Err(e@),
    }
}

/// What parsing a text gives. Output that holds the word "error" in any
/// letter case stands for no version. Otherwise the text is cut at single
/// spaces, each word leaves a candidate, and the version is chosen among
/// the candidates.
pub open spec fn parse_outcome(text: Seq<char>) -> Result<Seq<char>, ErrorView> {
    if has_infix(lower(text), ERROR_MARK@) {
        Err(ErrorView::WrongVersion)
    } else if !pattern_compiles(STRIP_PATTERN@) || !pattern_compiles(VERSION_PATTERN@) {
        Err(ErrorView::InvalidPattern)
    } else {
        Ok(chosen(split_on(text, ' ').map_values(|token: Seq<char>| candidate_of(token))))
    }
}

/// The picked text is that of the first version, or of the last candidate
/// where no candidate is a version: with no version among the first `n - 1`
/// candidates, and candidate `n - 1` a version or the last, it is the text
/// of candidate `n - 1`.
pub proof fn lemma_picked(candidates: Seq<CandidateView>, n: int)
    requires
        0 < n <= candidates.len(),
        forall|j: int| 0 <= j < n - 1 ==> !candidates[j].is_version,
        candidates[n - 1].is_version || n == candidates.len(),
    ensures
        picked(candidates) == candidates[n - 1].text,
    decreases candidates.len(),
{
    if n > 1 {
        lemma_picked(candidates.drop_first(), n - 1);
    }
}

/// Chooses the version among the candidates: the first that is a version,
/// else the last, less one trailing dot.
pub fn choose_version(candidates: &Vec<Candidate>) -> (r: String)
    ensures
        r@ == chosen(candidate_views(candidates@)),
{
    let ghost views = candidate_views(candidates@);
    if candidates.len() == 0 {
        return String::new();
    }
    let last: usize = candidates.len() - 1;
    let mut i: usize = 0;
    while i < last && !candidates[i].is_version
        invariant
            i <= last,
            last == candidates.len() - 1,
            views == candidate_views(candidates@),
            forall|j: int| 0 <= j < i ==> !views[j].is_version,
        decreases last - i,
    {
        i += 1;
    }
    proof {
        lemma_picked(views, i + 1);
    }
    trim_trailing_dot(candidates[i].text.clone())
}

/// Extracts a dotted version number from the output of a browser or a
/// driver.
pub fn parse_version(version_text: String) -> (r: Result<String, Error>)
    ensures
        parsed(r) == parse_outcome(version_text@),
{
    if contains_lowered(version_text.as_str(), ERROR_MARK) {
        return Err(Error::WrongVersion);
    }
    let tokens = split(version_text.as_str(), ' ');
    let ghost all = split_on(version_text@, ' ').map_values(|token: Seq<char>| candidate_of(token));
    let mut candidates: Vec<Candidate> = Vec::new();
    let mut i: usize = 0;
    let mut found = false;
    proof {
        reveal_strlit("");
    }
    while i < tokens.len() && !found
        invariant
            i <= tokens.len(),
            tokens.len() >= 1,
            texts(tokens@) == split_on(version_text@, ' '),
            all == split_on(version_text@, ' ').map_values(|token: Seq<char>| candidate_of(token)),
            !has_infix(lower(version_text@), ERROR_MARK@),
            ""@.len() == 0,
            candidate_views(candidates@) == all.take(i as int),
            i > 0 ==> pattern_compiles(STRIP_PATTERN@) && pattern_compiles(VERSION_PATTERN@),
            found ==> i > 0 && all[i - 1].is_version,
            forall|j: int| 0 <= j < i - 1 ==> !all[j].is_version,
            !found ==> forall|j: int| 0 <= j < i ==> !all[j].is_version,
        decreases tokens.len() - i,
    {
        let text = match regex_replace_all(STRIP_PATTERN, tokens[i].as_str(), "") {
            Some(text) => text,
            None => {
                return Err(Error::InvalidPattern);
            },
        };
        assert(""@ =~= Seq::<char>::empty());
        let is_version = match regex_is_match(VERSION_PATTERN, text.as_str()) {
            Some(is_version) => is_version,
            None => {
                return Err(Error::InvalidPattern);
            },
        };
        let candidate = Candidate { text, is_version };
        candidates.push(candidate);
        found = is_version;
        i += 1;
        assert(all.take(i as int) =~= all.take(i - 1).push(all[i - 1]));
    }
    proof {
        lemma_picked(all, i as int);
        lemma_picked(all.take(i as int), i as int);
    }
    Ok(choose_version(&candidates))
}

} // verus!
