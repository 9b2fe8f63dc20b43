//! Core data model: candidate novels, reviews, criteria, scores, stop
//! conditions, and the error taxonomy.
//!
//! All free text is carried as raw bytes so that UTF-8 content passes
//! through unchanged. Ratings are held in thousandths of a star
//! (`4398` stands for a 4.398 rating out of 5), and overall scores in
//! thousandths of one (`750` stands for 0.75), so that every comparison
//! and blend is exact integer arithmetic.

use vstd::prelude::*;
use crate::text::sbytes;

verus! {

/// The publication status of a novel on the catalog site.
#[derive(Clone, Copy, PartialEq, Eq, Structural, Debug, Hash)]
pub enum NovelStatus {
    Ongoing,
    Completed,
    Hiatus,
    Dropped,
    Stub,
}

/// The display name of a status.
pub open spec fn status_label_spec(s: NovelStatus) -> Seq<u8> {
    match s {
        NovelStatus::Ongoing => sbytes("Ongoing"@),
        NovelStatus::Completed => sbytes("Completed"@),
        NovelStatus::Hiatus => sbytes("Hiatus"@),
        NovelStatus::Dropped => sbytes("Dropped"@),
        NovelStatus::Stub => sbytes("Stub"@),
    }
}

impl NovelStatus {
    /// The display name of this status.
    pub fn label(&self) -> (r: Vec<u8>)
        ensures
            r@ == status_label_spec(*self),
    {
        proof {
            reveal_strlit("Ongoing");
            reveal_strlit("Completed");
            reveal_strlit("Hiatus");
            reveal_strlit("Dropped");
            reveal_strlit("Stub");
        }
        match self {
            NovelStatus::Ongoing => crate::text::ascii_bytes("Ongoing"),
            NovelStatus::Completed => crate::text::ascii_bytes("Completed"),
            NovelStatus::Hiatus => crate::text::ascii_bytes("Hiatus"),
            NovelStatus::Dropped => crate::text::ascii_bytes("Dropped"),
            NovelStatus::Stub => crate::text::ascii_bytes("Stub"),
        }
    }
}

/// A novel with all extracted metadata.
#[derive(Debug, Clone, PartialEq, Eq)]
pub struct Novel {
    /// The catalog fiction id; the frontier deduplication key.
    pub id: u64,
    /// Title of the novel.
    pub title: Vec<u8>,
    /// Author name.
    pub author: Vec<u8>,
    /// Full URL of the novel page.
    pub url: Vec<u8>,
    /// Description blurb, markup stripped.
    pub description: Vec<u8>,
    /// Total page count.
    pub pages: u64,
    /// Overall rating in thousandths of a star, at most 5000.
    pub rating_milli: u64,
    /// Current publication status.
    pub status: NovelStatus,
    /// Tags associated with the novel.
    pub tags: Vec<Vec<u8>>,
    /// Total number of chapters.
    pub chapter_count: u64,
    /// Chapter titles, in order.
    pub chapter_titles: Vec<Vec<u8>>,
    /// Number of followers.
    pub followers: u64,
    /// Number of favorites.
    pub favorites: u64,
}

impl Novel {
    /// Well-formedness: the rating stays on the five-star scale and the
    /// chapter count is the length of the chapter title list.
    pub open spec fn wf(self) -> bool {
        self.rating_milli <= 5000 && self.chapter_count == self.chapter_titles@.len()
    }
}

/// A user review of a novel.
#[derive(Debug, Clone, PartialEq, Eq)]
pub struct Review {
    /// Review author username.
    pub author: Vec<u8>,
    /// Star rating carried by the review, in thousandths of a star.
    pub rating_milli: u64,
    /// Full text of the review, markup stripped.
    pub text: Vec<u8>,
    /// Date the review was posted, kept verbatim.
    pub posted_date: Vec<u8>,
}

/// User-defined criteria for evaluating novels. Every field is optional:
/// an absent field means "no constraint".
#[derive(Debug, Clone, PartialEq, Eq)]
pub struct Criteria {
    /// A natural-language description of what the user is looking for.
    pub prompt: Option<Vec<u8>>,
    /// Minimum number of pages required.
    pub min_pages: Option<u64>,
    /// Maximum number of pages allowed.
    pub max_pages: Option<u64>,
    /// Minimum overall rating required, in thousandths of a star.
    pub min_rating_milli: Option<u64>,
    /// Allowed publication statuses; absent or empty allows all.
    pub allowed_statuses: Option<Vec<NovelStatus>>,
    /// Tags that must all be present on the novel.
    pub required_tags: Option<Vec<Vec<u8>>>,
    /// Tags that must not be present on the novel.
    pub excluded_tags: Option<Vec<Vec<u8>>>,
}

/// The result of evaluating one novel against the criteria.
#[derive(Debug, Clone, PartialEq, Eq)]
pub struct NovelScore {
    /// The novel that was scored.
    pub novel: Novel,
    /// Overall score in thousandths of one, at most 1000.
    pub overall_milli: u64,
    /// Breakdown of scores by criteria dimension, each in thousandths.
    pub sub_scores: Vec<(Vec<u8>, u64)>,
    /// Human-readable reasoning for the score.
    pub reasoning: Vec<u8>,
}

impl NovelScore {
    /// Well-formedness: the overall score and every sub-score stay in
    /// the unit interval.
    pub open spec fn wf(self) -> bool {
        self.overall_milli <= 1000 && forall|i: int|
            0 <= i < self.sub_scores@.len() ==> (#[trigger] self.sub_scores@[i]).1 <= 1000
    }
}

/// Condition that determines when the pipeline stops processing.
#[derive(Clone, Copy, PartialEq, Eq, Structural, Debug)]
pub enum StopCondition {
    /// Stop after evaluating this many novels.
    MaxNovels(usize),
    /// Stop after this many seconds have elapsed since the run started.
    MaxTime(u64),
    /// Stop only when the frontier queue is empty.
    EmptyQueue,
}

/// Malformed or incomplete startup configuration; fatal, the run never
/// starts.
#[derive(Clone, Copy, PartialEq, Eq, Structural, Debug)]
pub enum ConfigError {
    /// A status string is not one of the five known statuses.
    UnknownStatus,
    /// The evaluation mode selector is not `local` or `llm`.
    UnknownEvalMode,
    /// The external-service mode requires an API key.
    MissingLlmApiKey,
    /// The external-service mode requires a model identifier.
    MissingLlmModel,
    /// The external-service mode requires an endpoint URL.
    MissingLlmEndpoint,
    /// The seed-source selector is not `manual` or `search`.
    UnknownSeedSource,
    /// The manual seed source requires a list of URLs or ids.
    MissingSeedUrls,
    /// The search seed source requires a query string.
    MissingSearchQuery,
    /// The stop-condition selector is not a known kind.
    UnknownStopCondition,
    /// The selected stop condition requires a numeric value.
    MissingStopValue,
}

/// A required structured field was absent from fetched content during
/// single-record extraction; fatal for that extraction call.
#[derive(Clone, Copy, PartialEq, Eq, Structural, Debug)]
pub enum ParseError {
    /// No embedded structured data block was found, or it was malformed.
    MissingEmbeddedData,
    /// The structured block has no usable name field.
    MissingTitle,
    /// The structured block has no usable author name.
    MissingAuthor,
    /// The structured block has no usable description.
    MissingDescription,
    /// The structured block has no usable page count.
    MissingPages,
    /// The structured block has no usable rating, or it is off the
    /// five-star scale.
    MissingRating,
    /// The structured block has no usable tag list.
    MissingTags,
    /// No publication-status label was found in the page markup.
    MissingStatus,
    /// A counter text held no digits, or a number overflowed.
    InvalidNumber,
    /// No follower counter was found in the page markup.
    MissingFollowers,
    /// No favorite counter was found in the page markup.
    MissingFavorites,
    /// No embedded chapter list was found in the page.
    MissingChapters,
    /// A related-items or search payload was not the expected array.
    MalformedPayload,
    /// A seed string is neither a numeric id nor a novel URL with one.
    InvalidId,
}

/// The active evaluator could not produce a score; fatal, aborts the run.
#[derive(Clone, Copy, PartialEq, Eq, Structural, Debug)]
pub enum EvalError {
    /// The scoring service response was not the expected structure.
    MalformedResponse,
    /// The scoring service response carries no overall score.
    MissingScore,
    /// A score in the response is outside the unit interval.
    OutOfRange,
}

} // verus!
