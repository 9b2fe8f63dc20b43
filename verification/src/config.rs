//! Startup configuration: the plain values read from the configuration
//! document, validated and assembled into the typed configuration the
//! pipeline runs on. Reading and deserializing the document itself is
//! the caller's job; every rule about which fields a selected mode
//! requires lives here.

use vstd::prelude::*;
use crate::models::{ConfigError, Criteria, NovelStatus, StopCondition};
use crate::scraper::novel_page::{status_of_text, status_of_text_exec};
use crate::text::{ascii_bytes, eq_bytes, sbytes};

verus! {

/// The evaluation mode to use for scoring novels.
#[derive(Debug, Clone, PartialEq, Eq)]
pub enum EvalMode {
    /// Local evaluation using keyword matching and heuristics.
    Local,
    /// Evaluation through an external scoring service.
    Llm { api_key: Vec<u8>, model: Vec<u8>, endpoint: Vec<u8> },
}

/// How seed novels are sourced.
#[derive(Debug, Clone, PartialEq, Eq)]
pub enum SeedSource {
    /// Manually specified list of novel URLs or ids.
    Manual(Vec<Vec<u8>>),
    /// Resolved from the catalog's search.
    Search { query: Vec<u8>, max_results: usize },
}

/// Top-level application configuration.
#[derive(Debug, Clone, PartialEq, Eq)]
pub struct AppConfig {
    /// User-defined evaluation criteria.
    pub criteria: Criteria,
    /// Which evaluation mode to use.
    pub eval_mode: EvalMode,
    /// How to obtain seed novels.
    pub seed_source: SeedSource,
    /// When to stop the pipeline.
    pub stop_condition: StopCondition,
    /// Whether to expand the frontier with discovered novels.
    pub discovery_enabled: bool,
}

/// The plain values read from the configuration document, before
/// validation.
#[derive(Debug, Clone, PartialEq, Eq)]
pub struct RawConfig {
    pub prompt: Option<Vec<u8>>,
    pub min_pages: Option<u64>,
    pub max_pages: Option<u64>,
    /// Minimum rating in thousandths of a star.
    pub min_rating_milli: Option<u64>,
    /// Status names, matched case-insensitively.
    pub allowed_statuses: Option<Vec<Vec<u8>>>,
    pub required_tags: Option<Vec<Vec<u8>>>,
    pub excluded_tags: Option<Vec<Vec<u8>>>,
    /// `local` or `llm`.
    pub eval_mode: Vec<u8>,
    pub llm_api_key: Option<Vec<u8>>,
    pub llm_model: Option<Vec<u8>>,
    pub llm_endpoint: Option<Vec<u8>>,
    /// `manual` or `search`.
    pub seed_source: Vec<u8>,
    pub seed_urls: Option<Vec<Vec<u8>>>,
    pub search_query: Option<Vec<u8>>,
    pub search_max_results: Option<u64>,
    /// `max_novels`, `max_time` or `empty_queue`.
    pub stop_kind: Vec<u8>,
    /// Count for `max_novels`, seconds for `max_time`.
    pub stop_value: Option<u64>,
    pub discovery_enabled: bool,
}

/// Parse a status name, ASCII case-insensitively.
pub fn parse_status(s: &Vec<u8>) -> (r: Result<NovelStatus, ConfigError>)
    ensures
        match status_of_text(s@) {
            Some(st) => r == Ok::<NovelStatus, ConfigError>(st),
            None => r == Err::<NovelStatus, ConfigError>(ConfigError::UnknownStatus),
        },
{
    match status_of_text_exec(s) {
        Some(st) => Ok(st),
        None => Err(ConfigError::UnknownStatus),
    }
}

/// Every configured status name is a known status.
pub open spec fn statuses_ok(opt: Option<Vec<Vec<u8>>>) -> bool {
    match opt {
        Some(ss) => forall|i: int|
            0 <= i < ss@.len() ==> status_of_text((#[trigger] ss@[i])@) is Some,
        None => true,
    }
}

/// The parsed status list corresponds to the configured names.
pub open spec fn statuses_map(opt: Option<Vec<Vec<u8>>>, out: Option<Vec<NovelStatus>>) -> bool {
    match opt {
        Some(ss) => match out {
            Some(ts) => ts@.len() == ss@.len() && forall|i: int|
                0 <= i < ss@.len() ==> status_of_text((#[trigger] ss@[i])@) == Some(ts@[i]),
            None => false,
        },
        None => out is None,
    }
}

/// The configuration error the evaluation-mode fields earn, if any.
pub open spec fn eval_mode_err(raw: RawConfig) -> Option<ConfigError> {
    if raw.eval_mode@ == sbytes("local"@) {
        None
    } else if raw.eval_mode@ == sbytes("llm"@) {
        if raw.llm_api_key is None {
            Some(ConfigError::MissingLlmApiKey)
        } else if raw.llm_model is None {
            Some(ConfigError::MissingLlmModel)
        } else if raw.llm_endpoint is None {
            Some(ConfigError::MissingLlmEndpoint)
        } else {
            None
        }
    } else {
        Some(ConfigError::UnknownEvalMode)
    }
}

/// The configuration error the seed-source fields earn, if any.
pub open spec fn seed_source_err(raw: RawConfig) -> Option<ConfigError> {
    if raw.seed_source@ == sbytes("manual"@) {
        if raw.seed_urls is None {
            Some(ConfigError::MissingSeedUrls)
        } else {
            None
        }
    } else if raw.seed_source@ == sbytes("search"@) {
        if raw.search_query is None {
            Some(ConfigError::MissingSearchQuery)
        } else {
            None
        }
    } else {
        Some(ConfigError::UnknownSeedSource)
    }
}

/// The configuration error the stop-condition fields earn, if any.
pub open spec fn stop_err(raw: RawConfig) -> Option<ConfigError> {
    if raw.stop_kind@ == sbytes("max_novels"@) || raw.stop_kind@ == sbytes("max_time"@) {
        if raw.stop_value is None {
            Some(ConfigError::MissingStopValue)
        } else {
            None
        }
    } else if raw.stop_kind@ == sbytes("empty_queue"@) {
        None
    } else {
        Some(ConfigError::UnknownStopCondition)
    }
}

/// The first configuration error, in validation order: statuses, then
/// the evaluation mode, then the seed source, then the stop condition.
pub open spec fn first_config_error(raw: RawConfig) -> Option<ConfigError> {
    if !statuses_ok(raw.allowed_statuses) {
        Some(ConfigError::UnknownStatus)
    } else if eval_mode_err(raw) is Some {
        eval_mode_err(raw)
    } else if seed_source_err(raw) is Some {
        seed_source_err(raw)
    } else if stop_err(raw) is Some {
        stop_err(raw)
    } else {
        None
    }
}

/// The built evaluation mode corresponds to the raw fields.
pub open spec fn eval_mode_match(raw: RawConfig, m: EvalMode) -> bool {
    match m {
        EvalMode::Local => raw.eval_mode@ == sbytes("local"@),
        EvalMode::Llm { api_key, model, endpoint } => raw.eval_mode@ == sbytes("llm"@)
            && raw.llm_api_key == Some(api_key) && raw.llm_model == Some(model)
            && raw.llm_endpoint == Some(endpoint),
    }
}

/// The built seed source corresponds to the raw fields; a missing
/// search cap defaults to twenty.
pub open spec fn seed_source_match(raw: RawConfig, s: SeedSource) -> bool {
    match s {
        SeedSource::Manual(urls) => raw.seed_source@ == sbytes("manual"@) && raw.seed_urls
            == Some(urls),
        SeedSource::Search { query, max_results } => raw.seed_source@ == sbytes("search"@)
            && raw.search_query == Some(query) && max_results as int == (match raw
            .search_max_results {
            Some(v) => v as usize as int,
            None => 20,
        }),
    }
}

/// The built stop condition corresponds to the raw fields.
pub open spec fn stop_match(raw: RawConfig, sc: StopCondition) -> bool {
    match sc {
        StopCondition::MaxNovels(m) => raw.stop_kind@ == sbytes("max_novels"@) && (raw.stop_value
            matches Some(v) && m == v as usize),
        StopCondition::MaxTime(t) => raw.stop_kind@ == sbytes("max_time"@) && raw.stop_value
            == Some(t),
        StopCondition::EmptyQueue => raw.stop_kind@ == sbytes("empty_queue"@),
    }
}

/// Validate the raw configuration values and build the typed
/// configuration; a missing required sub-field of a selected mode is an
/// error before the run starts.
pub fn build_config(raw: RawConfig) -> (r: Result<AppConfig, ConfigError>)
    ensures
        r is Ok <==> first_config_error(raw) is None,
        r matches Err(e) ==> Some(e) == first_config_error(raw),
        r matches Ok(cfg) ==> {
            &&& cfg.criteria.prompt == raw.prompt
            &&& cfg.criteria.min_pages == raw.min_pages
            &&& cfg.criteria.max_pages == raw.max_pages
            &&& cfg.criteria.min_rating_milli == raw.min_rating_milli
            &&& statuses_map(raw.allowed_statuses, cfg.criteria.allowed_statuses)
            &&& cfg.criteria.required_tags == raw.required_tags
            &&& cfg.criteria.excluded_tags == raw.excluded_tags
            &&& eval_mode_match(raw, cfg.eval_mode)
            &&& seed_source_match(raw, cfg.seed_source)
            &&& stop_match(raw, cfg.stop_condition)
            &&& cfg.discovery_enabled == raw.discovery_enabled
        },
{
    proof {
        reveal_strlit("local");
        reveal_strlit("llm");
        reveal_strlit("manual");
        reveal_strlit("search");
        reveal_strlit("max_novels");
        reveal_strlit("max_time");
        reveal_strlit("empty_queue");
    }
    let RawConfig {
        prompt,
        min_pages,
        max_pages,
        min_rating_milli,
        allowed_statuses,
        required_tags,
        excluded_tags,
        eval_mode,
        llm_api_key,
        llm_model,
        llm_endpoint,
        seed_source,
        seed_urls,
        search_query,
        search_max_results,
        stop_kind,
        stop_value,
        discovery_enabled,
    } = raw;
    let parsed_statuses: Option<Vec<NovelStatus>> = match allowed_statuses {
        Some(ss) => {
            let mut out: Vec<NovelStatus> = Vec::new();
            let mut i: usize = 0;
            while i < ss.len()
                invariant
                    0 <= i <= ss@.len(),
                    raw.allowed_statuses == Some(ss),
                    out@.len() == i,
                    forall|k: int|
                        0 <= k < i ==> status_of_text((#[trigger] ss@[k])@) == Some(out@[k]),
                decreases ss@.len() - i,
            {
                match status_of_text_exec(&ss[i]) {
                    Some(st) => {
                        out.push(st);
                    },
                    None => {
                        proof {
                            assert(status_of_text((raw.allowed_statuses->Some_0@[i as int])@)
                                is None);
                            assert(!statuses_ok(raw.allowed_statuses));
                        }
                        return Err(ConfigError::UnknownStatus);
                    },
                }
                i += 1;
            }
            Some(out)
        },
        None => None,
    };
    proof {
        assert(statuses_ok(raw.allowed_statuses));
        assert(statuses_map(raw.allowed_statuses, parsed_statuses));
    }
    let criteria = Criteria {
        prompt,
        min_pages,
        max_pages,
        min_rating_milli,
        allowed_statuses: parsed_statuses,
        required_tags,
        excluded_tags,
    };
    let eval_mode_built: EvalMode = if eq_bytes(&eval_mode, &ascii_bytes("local")) {
        EvalMode::Local
    } else if eq_bytes(&eval_mode, &ascii_bytes("llm")) {
        let api_key = match llm_api_key {
            Some(k) => k,
            None => {
                return Err(ConfigError::MissingLlmApiKey);
            },
        };
        let model = match llm_model {
            Some(m) => m,
            None => {
                return Err(ConfigError::MissingLlmModel);
            },
        };
        let endpoint = match llm_endpoint {
            Some(e) => e,
            None => {
                return Err(ConfigError::MissingLlmEndpoint);
            },
        };
        EvalMode::Llm { api_key, model, endpoint }
    } else {
        return Err(ConfigError::UnknownEvalMode);
    };
    let seed_built: SeedSource = if eq_bytes(&seed_source, &ascii_bytes("manual")) {
        match seed_urls {
            Some(urls) => SeedSource::Manual(urls),
            None => {
                return Err(ConfigError::MissingSeedUrls);
            },
        }
    } else if eq_bytes(&seed_source, &ascii_bytes("search")) {
        match search_query {
            Some(query) => {
                let max_results: usize = match search_max_results {
                    Some(v) => v as usize,
                    None => 20,
                };
                SeedSource::Search { query, max_results }
            },
            None => {
                return Err(ConfigError::MissingSearchQuery);
            },
        }
    } else {
        return Err(ConfigError::UnknownSeedSource);
    };
    let stop_built: StopCondition = if eq_bytes(&stop_kind, &ascii_bytes("max_novels")) {
        match stop_value {
            Some(v) => StopCondition::MaxNovels(v as usize),
            None => {
                return Err(ConfigError::MissingStopValue);
            },
        }
    } else if eq_bytes(&stop_kind, &ascii_bytes("max_time")) {
        match stop_value {
            Some(v) => StopCondition::MaxTime(v),
            None => {
                return Err(ConfigError::MissingStopValue);
            },
        }
    } else if eq_bytes(&stop_kind, &ascii_bytes("empty_queue")) {
        StopCondition::EmptyQueue
    } else {
        return Err(ConfigError::UnknownStopCondition);
    };
    Ok(
        AppConfig {
            criteria,
            eval_mode: eval_mode_built,
            seed_source: seed_built,
            stop_condition: stop_built,
            discovery_enabled,
        },
    )
}

} // verus!
