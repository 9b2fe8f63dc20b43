//! Tests for the frontier queue, the hard filter, seed-id parsing,
//! configuration validation, scoring, ordering, and the pipeline state
//! machine.

use novel_finder::config::{build_config, parse_status, AppConfig, EvalMode, RawConfig, SeedSource};
use novel_finder::eval::local::LocalEvaluator;
use novel_finder::eval::llm::LlmEvaluator;
use novel_finder::eval::filter::passes_hard_filters;
use novel_finder::eval::{Evaluation, Evaluator};
use novel_finder::models::{
    ConfigError, Criteria, EvalError, Novel, NovelScore, NovelStatus, ParseError, Review,
    StopCondition,
};
use novel_finder::pipeline::{parse_novel_id, AfterScore, Pipeline, ReviewStep, Step};
use novel_finder::queue::NovelQueue;
use novel_finder::ranking::sort_by_score_desc;

fn b(s: &str) -> Vec<u8> {
    s.as_bytes().to_vec()
}

fn mk_novel(id: u64, rating_milli: u64, pages: u64) -> Novel {
    Novel {
        id,
        title: b("Title"),
        author: b("Author"),
        url: b("https://www.royalroad.com/fiction/0"),
        description: b("A story about a bunny heroine"),
        pages,
        rating_milli,
        status: NovelStatus::Ongoing,
        tags: vec![b("LitRPG"), b("Fantasy")],
        chapter_count: 50,
        chapter_titles: vec![],
        followers: 5000,
        favorites: 100,
    }
}

fn open_criteria() -> Criteria {
    Criteria {
        prompt: None,
        min_pages: None,
        max_pages: None,
        min_rating_milli: None,
        allowed_statuses: None,
        required_tags: None,
        excluded_tags: None,
    }
}

#[test]
fn queue_dedup_is_idempotent() {
    let mut q = NovelQueue::new();
    assert!(q.is_empty());
    assert!(q.push(mk_novel(1, 4000, 100)));
    assert!(!q.push(mk_novel(1, 4500, 300)));
    assert_eq!(q.len(), 1);
    assert!(q.has_seen(1));
    assert!(!q.has_seen(2));

    let popped = q.pop().unwrap();
    assert_eq!(popped.id, 1);
    assert!(q.is_empty());
    // seen is permanent: the id stays seen even after the pop
    assert!(q.has_seen(1));
    assert!(!q.push(mk_novel(1, 4000, 100)));
    assert_eq!(q.len(), 0);
    assert_eq!(q.pop(), None);
}

#[test]
fn queue_is_fifo() {
    let mut q = NovelQueue::new();
    q.push(mk_novel(1, 0, 0));
    q.push(mk_novel(2, 0, 0));
    q.push(mk_novel(3, 0, 0));
    assert_eq!(q.pop().unwrap().id, 1);
    assert_eq!(q.pop().unwrap().id, 2);
    assert_eq!(q.pop().unwrap().id, 3);
}

#[test]
fn hard_filter_boundaries_are_inclusive() {
    let novel = mk_novel(1, 4000, 200);
    let mut c = open_criteria();
    assert!(passes_hard_filters(&novel, &c));

    c.min_pages = Some(200);
    c.max_pages = Some(200);
    c.min_rating_milli = Some(4000);
    assert!(passes_hard_filters(&novel, &c));

    c.min_pages = Some(201);
    assert!(!passes_hard_filters(&novel, &c));
    c.min_pages = None;
    c.max_pages = Some(199);
    assert!(!passes_hard_filters(&novel, &c));
    c.max_pages = None;
    c.min_rating_milli = Some(4001);
    assert!(!passes_hard_filters(&novel, &c));
}

#[test]
fn hard_filter_statuses_and_tags() {
    let novel = mk_novel(1, 4000, 200);
    let mut c = open_criteria();

    c.allowed_statuses = Some(vec![]);
    assert!(passes_hard_filters(&novel, &c), "empty allow-list is no constraint");
    c.allowed_statuses = Some(vec![NovelStatus::Completed]);
    assert!(!passes_hard_filters(&novel, &c));
    c.allowed_statuses = Some(vec![NovelStatus::Completed, NovelStatus::Ongoing]);
    assert!(passes_hard_filters(&novel, &c));

    c.required_tags = Some(vec![b("litrpg"), b("FANTASY")]);
    assert!(passes_hard_filters(&novel, &c), "tag match is case-insensitive");
    c.required_tags = Some(vec![b("Romance")]);
    assert!(!passes_hard_filters(&novel, &c));
    c.required_tags = None;

    c.excluded_tags = Some(vec![b("horror")]);
    assert!(passes_hard_filters(&novel, &c));
    c.excluded_tags = Some(vec![b("fantasy")]);
    assert!(!passes_hard_filters(&novel, &c));
}

#[test]
fn parse_novel_id_accepts_ids_and_urls() {
    assert_eq!(parse_novel_id(&b("12345")).unwrap(), 12345);
    assert_eq!(
        parse_novel_id(&b("https://www.royalroad.com/fiction/12345/some-title")).unwrap(),
        12345
    );
    assert_eq!(parse_novel_id(&b("fiction/99")).unwrap(), 99);
    assert_eq!(parse_novel_id(&b("nope")), Err(ParseError::InvalidId));
    assert_eq!(
        parse_novel_id(&b("https://www.royalroad.com/fiction/abc")),
        Err(ParseError::InvalidId)
    );
    assert_eq!(
        parse_novel_id(&b("99999999999999999999")),
        Err(ParseError::InvalidId)
    );
    assert_eq!(parse_novel_id(&b("")), Err(ParseError::InvalidId));
}

#[test]
fn status_parsing_and_labels() {
    assert_eq!(parse_status(&b("ongoing")).unwrap(), NovelStatus::Ongoing);
    assert_eq!(parse_status(&b("STUB")).unwrap(), NovelStatus::Stub);
    assert_eq!(parse_status(&b("Hiatus")).unwrap(), NovelStatus::Hiatus);
    assert_eq!(parse_status(&b("unknown")), Err(ConfigError::UnknownStatus));
    assert_eq!(NovelStatus::Stub.label(), b("Stub"));
    assert_eq!(NovelStatus::Completed.label(), b("Completed"));
}

fn raw_local_config() -> RawConfig {
    RawConfig {
        prompt: Some(b("bunny adventures")),
        min_pages: Some(100),
        max_pages: None,
        min_rating_milli: Some(4000),
        allowed_statuses: Some(vec![b("ongoing"), b("COMPLETED")]),
        required_tags: Some(vec![b("LitRPG")]),
        excluded_tags: None,
        eval_mode: b("local"),
        llm_api_key: None,
        llm_model: None,
        llm_endpoint: None,
        seed_source: b("manual"),
        seed_urls: Some(vec![b("12345")]),
        search_query: None,
        search_max_results: None,
        stop_kind: b("max_novels"),
        stop_value: Some(5),
        discovery_enabled: true,
    }
}

#[test]
fn config_builds_and_maps_fields() {
    let cfg: AppConfig = build_config(raw_local_config()).unwrap();
    assert_eq!(cfg.criteria.min_pages, Some(100));
    assert_eq!(cfg.criteria.min_rating_milli, Some(4000));
    assert_eq!(
        cfg.criteria.allowed_statuses,
        Some(vec![NovelStatus::Ongoing, NovelStatus::Completed])
    );
    assert_eq!(cfg.eval_mode, EvalMode::Local);
    assert_eq!(cfg.seed_source, SeedSource::Manual(vec![b("12345")]));
    assert_eq!(cfg.stop_condition, StopCondition::MaxNovels(5));
    assert!(cfg.discovery_enabled);
}

#[test]
fn config_search_default_cap_is_twenty() {
    let mut raw = raw_local_config();
    raw.seed_source = b("search");
    raw.search_query = Some(b("bunny"));
    let cfg = build_config(raw).unwrap();
    assert_eq!(
        cfg.seed_source,
        SeedSource::Search { query: b("bunny"), max_results: 20 }
    );
}

#[test]
fn config_errors_name_the_missing_field() {
    let mut raw = raw_local_config();
    raw.allowed_statuses = Some(vec![b("ongoing"), b("paused")]);
    assert_eq!(build_config(raw), Err(ConfigError::UnknownStatus));

    let mut raw = raw_local_config();
    raw.eval_mode = b("cloud");
    assert_eq!(build_config(raw), Err(ConfigError::UnknownEvalMode));

    let mut raw = raw_local_config();
    raw.eval_mode = b("llm");
    assert_eq!(build_config(raw), Err(ConfigError::MissingLlmApiKey));
    let mut raw = raw_local_config();
    raw.eval_mode = b("llm");
    raw.llm_api_key = Some(b("SECRET-REDACTED"));
    assert_eq!(build_config(raw), Err(ConfigError::MissingLlmModel));
    let mut raw = raw_local_config();
    raw.eval_mode = b("llm");
    raw.llm_api_key = Some(b("SECRET-REDACTED"));
    raw.llm_model = Some(b("scorer-1"));
    assert_eq!(build_config(raw), Err(ConfigError::MissingLlmEndpoint));

    let mut raw = raw_local_config();
    raw.seed_source = b("rss");
    assert_eq!(build_config(raw), Err(ConfigError::UnknownSeedSource));
    let mut raw = raw_local_config();
    raw.seed_urls = None;
    assert_eq!(build_config(raw), Err(ConfigError::MissingSeedUrls));
    let mut raw = raw_local_config();
    raw.seed_source = b("search");
    assert_eq!(build_config(raw), Err(ConfigError::MissingSearchQuery));

    let mut raw = raw_local_config();
    raw.stop_kind = b("forever");
    assert_eq!(build_config(raw), Err(ConfigError::UnknownStopCondition));
    let mut raw = raw_local_config();
    raw.stop_value = None;
    assert_eq!(build_config(raw), Err(ConfigError::MissingStopValue));
}

fn mk_score(id: u64, overall: u64, tag: &str) -> NovelScore {
    let mut n = mk_novel(id, 4000, 100);
    n.title = b(tag);
    NovelScore { novel: n, overall_milli: overall, sub_scores: vec![], reasoning: b("r") }
}

#[test]
fn results_sort_descending_and_stable() {
    let scores = vec![
        mk_score(1, 500, "a"),
        mk_score(2, 900, "b"),
        mk_score(3, 500, "c"),
        mk_score(4, 700, "d"),
    ];
    let sorted = sort_by_score_desc(scores);
    let order: Vec<(u64, u64)> = sorted.iter().map(|s| (s.novel.id, s.overall_milli)).collect();
    assert_eq!(order, vec![(2, 900), (4, 700), (1, 500), (3, 500)]);
}

#[test]
fn local_evaluator_blends_fixed_weights() {
    let eval = LocalEvaluator::new();
    // rating 4000 -> 800; followers 5000 -> 500; chapters 50 -> 500
    let novel = mk_novel(7, 4000, 100);
    let c = open_criteria();
    match eval.evaluate(novel, &vec![], &c).unwrap() {
        Evaluation::Ready(score) => {
            assert_eq!(score.overall_milli, (5 * 800 + 3 * 500 + 2 * 500) / 10);
            let names: Vec<Vec<u8>> =
                score.sub_scores.iter().map(|p| p.0.clone()).collect();
            assert_eq!(names, vec![b("rating"), b("popularity"), b("structure")]);
            assert!(!score.reasoning.is_empty());
        },
        _ => panic!("local evaluation must be ready at once"),
    }
}

#[test]
fn local_evaluator_counts_keywords() {
    let eval = LocalEvaluator::new();
    let novel = mk_novel(7, 4000, 100);
    let mut c = open_criteria();
    // "bunny" matches the description; "dragons" matches a review body
    c.prompt = Some(b("Bunny dragons spaceships"));
    let reviews = vec![Review {
        author: b("r1"),
        rating_milli: 5000,
        text: b("So many DRAGONS in this one"),
        posted_date: b("2025-01-01T00:00:00"),
    }];
    match eval.evaluate(novel, &reviews, &c).unwrap() {
        Evaluation::Ready(score) => {
            // matched 2 of 3 keywords -> 666; rating 800, popularity 500,
            // structure 500
            let kw = 1000 * 2 / 3;
            assert_eq!(
                score.overall_milli,
                (4 * kw + 3 * 800 + 2 * 500 + 500) / 10
            );
            assert_eq!(score.sub_scores[0].0, b("keywords"));
            assert_eq!(score.sub_scores[0].1, kw);
        },
        _ => panic!("local evaluation must be ready at once"),
    }
}

#[test]
fn llm_evaluator_builds_request_and_parses_response() {
    let eval = LlmEvaluator::new(b("SECRET-REDACTED"), b("scorer-1"), b("https://svc.example/score"));
    let novel = mk_novel(9, 4398, 391);
    let c = open_criteria();
    let (back, req) = match eval.evaluate(novel, &vec![], &c).unwrap() {
        Evaluation::NeedsService(n, req) => (n, req),
        _ => panic!("service evaluation must ask for the service"),
    };
    assert_eq!(back.id, 9);
    let req_s = String::from_utf8(req).unwrap();
    assert!(req_s.contains("title: Title"));
    assert!(req_s.contains("rating: 4398 of 5000"));
    assert!(req_s.contains("pages: 391"));
    assert!(req_s.contains("status: Ongoing"));

    let resp = b("{\"overall_score\":0.87,\"sub_scores\":{\"plot\":0.9,\"style\":0.5},\"reasoning\":\"good fit\"}");
    let score = eval.interpret(back, &resp).unwrap();
    assert_eq!(score.overall_milli, 870);
    assert_eq!(score.sub_scores.len(), 2);
    assert_eq!(score.sub_scores[0], (b("plot"), 900));
    assert_eq!(score.sub_scores[1], (b("style"), 500));
    assert_eq!(score.reasoning, b("good fit"));
}

#[test]
fn llm_evaluator_rejects_bad_responses() {
    let eval = LlmEvaluator::new(b("SECRET-REDACTED"), b("scorer-1"), b("https://svc.example/score"));
    let n = || mk_novel(9, 4000, 100);

    assert_eq!(
        eval.interpret(n(), &b("not json")),
        Err(EvalError::MalformedResponse)
    );
    assert_eq!(
        eval.interpret(n(), &b("{\"sub_scores\":{},\"reasoning\":\"x\"}")),
        Err(EvalError::MissingScore)
    );
    assert_eq!(
        eval.interpret(n(), &b("{\"overall_score\":1.5,\"sub_scores\":{},\"reasoning\":\"x\"}")),
        Err(EvalError::OutOfRange)
    );
    assert_eq!(
        eval.interpret(
            n(),
            &b("{\"overall_score\":0.5,\"sub_scores\":{\"plot\":2.5},\"reasoning\":\"x\"}")
        ),
        Err(EvalError::OutOfRange)
    );
    assert_eq!(
        eval.interpret(
            n(),
            &b("{\"overall_score\":0.5,\"sub_scores\":{\"plot\":\"high\"},\"reasoning\":\"x\"}")
        ),
        Err(EvalError::MalformedResponse)
    );
    assert_eq!(
        eval.interpret(n(), &b("{\"overall_score\":0.5,\"sub_scores\":{}}")),
        Err(EvalError::MalformedResponse)
    );
}

#[test]
fn pipeline_runs_to_exhaustion_and_sorts() {
    let mut c = open_criteria();
    c.min_rating_milli = Some(3000);
    let mut p = Pipeline::new(c, StopCondition::EmptyQueue, false, LocalEvaluator::new());
    assert!(p.push_seed(mk_novel(1, 3500, 100)));
    assert!(p.push_seed(mk_novel(2, 2000, 100))); // fails the pre-filter
    assert!(p.push_seed(mk_novel(3, 5000, 100)));
    assert!(!p.push_seed(mk_novel(3, 5000, 100)));
    p.finish_seeding();
    assert_eq!(p.frontier_len(), 3);

    let mut processed: Vec<u64> = Vec::new();
    loop {
        match p.begin_iteration(0) {
            Step::Stopped => break,
            Step::Skipped => continue,
            Step::FetchReviews(id) => {
                processed.push(id);
                match p.supply_reviews(vec![]).unwrap() {
                    ReviewStep::Scored(AfterScore::Continue) => {},
                    _ => panic!("local mode records at once without discovery"),
                }
            },
        }
    }
    assert_eq!(processed, vec![1, 3]);
    let results = p.into_results();
    assert_eq!(results.len(), 2);
    // the higher-rated novel scores higher and comes first
    assert_eq!(results[0].novel.id, 3);
    assert_eq!(results[1].novel.id, 1);
    assert!(results[0].overall_milli >= results[1].overall_milli);
}

#[test]
fn pipeline_respects_max_novels() {
    let c = open_criteria();
    let mut p = Pipeline::new(c, StopCondition::MaxNovels(1), false, LocalEvaluator::new());
    p.push_seed(mk_novel(1, 4000, 100));
    p.push_seed(mk_novel(2, 4000, 100));
    p.finish_seeding();

    let mut results_count: usize = 0;
    loop {
        match p.begin_iteration(0) {
            Step::Stopped => break,
            Step::Skipped => continue,
            Step::FetchReviews(_) => {
                p.supply_reviews(vec![]).unwrap();
                results_count += 1;
            },
        }
    }
    assert_eq!(results_count, 1);
    assert_eq!(p.into_results().len(), 1);
}

#[test]
fn pipeline_stops_on_elapsed_time() {
    let c = open_criteria();
    let mut p = Pipeline::new(c, StopCondition::MaxTime(10), false, LocalEvaluator::new());
    p.push_seed(mk_novel(1, 4000, 100));
    p.finish_seeding();
    // ten seconds have elapsed: no new evaluation begins
    assert_eq!(p.begin_iteration(10_000), Step::Stopped);
    assert_eq!(p.into_results().len(), 0);
}

#[test]
fn pipeline_discovery_feeds_the_frontier_with_dedup() {
    let mut c = open_criteria();
    c.min_rating_milli = Some(3000);
    let mut p = Pipeline::new(c, StopCondition::EmptyQueue, true, LocalEvaluator::new());
    p.push_seed(mk_novel(1, 4000, 100));
    p.finish_seeding();

    match p.begin_iteration(0) {
        Step::FetchReviews(1) => {},
        other => panic!("expected the seed to be processed, got {:?}", other),
    }
    let after = match p.supply_reviews(vec![]).unwrap() {
        ReviewStep::Scored(a) => a,
        _ => panic!("local mode records at once"),
    };
    assert_eq!(after, AfterScore::Discover(1));
    // a fresh passing novel is admitted; the seed and a low-rated one are not
    assert!(p.offer_discovery(mk_novel(5, 4500, 100)));
    assert!(!p.offer_discovery(mk_novel(1, 4500, 100)), "seen ids never re-enter");
    assert!(!p.offer_discovery(mk_novel(6, 1000, 100)), "admission filter applies");
    p.finish_discovery();

    let mut seen: Vec<u64> = vec![];
    loop {
        match p.begin_iteration(0) {
            Step::Stopped => break,
            Step::Skipped => continue,
            Step::FetchReviews(id) => {
                seen.push(id);
                match p.supply_reviews(vec![]).unwrap() {
                    ReviewStep::Scored(AfterScore::Discover(_)) => {
                        p.finish_discovery();
                    },
                    ReviewStep::Scored(AfterScore::Continue) => {},
                    _ => panic!("local mode records at once"),
                }
            },
        }
    }
    assert_eq!(seen, vec![5]);
    assert_eq!(p.into_results().len(), 2);
}

#[test]
fn pipeline_service_mode_round_trip() {
    let c = open_criteria();
    let eval = LlmEvaluator::new(b("SECRET-REDACTED"), b("scorer-1"), b("https://svc.example/score"));
    let mut p = Pipeline::new(c, StopCondition::EmptyQueue, false, eval);
    p.push_seed(mk_novel(1, 4000, 100));
    p.finish_seeding();

    let id = match p.begin_iteration(0) {
        Step::FetchReviews(id) => id,
        other => panic!("expected a fetch step, got {:?}", other),
    };
    assert_eq!(id, 1);
    let request = match p.supply_reviews(vec![]).unwrap() {
        ReviewStep::NeedsService(req) => req,
        _ => panic!("service mode must ask for the service"),
    };
    assert!(!request.is_empty());
    let resp = b("{\"overall_score\":0.75,\"sub_scores\":{\"fit\":0.8},\"reasoning\":\"solid\"}");
    assert_eq!(p.supply_service_response(&resp).unwrap(), AfterScore::Continue);
    assert_eq!(p.begin_iteration(0), Step::Stopped);
    let results = p.into_results();
    assert_eq!(results.len(), 1);
    assert_eq!(results[0].overall_milli, 750);
    assert_eq!(results[0].reasoning, b("solid"));
}

#[test]
fn pipeline_aborts_on_bad_service_response_keeping_results() {
    let c = open_criteria();
    let eval = LlmEvaluator::new(b("SECRET-REDACTED"), b("scorer-1"), b("https://svc.example/score"));
    let mut p = Pipeline::new(c, StopCondition::EmptyQueue, false, eval);
    p.push_seed(mk_novel(1, 4000, 100));
    p.push_seed(mk_novel(2, 4000, 100));
    p.finish_seeding();

    match p.begin_iteration(0) {
        Step::FetchReviews(1) => {},
        other => panic!("expected the first seed, got {:?}", other),
    }
    p.supply_reviews(vec![]).unwrap();
    let good = b("{\"overall_score\":0.6,\"sub_scores\":{},\"reasoning\":\"ok\"}");
    p.supply_service_response(&good).unwrap();

    match p.begin_iteration(0) {
        Step::FetchReviews(2) => {},
        other => panic!("expected the second seed, got {:?}", other),
    }
    p.supply_reviews(vec![]).unwrap();
    assert_eq!(
        p.supply_service_response(&b("garbage")),
        Err(EvalError::MalformedResponse)
    );
    // the run is over; what was accumulated before the abort remains
    let results = p.into_results();
    assert_eq!(results.len(), 1);
    assert_eq!(results[0].novel.id, 1);
}
