//! A small request router: route patterns, first-match dispatch, a staged
//! key-value facade and the per-request decisions of the handlers.
mod assoc;
mod pattern;
mod matcher;
mod store;
mod render;
mod dispatch;

pub use assoc::{find_key, key_index, lookup, pairs_view, strings_view};
pub use pattern::{
    compile, join_from, join_with_slash, path_segments, path_segments_exec, segment_of,
    segments_view, split_on_slash, template_segments, well_formed_segments, Method, PatternError,
    RoutePattern, Segment, SegmentView,
};
pub use matcher::{
    bind_from, first_match_from, lemma_first_match_wins, lemma_unique_match, path_known,
    lemma_standard_kv_routes, lemma_standard_template_route, route_binds, route_is,
    route_path_binds, standard_routes, routes_wf, same_route, Handler, MatchOutcome, ParamBinding,
    Route, RouteTable,
};
pub use store::{
    lemma_put_idempotent, lemma_put_keeps_others, lemma_put_then_get, put_entries, stage_put,
    KvError, MemoryStore, StagedPut,
};
pub use render::rendered;
pub use dispatch::{
    build_response, lemma_binding_missing, lemma_kv_round_trip, lemma_missing_name_answers_first,
    lemma_unwritten_key_not_found, name_of, open_session, opt_view, page_data, page_result, respond, step_spec, template_page,
    template_response, unexpected, Action, ActionView, Event, EventView, Outcome, Phase, Response,
    Session, BINDING_MISSING_STATUS, PAGE_TEMPLATE, STORE_BINDING, VERSION_VAR,
};
