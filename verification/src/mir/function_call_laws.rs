//! What the functions on parsed functions do, told from their inputs and results alone.

use super::function::{
    assemble, debug_list, has_input_named, is_assembled, lacks_annotation, lane_error, misnamed,
    names, names_unknown_lane, param_names, parse, sort_and_add_func_id, sorted_and_numbered,
    unannotated, validate_frb_threads, FuncItem, LaneRoutingError, ParseError,
};
use super::function_laws::{law_parse_drops_nothing, law_sorting_keeps_every_function};
use super::name_order::{name_order, sorts_before};
use super::{
    IrValueOrSkip, LaneRouting, MirFunc, MirFuncMode, ParserMirInternalConfig,
    RequireAnnotationWhen,
};
use crate::text::texts;
use crate::text_laws::{
    in_line, law_strings_are_ordered_like_a_dictionary, lemma_joined_is_in_line,
    lemma_texts_contain, stands_before,
};
use vstd::prelude::*;

verus! {

/// Where the elements stand that `pred` picks.
proof fn lemma_filter_positions<A>(s: Seq<A>, pred: spec_fn(A) -> bool) -> (positions: Seq<int>)
    ensures
        positions.len() == s.filter(pred).len(),
        forall|k: int|
            0 <= k < positions.len() ==> 0 <= #[trigger] positions[k] < s.len() && s.filter(
                pred,
            )[k] == s[positions[k]] && pred(s[positions[k]]),
        forall|k: int, l: int|
            #![trigger positions[k], positions[l]]
            0 <= k < l < positions.len() ==> positions[k] < positions[l],
        forall|i: int| 0 <= i < s.len() && pred(#[trigger] s[i]) ==> positions.contains(i),
    decreases s.len(),
{
    reveal(Seq::filter);
    if s.len() == 0 {
        seq![]
    } else {
        let rest = s.drop_last();
        let before = lemma_filter_positions(rest, pred);
        let last = s.len() - 1;
        let positions = if pred(s.last()) {
            before.push(last)
        } else {
            before
        };
        assert forall|k: int| 0 <= k < positions.len() implies 0 <= #[trigger] positions[k]
            < s.len() && s.filter(pred)[k] == s[positions[k]] && pred(s[positions[k]]) by {
            if k < before.len() {
                assert(positions[k] == before[k]);
                assert(rest[before[k]] == s[before[k]]);
            }
        }
        assert forall|k: int, l: int|
            #![trigger positions[k], positions[l]]
            0 <= k < l < positions.len() implies positions[k] < positions[l] by {
            assert(positions[k] == before[k]);
            if l < before.len() {
                assert(positions[l] == before[l]);
            }
        }
        assert forall|i: int| 0 <= i < s.len() && pred(#[trigger] s[i]) implies positions.contains(
            i,
        ) by {
            if i < last {
                assert(rest[i] == s[i]);
                let k = choose|k: int| 0 <= k < before.len() && before[k] == i;
                assert(positions[k] == i);
            } else {
                assert(positions[before.len() as int] == last);
            }
        }
        positions
    }
}

/// The function is annotated with a lane that is neither `Main` nor configured.
pub open spec fn has_unknown_lane<D>(func: MirFunc<D>, routing: LaneRouting) -> bool {
    &&& routing.lanes matches Some(lanes)
    &&& func.thread matches Some(lane)
    &&& lane@ != "Main"@
    &&& forall|k: int| 0 <= k < lanes@.len() ==> (#[trigger] lanes@[k])@ != lane@
}

/// The function is not annotated, and is synchronous where such functions must be, or has some
/// parameter with some name that makes it so.
pub open spec fn misses_annotation<D>(func: MirFunc<D>, routing: LaneRouting) -> bool {
    &&& routing.require_annotation_when matches Some(require)
    &&& func.thread is None
    &&& {
        ||| require.sync == Some(true) && func.mode == MirFuncMode::Sync
        ||| require.param_named matches Some(names) && exists|p: int, k: int|
            0 <= p < func.inputs@.len() && 0 <= k < names@.len()
                && (#[trigger] func.inputs@[p]).name@ == (#[trigger] names@[k])@
    }
}

proof fn lemma_has_unknown_lane<D>(func: MirFunc<D>, routing: LaneRouting)
    ensures
        has_unknown_lane(func, routing) <==> (routing.lanes matches Some(lanes)
            && names_unknown_lane(func, texts(lanes@))),
{
    if let (Some(lanes), Some(lane)) = (routing.lanes, func.thread) {
        lemma_texts_contain(lanes@, lane@);
    }
}

proof fn lemma_misses_annotation<D>(func: MirFunc<D>, routing: LaneRouting)
    ensures
        misses_annotation(func, routing) <==> (routing.require_annotation_when matches Some(require)
            && lacks_annotation(func, require)),
{
    if let Some(require) = routing.require_annotation_when {
        if let Some(names) = require.param_named {
            assert(param_names(require) == texts(names@));
            assert forall|p: int| 0 <= p < func.inputs@.len() implies (texts(names@).contains(
                (#[trigger] func.inputs@[p]).name@,
            ) <==> exists|k: int|
                0 <= k < names@.len() && (#[trigger] names@[k])@ == func.inputs@[p].name@) by {
                lemma_texts_contain(names@, func.inputs@[p].name@);
            }
            if has_input_named(func, param_names(require)) {
                let p = choose|p: int|
                    0 <= p < func.inputs@.len() && param_names(require).contains(
                        (#[trigger] func.inputs@[p]).name@,
                    );
                let k = choose|k: int|
                    0 <= k < names@.len() && (#[trigger] names@[k])@ == func.inputs@[p].name@;
                assert(func.inputs@[p].name@ == names@[k]@);
            }
            if exists|p: int, k: int|
                0 <= p < func.inputs@.len() && 0 <= k < names@.len()
                    && (#[trigger] func.inputs@[p]).name@ == (#[trigger] names@[k])@ {
                let (p, k) = choose|p: int, k: int|
                    0 <= p < func.inputs@.len() && 0 <= k < names@.len()
                        && (#[trigger] func.inputs@[p]).name@ == (#[trigger] names@[k])@;
                assert(texts(names@).contains(func.inputs@[p].name@));
            }
        } else {
            assert(!has_input_named(func, param_names(require)));
        }
    }
}

/// What is known of the two filters behind the verdict.
proof fn lemma_verdict<D>(funcs: Seq<MirFunc<D>>, routing: LaneRouting) -> (found: (
    Seq<int>,
    Seq<int>,
))
    ensures
        positions_of(found.0, funcs, |func: MirFunc<D>| has_unknown_lane(func, routing)),
        positions_of(found.1, funcs, |func: MirFunc<D>| misses_annotation(func, routing)),
        found.0.len() == misnamed(funcs, routing).len(),
        found.0.len() > 0 ==> misnamed(funcs, routing)[0] == funcs[found.0[0]],
        found.1.len() == unannotated(funcs, routing).len(),
        forall|k: int|
            0 <= k < found.1.len() ==> unannotated(funcs, routing)[k] == funcs[#[trigger] found.1[k]],
{
    assert forall|func: MirFunc<D>| #[trigger]
        has_unknown_lane(func, routing) <==> (routing.lanes matches Some(lanes)
            && names_unknown_lane(func, texts(lanes@))) by {
        lemma_has_unknown_lane(func, routing);
    }
    assert forall|func: MirFunc<D>| #[trigger]
        misses_annotation(func, routing) <==> (routing.require_annotation_when matches Some(require)
            && lacks_annotation(func, require)) by {
        lemma_misses_annotation(func, routing);
    }
    let unknown = match routing.lanes {
        Some(lanes) => lemma_filter_positions(
            funcs,
            |func: MirFunc<D>| names_unknown_lane(func, texts(lanes@)),
        ),
        None => seq![],
    };
    let missing = match routing.require_annotation_when {
        Some(require) => lemma_filter_positions(
            funcs,
            |func: MirFunc<D>| lacks_annotation(func, require),
        ),
        None => seq![],
    };
    assert(routing.lanes matches Some(lanes) ==> misnamed(funcs, routing) == funcs.filter(
        |func: MirFunc<D>| names_unknown_lane(func, texts(lanes@)),
    ));
    assert(routing.require_annotation_when matches Some(require) ==> unannotated(funcs, routing)
        == funcs.filter(|func: MirFunc<D>| lacks_annotation(func, require)));
    (unknown, missing)
}

/// `positions` are, in ascending order, those at which `s` has an element of the kind.
pub open spec fn positions_of<A>(positions: Seq<int>, s: Seq<A>, kind: spec_fn(A) -> bool) -> bool {
    &&& forall|k: int, l: int|
        #![trigger positions[k], positions[l]]
        0 <= k < l < positions.len() ==> positions[k] < positions[l]
    &&& forall|k: int|
        0 <= k < positions.len() ==> 0 <= #[trigger] positions[k] < s.len() && kind(s[positions[k]])
    &&& forall|i: int| 0 <= i < s.len() && kind(#[trigger] s[i]) ==> positions.contains(i)
}

/// `positions` are, in ascending order, those of the functions whose annotation is missing.
pub open spec fn are_offenders<D>(
    positions: Seq<int>,
    funcs: Seq<MirFunc<D>>,
    routing: LaneRouting,
) -> bool {
    positions_of(positions, funcs, |func: MirFunc<D>| misses_annotation(func, routing))
}

/// Functions are refused exactly if there are rules and some function, wherever it stands,
/// breaks one: its annotation names neither `Main` nor a configured lane, or it has none though
/// it is synchronous and such functions need one, or though some parameter has a name that
/// demands one.
pub proof fn law_refused_exactly_if_a_rule_is_broken<D>(
    funcs: &[MirFunc<D>],
    config: &ParserMirInternalConfig,
    verdict: Result<(), LaneRoutingError>,
)
    requires
        call_ensures(validate_frb_threads::<D>, (funcs, config), verdict),
    ensures
        verdict is Err <==> (config.lane_routing matches Some(routing) && exists|i: int|
            0 <= i < funcs@.len() && (has_unknown_lane(#[trigger] funcs@[i], routing)
                || misses_annotation(funcs@[i], routing))),
{
    if let Some(routing) = config.lane_routing {
        let (unknown, missing) = lemma_verdict(funcs@, routing);
        if unknown.len() > 0 {
            assert(has_unknown_lane(funcs@[unknown[0]], routing));
        } else if missing.len() > 0 {
            assert(misses_annotation(funcs@[missing[0]], routing));
        }
    }
}

/// If lanes are configured, an annotation that names neither `Main` nor one of them is refused,
/// whatever the function's parameters, mode and name are and whatever else is wrong.
pub proof fn law_unknown_lane_is_refused<D>(
    funcs: &[MirFunc<D>],
    config: &ParserMirInternalConfig,
    verdict: Result<(), LaneRoutingError>,
    routing: LaneRouting,
    lanes: Vec<String>,
    lane: String,
    i: int,
)
    requires
        call_ensures(validate_frb_threads::<D>, (funcs, config), verdict),
        config.lane_routing == Some(routing),
        routing.lanes == Some(lanes),
        0 <= i < funcs@.len(),
        funcs@[i].thread == Some(lane),
        lane@ != "Main"@,
        forall|k: int| 0 <= k < lanes@.len() ==> (#[trigger] lanes@[k])@ != lane@,
    ensures
        verdict matches Err(LaneRoutingError::UnknownLane { .. }),
{
    assert(has_unknown_lane(funcs@[i], routing));
    let (unknown, missing) = lemma_verdict(funcs@, routing);
    assert(unknown.contains(i));
}

/// If synchronous functions must be annotated, one that is not is refused.
pub proof fn law_sync_function_without_annotation_is_refused<D>(
    funcs: &[MirFunc<D>],
    config: &ParserMirInternalConfig,
    verdict: Result<(), LaneRoutingError>,
    routing: LaneRouting,
    require: RequireAnnotationWhen,
    i: int,
)
    requires
        call_ensures(validate_frb_threads::<D>, (funcs, config), verdict),
        config.lane_routing == Some(routing),
        routing.require_annotation_when == Some(require),
        require.sync == Some(true),
        0 <= i < funcs@.len(),
        funcs@[i].thread is None,
        funcs@[i].mode == MirFuncMode::Sync,
    ensures
        verdict is Err,
{
    assert(misses_annotation(funcs@[i], routing));
    law_refused_exactly_if_a_rule_is_broken(funcs, config, verdict);
}

/// If a parameter's name demands an annotation, a function without one is refused, at whatever
/// position the parameter stands among its parameters and the name in the rule.
pub proof fn law_parameter_name_demands_an_annotation<D>(
    funcs: &[MirFunc<D>],
    config: &ParserMirInternalConfig,
    verdict: Result<(), LaneRoutingError>,
    routing: LaneRouting,
    require: RequireAnnotationWhen,
    names: Vec<String>,
    i: int,
    p: int,
    k: int,
)
    requires
        call_ensures(validate_frb_threads::<D>, (funcs, config), verdict),
        config.lane_routing == Some(routing),
        routing.require_annotation_when == Some(require),
        require.param_named == Some(names),
        0 <= i < funcs@.len(),
        funcs@[i].thread is None,
        0 <= p < funcs@[i].inputs@.len(),
        0 <= k < names@.len(),
        funcs@[i].inputs@[p].name@ == names@[k]@,
    ensures
        verdict is Err,
{
    let func = funcs@[i];
    let demanded = require.param_named->0;
    assert(func.inputs@[p].name@ == demanded@[k]@);
    assert(misses_annotation(func, routing));
    law_refused_exactly_if_a_rule_is_broken(funcs, config, verdict);
}

/// Functions that are all annotated, with `Main` or a configured lane where lanes are configured,
/// pass under every rule.
pub proof fn law_annotated_functions_pass<D>(
    funcs: &[MirFunc<D>],
    config: &ParserMirInternalConfig,
    verdict: Result<(), LaneRoutingError>,
)
    requires
        call_ensures(validate_frb_threads::<D>, (funcs, config), verdict),
        forall|i: int|
            0 <= i < funcs@.len() ==> {
                &&& (#[trigger] funcs@[i]).thread matches Some(lane)
                &&& {
                    ||| lane@ == "Main"@
                    ||| config.lane_routing is None
                    ||| config.lane_routing->0.lanes is None
                    ||| exists|k: int|
                        0 <= k < config.lane_routing->0.lanes->0@.len() && (
                        #[trigger] config.lane_routing->0.lanes->0@[k])@ == lane@
                }
            },
    ensures
        verdict is Ok,
{
    law_refused_exactly_if_a_rule_is_broken(funcs, config, verdict);
}

/// The verdict does not depend on the order of a function's parameters, on how often one of
/// their names occurs, on the functions' names, numbers and details.
pub proof fn law_verdict_reads_lane_mode_and_parameter_names_only<D, C>(
    funcs: &[MirFunc<D>],
    others: &[MirFunc<C>],
    config: &ParserMirInternalConfig,
    verdict: Result<(), LaneRoutingError>,
    other_verdict: Result<(), LaneRoutingError>,
)
    requires
        call_ensures(validate_frb_threads::<D>, (funcs, config), verdict),
        call_ensures(validate_frb_threads::<C>, (others, config), other_verdict),
        funcs@.len() == others@.len(),
        forall|i: int|
            #![trigger funcs@[i]]
            #![trigger others@[i]]
            0 <= i < funcs@.len() ==> {
                &&& funcs@[i].mode == others@[i].mode
                &&& match (funcs@[i].thread, others@[i].thread) {
                    (Some(lane), Some(other)) => lane@ == other@,
                    (None, None) => true,
                    _ => false,
                }
                &&& forall|p: int|
                    0 <= p < funcs@[i].inputs@.len() ==> exists|q: int|
                        0 <= q < others@[i].inputs@.len() && (
                        #[trigger] others@[i].inputs@[q]).name@ == (
                        #[trigger] funcs@[i].inputs@[p]).name@
                &&& forall|q: int|
                    0 <= q < others@[i].inputs@.len() ==> exists|p: int|
                        0 <= p < funcs@[i].inputs@.len() && (
                        #[trigger] funcs@[i].inputs@[p]).name@ == (
                        #[trigger] others@[i].inputs@[q]).name@
            },
    ensures
        verdict is Ok <==> other_verdict is Ok,
{
    law_refused_exactly_if_a_rule_is_broken(funcs, config, verdict);
    law_refused_exactly_if_a_rule_is_broken(others, config, other_verdict);
    if let Some(routing) = config.lane_routing {
        assert forall|i: int| 0 <= i < funcs@.len() implies (has_unknown_lane(
            #[trigger] funcs@[i],
            routing,
        ) <==> has_unknown_lane(others@[i], routing)) && (misses_annotation(funcs@[i], routing)
            <==> misses_annotation(others@[i], routing)) by {
            assert(funcs@[i].mode == others@[i].mode);
        }
        if verdict is Err {
            let i = choose|i: int|
                0 <= i < funcs@.len() && (has_unknown_lane(#[trigger] funcs@[i], routing)
                    || misses_annotation(funcs@[i], routing));
            assert(has_unknown_lane(others@[i], routing) || misses_annotation(others@[i], routing));
        }
        if other_verdict is Err {
            let i = choose|i: int|
                0 <= i < others@.len() && (has_unknown_lane(#[trigger] others@[i], routing)
                    || misses_annotation(others@[i], routing));
            assert(has_unknown_lane(funcs@[i], routing) || misses_annotation(funcs@[i], routing));
        }
    }
}

/// `error` is the right one for `funcs` under `routing`. An unknown lane comes first: the error
/// tells the name and the lane of the first function that has one, and the configured lanes. If
/// there is none, the error lists, in order, the names of exactly those functions whose
/// annotation is missing, and hints at `Main` and the configured lanes.
pub open spec fn tells_of<D>(
    error: LaneRoutingError,
    funcs: Seq<MirFunc<D>>,
    routing: LaneRouting,
) -> bool {
    match error {
        LaneRoutingError::UnknownLane { function, lane, lanes } => {
            &&& routing.lanes matches Some(configured)
            &&& lanes@.len() == configured@.len()
            &&& forall|k: int|
                0 <= k < lanes@.len() ==> (#[trigger] lanes@[k])@ == configured@[k]@
            &&& exists|i: int|
                0 <= i < funcs.len() && function@ == (#[trigger] funcs[i]).name@ && (
                funcs[i].thread matches Some(named) && lane@ == named@) && has_unknown_lane(
                    funcs[i],
                    routing,
                ) && forall|j: int| 0 <= j < i ==> !has_unknown_lane(#[trigger] funcs[j], routing)
        },
        LaneRoutingError::MissingAnnotation { lanes_hint, offenders } => {
            &&& forall|i: int|
                0 <= i < funcs.len() ==> !has_unknown_lane(#[trigger] funcs[i], routing)
            &&& lanes_hint@ == match routing.lanes {
                Some(lanes) => "Main|"@ + in_line(lanes@, "|"@),
                None => "Main"@,
            }
            &&& offenders@.len() > 0
            &&& exists|positions: Seq<int>|
                #[trigger] are_offenders(positions, funcs, routing) && offenders@.len()
                    == positions.len() && forall|k: int|
                    0 <= k < positions.len() ==> (#[trigger] offenders@[k])@
                        == funcs[positions[k]].name@
        },
    }
}

proof fn lemma_error_tells<D>(
    error: LaneRoutingError,
    funcs: Seq<MirFunc<D>>,
    config: ParserMirInternalConfig,
)
    requires
        lane_error(funcs, config) == Some(error@),
    ensures
        config.lane_routing matches Some(routing) && tells_of(error, funcs, routing),
{
    let routing = config.lane_routing->0;
    let (unknown, missing) = lemma_verdict(funcs, routing);
    match error {
        LaneRoutingError::UnknownLane { function, lane, lanes } => {
            let configured = routing.lanes->0;
            assert(texts(lanes@) == texts(configured@));
            assert(lanes@.len() == texts(lanes@).len());
            assert forall|k: int| 0 <= k < lanes@.len() implies (#[trigger] lanes@[k])@
                == configured@[k]@ by {
                assert(texts(lanes@)[k] == texts(configured@)[k]);
            }
            let i = unknown[0];
            assert forall|j: int| 0 <= j < i implies !has_unknown_lane(
                #[trigger] funcs[j],
                routing,
            ) by {
                if has_unknown_lane(funcs[j], routing) {
                    assert(unknown.contains(j));
                    let k = choose|k: int| 0 <= k < unknown.len() && unknown[k] == j;
                    assert(unknown[0] <= unknown[k]);
                }
            }
            assert(function@ == funcs[i].name@);
        },
        LaneRoutingError::MissingAnnotation { lanes_hint, offenders } => {
            if let Some(lanes) = routing.lanes {
                lemma_joined_is_in_line(lanes@, "|"@);
            }
            let listed = unannotated(funcs, routing).map_values(|func: MirFunc<D>| func.name@);
            assert(texts(offenders@) == listed);
            assert(offenders@.len() == texts(offenders@).len());
            assert forall|k: int| 0 <= k < missing.len() implies (#[trigger] offenders@[k])@
                == funcs[missing[k]].name@ by {
                assert(texts(offenders@)[k] == listed[k]);
                assert(unannotated(funcs, routing)[k] == funcs[missing[k]]);
            }
            assert(are_offenders(missing, funcs, routing));
            assert forall|i: int| 0 <= i < funcs.len() implies !has_unknown_lane(
                #[trigger] funcs[i],
                routing,
            ) by {
                assert(has_unknown_lane(funcs[i], routing) ==> unknown.contains(i));
            }
        },
    }
}

/// An error tells what is wrong with the functions.
pub proof fn law_error_tells_what_is_wrong<D>(
    funcs: &[MirFunc<D>],
    config: &ParserMirInternalConfig,
    error: LaneRoutingError,
)
    requires
        call_ensures(validate_frb_threads::<D>, (funcs, config), Err(error)),
    ensures
        config.lane_routing matches Some(routing) && tells_of(error, funcs@, routing),
{
    lemma_error_tells(error, funcs@, *config);
}

/// The message on an unknown lane names the function, its lane twice, and the lanes that there
/// are.
pub proof fn law_message_on_an_unknown_lane(
    error: &LaneRoutingError,
    function: String,
    lane: String,
    lanes: Vec<String>,
    message: String,
)
    requires
        call_ensures(LaneRoutingError::message, (error,), message),
        *error == (LaneRoutingError::UnknownLane { function, lane, lanes }),
    ensures
        message@ == "function `"@ + function@ + "` is annotated `#[frb(thread = "@ + lane@
            + ")]`, but `"@ + lane@ + "` is not a configured lane; valid lanes: Main, "@ + in_line(
            lanes@,
            ", "@,
        ),
{
    lemma_joined_is_in_line(lanes@, ", "@);
}

/// The message on missing annotations gives the hint and lists the functions as std prints them.
pub proof fn law_message_on_missing_annotations(
    error: &LaneRoutingError,
    hint: String,
    offenders: Vec<String>,
    message: String,
)
    requires
        call_ensures(LaneRoutingError::message, (error,), message),
        *error == (LaneRoutingError::MissingAnnotation { lanes_hint: hint, offenders }),
    ensures
        message@
            == "these functions match the configured `require_annotation_when` policy but have no `#[frb(thread = ...)]` annotation; add `#[frb(thread = "@
            + hint@ + ")]` to each so the custom executor routes it: "@ + debug_list(
            offenders@.map_values(|name: String| name@),
        ),
{
}

/// The order `order` of `funcs` sorts them by name, as in a dictionary, equal names as they
/// stood.
pub open spec fn sorts<D>(order: Seq<int>, funcs: Seq<MirFunc<D>>) -> bool {
    &&& order.no_duplicates()
    &&& forall|r: int| 0 <= r < order.len() ==> 0 <= #[trigger] order[r] < funcs.len()
    &&& forall|i: int| 0 <= i < funcs.len() ==> #[trigger] order.contains(i)
    &&& forall|r: int, s: int|
        #![trigger order[r], order[s]]
        0 <= r < s < order.len() ==> stands_before(funcs[order[r]].name@, funcs[order[s]].name@)
            || (funcs[order[r]].name@ == funcs[order[s]].name@ && order[r] < order[s])
}

/// `sorted` is `funcs` in this order, numbered from one and otherwise unchanged.
pub open spec fn renumbers<D>(
    order: Seq<int>,
    funcs: Seq<MirFunc<D>>,
    sorted: Seq<MirFunc<D>>,
) -> bool {
    &&& sorted.len() == order.len()
    &&& forall|r: int|
        0 <= r < sorted.len() ==> #[trigger] sorted[r] == (MirFunc {
            id: Some((r + 1) as i32),
            ..funcs[order[r]]
        })
}

proof fn lemma_sorted<D>(funcs: Seq<MirFunc<D>>) -> (order: Seq<int>)
    ensures
        sorts(order, funcs),
        renumbers(order, funcs, sorted_and_numbered(funcs)),
        order.len() == funcs.len(),
{
    let order = name_order(names(funcs));
    law_sorting_keeps_every_function(funcs);
    assert forall|r: int, s: int|
        #![trigger order[r], order[s]]
        0 <= r < s < order.len() implies stands_before(
        funcs[order[r]].name@,
        funcs[order[s]].name@,
    ) || (funcs[order[r]].name@ == funcs[order[s]].name@ && order[r] < order[s]) by {
        assert(sorts_before(names(funcs), order[r], order[s]));
        law_strings_are_ordered_like_a_dictionary(
            funcs[order[r]].name@,
            funcs[order[s]].name@,
        );
    }
    order
}

/// Sorting gives back every function once, in the order of a dictionary, equal names as they
/// stood, numbered from one and otherwise unchanged.
pub proof fn law_functions_are_sorted_and_numbered<D>(
    funcs: Vec<MirFunc<D>>,
    sorted: Vec<MirFunc<D>>,
)
    requires
        call_ensures(sort_and_add_func_id::<D>, (funcs,), sorted),
    ensures
        exists|order: Seq<int>| #[trigger]
            sorts(order, funcs@) && renumbers(order, funcs@, sorted@),
{
    let order = lemma_sorted(funcs@);
}

/// `values` are the parsed items among `items`, in order, and `skips` the notes.
pub open spec fn are_parted<T, S>(
    items: Seq<IrValueOrSkip<T, S>>,
    values: Seq<T>,
    skips: Seq<S>,
) -> bool {
    &&& exists|at: Seq<int>| #[trigger] are_values(at, items, values)
    &&& exists|at: Seq<int>| #[trigger] are_skips(at, items, skips)
}

/// `values` are the parsed items among `items`: those that stand at the positions `at`.
pub open spec fn are_values<T, S>(
    at: Seq<int>,
    items: Seq<IrValueOrSkip<T, S>>,
    values: Seq<T>,
) -> bool {
    &&& positions_of(at, items, |item: IrValueOrSkip<T, S>| item is Value)
    &&& at.len() == values.len()
    &&& forall|k: int|
        0 <= k < values.len() ==> items[at[k]] == IrValueOrSkip::<T, S>::Value(#[trigger] values[k])
}

/// `skips` are the notes among `items`: those that stand at the positions `at`.
pub open spec fn are_skips<T, S>(
    at: Seq<int>,
    items: Seq<IrValueOrSkip<T, S>>,
    skips: Seq<S>,
) -> bool {
    &&& positions_of(at, items, |item: IrValueOrSkip<T, S>| item is Skip)
    &&& at.len() == skips.len()
    &&& forall|k: int|
        0 <= k < skips.len() ==> items[at[k]] == IrValueOrSkip::<T, S>::Skip(#[trigger] skips[k])
}

/// One more item adds its position where it is of the kind.
proof fn lemma_positions_step<A>(before: Seq<int>, s: Seq<A>, kind: spec_fn(A) -> bool)
    requires
        s.len() > 0,
        positions_of(before, s.drop_last(), kind),
    ensures
        kind(s.last()) ==> positions_of(before.push(s.len() - 1), s, kind),
        !kind(s.last()) ==> positions_of(before, s, kind),
{
    let rest = s.drop_last();
    let last = s.len() - 1;
    assert(forall|k: int|
        0 <= k < before.len() ==> 0 <= #[trigger] before[k] < last && rest[before[k]]
            == s[before[k]]);
    let at = if kind(s.last()) {
        before.push(last)
    } else {
        before
    };
    assert forall|k: int, l: int|
        #![trigger at[k], at[l]]
        0 <= k < l < at.len() implies at[k] < at[l] by {
        assert(at[k] == before[k]);
        if l < before.len() {
            assert(at[l] == before[l]);
        }
    }
    assert forall|k: int| 0 <= k < at.len() implies 0 <= #[trigger] at[k] < s.len() && kind(
        s[at[k]],
    ) by {
        if k < before.len() {
            assert(at[k] == before[k]);
        }
    }
    assert forall|i: int| 0 <= i < s.len() && kind(#[trigger] s[i]) implies at.contains(i) by {
        if i < last {
            assert(rest[i] == s[i]);
            let k = choose|k: int| 0 <= k < before.len() && before[k] == i;
            assert(at[k] == i);
        } else {
            assert(at[before.len() as int] == last);
        }
    }
}

proof fn lemma_parted<T, S>(items: Seq<IrValueOrSkip<T, S>>) -> (at: (Seq<int>, Seq<int>))
    ensures
        are_values(at.0, items, IrValueOrSkip::values(items)),
        are_skips(at.1, items, IrValueOrSkip::skips(items)),
    decreases items.len(),
{
    if items.len() == 0 {
        (seq![], seq![])
    } else {
        let rest = items.drop_last();
        let (values_at, skips_at) = lemma_parted(rest);
        lemma_positions_step(values_at, items, |item: IrValueOrSkip<T, S>| item is Value);
        lemma_positions_step(skips_at, items, |item: IrValueOrSkip<T, S>| item is Skip);
        let last = items.len() - 1;
        assert(forall|k: int|
            0 <= k < values_at.len() ==> 0 <= #[trigger] values_at[k] < last && rest[values_at[k]]
                == items[values_at[k]]);
        assert(forall|k: int|
            0 <= k < skips_at.len() ==> 0 <= #[trigger] skips_at[k] < last && rest[skips_at[k]]
                == items[skips_at[k]]);
        let values = IrValueOrSkip::values(items);
        let skips = IrValueOrSkip::skips(items);
        let at = if items.last() is Value {
            (values_at.push(last), skips_at)
        } else {
            (values_at, skips_at.push(last))
        };
        assert forall|k: int| 0 <= k < values.len() implies items[at.0[k]] == IrValueOrSkip::<
            T,
            S,
        >::Value(#[trigger] values[k]) by {
            if k < values_at.len() {
                assert(at.0[k] == values_at[k]);
                assert(IrValueOrSkip::values(rest)[k] == values[k]);
            }
        }
        assert forall|k: int| 0 <= k < skips.len() implies items[at.1[k]] == IrValueOrSkip::<
            T,
            S,
        >::Skip(#[trigger] skips[k]) by {
            if k < skips_at.len() {
                assert(at.1[k] == skips_at[k]);
                assert(IrValueOrSkip::skips(rest)[k] == skips[k]);
            }
        }
        at
    }
}

/// Splitting parts the items from the notes, keeps both in order and drops nothing.
pub proof fn law_split_parts_items_from_notes<T, S>(
    items: Vec<IrValueOrSkip<T, S>>,
    parts: (Vec<T>, Vec<S>),
)
    requires
        call_ensures(IrValueOrSkip::<T, S>::split, (items,), parts),
    ensures
        are_parted(items@, parts.0@, parts.1@),
{
    let at = lemma_parted(items@);
}

/// `outcome` is right for the parsed `items`. With `parsed` for the functions among them in
/// order: it is an error exactly if some function breaks a rule, and tells of the functions
/// sorted by name; else it holds the functions sorted and numbered, and the notes in order.
pub open spec fn is_right_for<D, S>(
    items: Seq<FuncItem<D, S>>,
    config: ParserMirInternalConfig,
    outcome: Result<(Vec<MirFunc<D>>, Vec<S>), LaneRoutingError>,
) -> bool {
    exists|parsed: Seq<MirFunc<D>>, skips: Seq<S>, order: Seq<int>, sorted: Seq<MirFunc<D>>|
        #[trigger] are_parted(items, parsed, skips) && #[trigger] renumbers(order, parsed, sorted)
            && sorts(order, parsed) && match outcome {
            Ok(result) => {
                &&& result.0@ == sorted
                &&& result.1@ == skips
                &&& config.lane_routing matches Some(routing) ==> forall|i: int|
                    0 <= i < sorted.len() ==> !has_unknown_lane(#[trigger] sorted[i], routing)
                        && !misses_annotation(sorted[i], routing)
            },
            Err(error) => config.lane_routing matches Some(routing) && tells_of(
                error,
                sorted,
                routing,
            ),
        }
}

proof fn lemma_assembled<D, S>(
    items: Seq<FuncItem<D, S>>,
    config: ParserMirInternalConfig,
    outcome: Result<(Vec<MirFunc<D>>, Vec<S>), LaneRoutingError>,
)
    requires
        is_assembled(items, config, outcome),
    ensures
        is_right_for(items, config, outcome),
        outcome is Err <==> (config.lane_routing matches Some(routing) && exists|i: int|
            0 <= i < items.len() && (#[trigger] items[i] matches IrValueOrSkip::Value(func) && (
            has_unknown_lane(func, routing) || misses_annotation(func, routing)))),
{
    let parsed = FuncItem::<D, S>::values(items);
    let skips = FuncItem::<D, S>::skips(items);
    let (values_at, skips_at) = lemma_parted(items);
    assert(are_parted(items, parsed, skips));
    let order = lemma_sorted(parsed);
    let sorted = sorted_and_numbered(parsed);
    if let Err(error) = outcome {
        lemma_error_tells(error, sorted, config);
    }
    if let Some(routing) = config.lane_routing {
        let (unknown, missing) = lemma_verdict(sorted, routing);
        assert forall|r: int| 0 <= r < sorted.len() implies (has_unknown_lane(
            #[trigger] sorted[r],
            routing,
        ) <==> has_unknown_lane(parsed[order[r]], routing)) && (misses_annotation(
            sorted[r],
            routing,
        ) <==> misses_annotation(parsed[order[r]], routing)) by {
            assert(0 <= order[r] < parsed.len());
            let (a, b) = (sorted[r], parsed[order[r]]);
            assert(a.inputs == b.inputs && a.mode == b.mode && a.thread == b.thread);
        }
        if outcome is Err {
            let r = if unknown.len() > 0 {
                unknown[0]
            } else {
                missing[0]
            };
            assert(0 <= r < sorted.len());
            let k = order[r];
            assert(0 <= k < parsed.len());
            assert(items[values_at[k]] == FuncItem::<D, S>::Value(parsed[k]));
            assert(0 <= values_at[k] < items.len());
        } else {
            assert forall|r: int| 0 <= r < sorted.len() implies !has_unknown_lane(
                #[trigger] sorted[r],
                routing,
            ) && !misses_annotation(sorted[r], routing) by {
                assert(has_unknown_lane(sorted[r], routing) ==> unknown.contains(r));
                assert(misses_annotation(sorted[r], routing) ==> missing.contains(r));
            }
            assert forall|i: int| 0 <= i < items.len() implies !(#[trigger] items[i] matches
                IrValueOrSkip::Value(func) && (has_unknown_lane(func, routing)
                || misses_annotation(func, routing))) by {
                if let IrValueOrSkip::Value(func) = items[i] {
                    assert(values_at.contains(i));
                    let k = choose|k: int| 0 <= k < values_at.len() && values_at[k] == i;
                    assert(items[values_at[k]] == FuncItem::<D, S>::Value(parsed[k]));
                    assert(order.contains(k));
                    let r = choose|r: int| 0 <= r < order.len() && order[r] == k;
                    assert(0 <= r < sorted.len());
                    assert(!has_unknown_lane(sorted[r], routing));
                }
            }
        }
    }
}

/// The items of the three parsers, one after the other, are parsed right: the outcome is an error
/// exactly if there are rules and some parsed function breaks one. So the parse succeeds if no
/// function has an unknown lane and none misses an annotation, whatever the rules are.
pub proof fn law_assembly_fails_exactly_if_a_rule_is_broken<D, S>(
    config: &ParserMirInternalConfig,
    declared: Vec<FuncItem<D, S>>,
    auto_accessors: Vec<FuncItem<D, S>>,
    const_getters: Vec<FuncItem<D, S>>,
    outcome: Result<(Vec<MirFunc<D>>, Vec<S>), LaneRoutingError>,
)
    requires
        call_ensures(
            assemble::<D, S>,
            (config, declared, auto_accessors, const_getters),
            outcome,
        ),
    ensures
        ({
            let items = declared@ + auto_accessors@ + const_getters@;
            &&& outcome is Err <==> (config.lane_routing matches Some(routing) && exists|i: int|
                0 <= i < items.len() && (#[trigger] items[i] matches IrValueOrSkip::Value(func) && (
                has_unknown_lane(func, routing) || misses_annotation(func, routing))))
            &&& is_right_for(items, *config, outcome)
        }),
{
    lemma_assembled(declared@ + auto_accessors@ + const_getters@, *config, outcome);
}

/// If every parsed function is annotated, with `Main` or a configured lane where lanes are
/// configured, the parse succeeds, with every item among its functions or its notes.
pub proof fn law_assembly_of_annotated_functions_succeeds<D, S>(
    config: &ParserMirInternalConfig,
    declared: Vec<FuncItem<D, S>>,
    auto_accessors: Vec<FuncItem<D, S>>,
    const_getters: Vec<FuncItem<D, S>>,
    outcome: Result<(Vec<MirFunc<D>>, Vec<S>), LaneRoutingError>,
)
    requires
        call_ensures(
            assemble::<D, S>,
            (config, declared, auto_accessors, const_getters),
            outcome,
        ),
        forall|i: int|
            #![trigger (declared@ + auto_accessors@ + const_getters@)[i]]
            0 <= i < declared@.len() + auto_accessors@.len() + const_getters@.len() ==> ((declared@
                + auto_accessors@ + const_getters@)[i] matches IrValueOrSkip::Value(func) ==> {
                &&& func.thread matches Some(lane)
                &&& {
                    ||| lane@ == "Main"@
                    ||| config.lane_routing is None
                    ||| config.lane_routing->0.lanes is None
                    ||| exists|k: int|
                        0 <= k < config.lane_routing->0.lanes->0@.len() && (
                        #[trigger] config.lane_routing->0.lanes->0@[k])@ == lane@
                }
            }),
    ensures
        outcome matches Ok(parsed) && parsed.0@.len() + parsed.1@.len() == declared@.len()
            + auto_accessors@.len() + const_getters@.len(),
{
    let items = declared@ + auto_accessors@ + const_getters@;
    lemma_assembled(items, *config, outcome);
    law_parse_drops_nothing(items, *config, outcome->Ok_0);
}

/// What the three parsers hand over, each in the state of `type_parser` that the one before left,
/// is put together right. The first parser that fails ends the parse with its error.
pub proof fn law_parse_puts_three_parsers_together<TP, D, S, E, R, A, C>(
    config: &ParserMirInternalConfig,
    parse_declared: R,
    parse_auto_accessors: A,
    parse_const_getters: C,
    outcome: Result<(Vec<MirFunc<D>>, Vec<S>), ParseError<E>>,
) where
    R: FnOnce(&mut TP) -> Result<Vec<FuncItem<D, S>>, E>,
    A: FnOnce(&mut TP) -> Result<Vec<FuncItem<D, S>>, E>,
    C: FnOnce(&mut TP) -> Result<Vec<FuncItem<D, S>>, E>,

    ensures
        forall|type_parser: &mut TP|
            #[trigger] call_ensures(
                parse::<TP, D, S, E, R, A, C>,
                (config, type_parser, parse_declared, parse_auto_accessors, parse_const_getters),
                outcome,
            ) ==> exists|t1: &mut TP, declared: Result<Vec<FuncItem<D, S>>, E>|
                *t1 == *type_parser && #[trigger] call_ensures(parse_declared, (t1,), declared)
                    && match declared {
                    Err(e) => *final(type_parser) == *final(t1) && outcome == Err::<
                        (Vec<MirFunc<D>>, Vec<S>),
                        _,
                    >(ParseError::Items(e)),
                    Ok(declared) => exists|
                        t2: &mut TP,
                        accessors: Result<Vec<FuncItem<D, S>>, E>,
                    |
                        *t2 == *final(t1) && #[trigger] call_ensures(
                            parse_auto_accessors,
                            (t2,),
                            accessors,
                        ) && match accessors {
                            Err(e) => *final(type_parser) == *final(t2) && outcome == Err::<
                                (Vec<MirFunc<D>>, Vec<S>),
                                _,
                            >(ParseError::Items(e)),
                            Ok(accessors) => exists|
                                t3: &mut TP,
                                getters: Result<Vec<FuncItem<D, S>>, E>,
                            |
                                *t3 == *final(t2) && #[trigger] call_ensures(
                                    parse_const_getters,
                                    (t3,),
                                    getters,
                                ) && *final(type_parser) == *final(t3) && match getters {
                                    Err(e) => outcome == Err::<(Vec<MirFunc<D>>, Vec<S>), _>(
                                        ParseError::Items(e),
                                    ),
                                    Ok(getters) => match outcome {
                                        Ok(parsed) => is_right_for(
                                            declared@ + accessors@ + getters@,
                                            *config,
                                            Ok(parsed),
                                        ),
                                        Err(ParseError::Lanes(error)) => is_right_for(
                                            declared@ + accessors@ + getters@,
                                            *config,
                                            Err(error),
                                        ),
                                        Err(ParseError::Items(_)) => false,
                                    },
                                },
                        },
                },
{
    assert forall|
        items: Seq<FuncItem<D, S>>,
        assembled: Result<(Vec<MirFunc<D>>, Vec<S>), LaneRoutingError>,
    | #[trigger]
        is_assembled(items, *config, assembled) implies is_right_for(
        items,
        *config,
        assembled,
    ) by {
        lemma_assembled(items, *config, assembled);
    }
}

/// Every input is taken: functions are checked, sorted and put together, items are split and errors
/// are shown whatever they hold.
pub proof fn law_every_input_is_taken<D, S>(
    funcs: &[MirFunc<D>],
    config: &ParserMirInternalConfig,
    given: Vec<MirFunc<D>>,
    declared: Vec<FuncItem<D, S>>,
    auto_accessors: Vec<FuncItem<D, S>>,
    const_getters: Vec<FuncItem<D, S>>,
    error: &LaneRoutingError,
)
    ensures
        call_requires(validate_frb_threads::<D>, (funcs, config)),
        call_requires(sort_and_add_func_id::<D>, (given,)),
        call_requires(FuncItem::<D, S>::split, (declared,)),
        call_requires(assemble::<D, S>, (config, declared, auto_accessors, const_getters)),
        call_requires(LaneRoutingError::message, (error,)),
{
}

/// A parse asks of each of its parsers only that it can be called in the state that the one before
/// leaves, if that succeeds.
pub proof fn law_parse_needs_parsers_that_can_be_called<TP, D, S, E, R, A, C>(
    config: &ParserMirInternalConfig,
    parse_declared: R,
    parse_auto_accessors: A,
    parse_const_getters: C,
) where
    R: FnOnce(&mut TP) -> Result<Vec<FuncItem<D, S>>, E>,
    A: FnOnce(&mut TP) -> Result<Vec<FuncItem<D, S>>, E>,
    C: FnOnce(&mut TP) -> Result<Vec<FuncItem<D, S>>, E>,

    ensures
        forall|type_parser: &mut TP|
            (forall|t1: &mut TP|
                *t1 == *type_parser ==> #[trigger] call_requires(parse_declared, (t1,))) && (forall|
                t1: &mut TP,
                t2: &mut TP,
                declared: Vec<FuncItem<D, S>>,
            |
                *t1 == *type_parser && #[trigger] call_ensures(parse_declared, (t1,), Ok(declared))
                    && *t2 == *final(t1) ==> #[trigger] call_requires(parse_auto_accessors, (t2,)))
                && (forall|
                t1: &mut TP,
                t2: &mut TP,
                t3: &mut TP,
                declared: Vec<FuncItem<D, S>>,
                accessors: Vec<FuncItem<D, S>>,
            |
                *t1 == *type_parser && #[trigger] call_ensures(parse_declared, (t1,), Ok(declared))
                    && *t2 == *final(t1) && #[trigger] call_ensures(
                    parse_auto_accessors,
                    (t2,),
                    Ok(accessors),
                ) && *t3 == *final(t2) ==> #[trigger] call_requires(parse_const_getters, (t3,)))
                ==> #[trigger] call_requires(
                parse::<TP, D, S, E, R, A, C>,
                (config, type_parser, parse_declared, parse_auto_accessors, parse_const_getters),
            ),
{
}

} // verus!
