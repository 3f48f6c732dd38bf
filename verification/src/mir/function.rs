//! Numbering the parsed functions and checking their lane annotations.

use super::name_order::{is_name_order, lemma_is_name_order, name_order};
use super::{
    IrValueOrSkip, LaneRouting, MirFunc, MirFuncMode, ParserMirInternalConfig,
    RequireAnnotationWhen,
};
use crate::text;
use itertools::Itertools;
use vstd::prelude::*;

verus! {

/// Why the lane annotations of a set of functions are refused.
#[derive(Debug, PartialEq, Eq)]
pub enum LaneRoutingError {
    /// The annotation of `function` names `lane`, which is none of `lanes`.
    UnknownLane { function: String, lane: String, lanes: Vec<String> },
    /// The functions `offenders` must be annotated and are not; `lanes_hint` lists
    /// what an annotation may name.
    MissingAnnotation { lanes_hint: String, offenders: Vec<String> },
}

/// What a [`LaneRoutingError`] says, as text.
pub enum LaneRoutingErrorView {
    UnknownLane { function: Seq<char>, lane: Seq<char>, lanes: Seq<Seq<char>> },
    MissingAnnotation { lanes_hint: Seq<char>, offenders: Seq<Seq<char>> },
}

impl View for LaneRoutingError {
    type V = LaneRoutingErrorView;

    open spec fn view(&self) -> LaneRoutingErrorView {
        match self {
            LaneRoutingError::UnknownLane { function, lane, lanes } =>
                LaneRoutingErrorView::UnknownLane {
                    function: function@,
                    lane: lane@,
                    lanes: text::texts(lanes@),
                },
            LaneRoutingError::MissingAnnotation { lanes_hint, offenders } =>
                LaneRoutingErrorView::MissingAnnotation {
                    lanes_hint: lanes_hint@,
                    offenders: text::texts(offenders@),
                },
        }
    }
}

/// How std's `Debug` writes a list of strings.
pub uninterp spec fn debug_list(strings: Seq<Seq<char>>) -> Seq<char>;

/// Calls the `Debug` implementation of std's `Vec<String>`, through `format!`. The
/// contract names its text, which depends on the strings alone: their characters,
/// escaped, in quotes, and the list in brackets.
#[verifier::external_body]
fn format_debug(strings: &Vec<String>) -> (formatted: String)
    ensures
        formatted@ == debug_list(text::texts(strings@)),
{
    format!("{strings:?}")
}

impl LaneRoutingErrorView {
    /// The error as it is shown to whoever runs the generator.
    pub open spec fn message(self) -> Seq<char> {
        match self {
            LaneRoutingErrorView::UnknownLane { function, lane, lanes } => "function `"@ + function
                + "` is annotated `#[frb(thread = "@ + lane + ")]`, but `"@ + lane
                + "` is not a configured lane; valid lanes: Main, "@ + text::joined(lanes, ", "@),
            LaneRoutingErrorView::MissingAnnotation { lanes_hint, offenders } =>
            "these functions match the configured `require_annotation_when` policy but have no `#[frb(thread = ...)]` annotation; add `#[frb(thread = "@
                + lanes_hint + ")]` to each so the custom executor routes it: "@ + debug_list(
                offenders,
            ),
        }
    }
}

impl LaneRoutingError {
    /// The error as it is shown to whoever runs the generator.
    pub fn message(&self) -> (message: String)
        ensures
            message@ == self@.message(),
    {
        match self {
            LaneRoutingError::UnknownLane { function, lane, lanes } => {
                let mut message = "function `".to_owned();
                message.append(function.as_str());
                message.append("` is annotated `#[frb(thread = ");
                message.append(lane.as_str());
                message.append(")]`, but `");
                message.append(lane.as_str());
                message.append("` is not a configured lane; valid lanes: Main, ");
                let names = text::join(lanes, ", ");
                message.append(names.as_str());
                message
            },
            LaneRoutingError::MissingAnnotation { lanes_hint, offenders } => {
                let mut message =
                    "these functions match the configured `require_annotation_when` policy but have no `#[frb(thread = ...)]` annotation; add `#[frb(thread = ".to_owned();
                message.append(lanes_hint.as_str());
                message.append(")]` to each so the custom executor routes it: ");
                let names = format_debug(offenders);
                message.append(names.as_str());
                message
            },
        }
    }
}

/// The annotation of `func` names neither `Main` nor one of `lanes`.
pub open spec fn names_unknown_lane<D>(func: MirFunc<D>, lanes: Seq<Seq<char>>) -> bool {
    match func.thread {
        Some(lane) => lane@ != "Main"@ && !lanes.contains(lane@),
        None => false,
    }
}

/// `func` has a parameter of one of `names`.
pub open spec fn has_input_named<D>(func: MirFunc<D>, names: Seq<Seq<char>>) -> bool {
    exists|i: int| 0 <= i < func.inputs@.len() && names.contains(#[trigger] func.inputs@[i].name@)
}

/// The parameter names that `require` goes by.
pub open spec fn param_names(require: RequireAnnotationWhen) -> Seq<Seq<char>> {
    match require.param_named {
        Some(names) => text::texts(names@),
        None => seq![],
    }
}

/// `func` must be annotated by `require`, and is not.
pub open spec fn lacks_annotation<D>(func: MirFunc<D>, require: RequireAnnotationWhen) -> bool {
    &&& func.thread is None
    &&& (require.sync == Some(true) && func.mode is Sync) || has_input_named(
        func,
        param_names(require),
    )
}

/// Those of `funcs` whose annotation names a lane that `routing` does not know.
pub open spec fn misnamed<D>(funcs: Seq<MirFunc<D>>, routing: LaneRouting) -> Seq<MirFunc<D>> {
    match routing.lanes {
        Some(lanes) => funcs.filter(|func| names_unknown_lane(func, text::texts(lanes@))),
        None => seq![],
    }
}

/// Those of `funcs` that `routing` wants annotated and that are not.
pub open spec fn unannotated<D>(funcs: Seq<MirFunc<D>>, routing: LaneRouting) -> Seq<MirFunc<D>> {
    match routing.require_annotation_when {
        Some(require) => funcs.filter(|func| lacks_annotation(func, require)),
        None => seq![],
    }
}

/// What an annotation may name under `routing`, as an error message lists it.
pub open spec fn lanes_hint(routing: LaneRouting) -> Seq<char> {
    match routing.lanes {
        Some(lanes) => "Main|"@ + text::joined(text::texts(lanes@), "|"@),
        None => "Main"@,
    }
}

/// What is wrong with the lane annotations of `funcs`. An unknown lane comes
/// first, and of several the one of the earliest function; then all functions
/// whose annotation is missing, together.
pub open spec fn lane_error<D>(
    funcs: Seq<MirFunc<D>>,
    config: ParserMirInternalConfig,
) -> Option<LaneRoutingErrorView> {
    match config.lane_routing {
        None => None,
        Some(routing) => {
            let misnamed = misnamed(funcs, routing);
            let unannotated = unannotated(funcs, routing);
            if misnamed.len() > 0 {
                Some(
                    LaneRoutingErrorView::UnknownLane {
                        function: misnamed[0].name@,
                        lane: misnamed[0].thread->0@,
                        lanes: text::texts(routing.lanes->0@),
                    },
                )
            } else if unannotated.len() > 0 {
                Some(
                    LaneRoutingErrorView::MissingAnnotation {
                        lanes_hint: lanes_hint(routing),
                        offenders: unannotated.map_values(|func: MirFunc<D>| func.name@),
                    },
                )
            } else {
                None
            }
        },
    }
}

/// The first element that `pred` picks is the first of all that it picks.
proof fn lemma_filter_first<A>(s: Seq<A>, pred: spec_fn(A) -> bool, i: int)
    requires
        0 <= i < s.len(),
        s.take(i).filter(pred).len() == 0,
        pred(s[i]),
    ensures
        s.filter(pred).len() > 0,
        s.filter(pred)[0] == s[i],
{
    let head = s.take(i + 1);
    reveal(Seq::filter);
    assert(head.drop_last() =~= s.take(i));
    assert(head.filter(pred) =~= seq![s[i]]);
    assert(s =~= head + s.skip(i + 1));
    Seq::filter_distributes_over_add(head, s.skip(i + 1), pred);
}

/// Adding one element to a prefix adds it to the filtered prefix where `pred`
/// picks it.
proof fn lemma_filter_step<A>(s: Seq<A>, pred: spec_fn(A) -> bool, i: int)
    requires
        0 <= i < s.len(),
    ensures
        s.take(i + 1).filter(pred) == if pred(s[i]) {
            s.take(i).filter(pred).push(s[i])
        } else {
            s.take(i).filter(pred)
        },
{
    reveal(Seq::filter);
    assert(s.take(i + 1).drop_last() =~= s.take(i));
}

/// Whether an annotation names `Main` or one of `lanes`.
fn is_known_lane(lane: &String, lanes: &Vec<String>) -> (known: bool)
    ensures
        known == (lane@ == "Main"@ || text::texts(lanes@).contains(lane@)),
{
    let main = "Main".to_owned();
    *lane == main || text::contains(lanes, lane)
}

/// Whether a function has a parameter of one of `names`.
fn any_input_named<D>(func: &MirFunc<D>, names: &Vec<String>) -> (found: bool)
    ensures
        found == has_input_named(*func, text::texts(names@)),
{
    let mut i: usize = 0;
    while i < func.inputs.len()
        invariant
            i <= func.inputs.len(),
            forall|k: int|
                0 <= k < i ==> !text::texts(names@).contains(#[trigger] func.inputs@[k].name@),
        decreases func.inputs.len() - i,
    {
        if text::contains(names, &func.inputs[i].name) {
            return true;
        }
        i += 1;
    }
    false
}

/// Whether a function must be annotated by `require`, and is not.
fn is_offender<D>(func: &MirFunc<D>, require: &RequireAnnotationWhen) -> (offends: bool)
    ensures
        offends == lacks_annotation(*func, *require),
{
    if func.thread.is_some() {
        return false;
    }
    let is_sync = match (require.sync, func.mode) {
        (Some(true), MirFuncMode::Sync) => true,
        _ => false,
    };
    let has_named_param = match &require.param_named {
        Some(names) => any_input_named(func, names),
        None => {
            assert(!has_input_named(*func, param_names(*require)));
            false
        },
    };
    is_sync || has_named_param
}

/// The lanes that an annotation may name, as an error message lists them.
fn describe_lanes(routing: &LaneRouting) -> (hint: String)
    ensures
        hint@ == lanes_hint(*routing),
{
    match &routing.lanes {
        Some(lanes) => {
            let mut hint = "Main|".to_owned();
            let names = text::join(lanes, "|");
            hint.append(names.as_str());
            hint
        },
        None => "Main".to_owned(),
    }
}

/// Holds the lane annotations of `funcs` against the embedder's rules. Without
/// rules every annotation is accepted and none is required.
///
/// The check runs over all functions once they are parsed, so that its error
/// stops the generator: an error while one function is parsed may only skip that
/// function.
pub fn validate_frb_threads<D>(
    funcs: &[MirFunc<D>],
    config: &ParserMirInternalConfig,
) -> (verdict: Result<(), LaneRoutingError>)
    ensures
        verdict is Ok <==> lane_error(funcs@, *config) is None,
        verdict matches Err(error) ==> lane_error(funcs@, *config) == Some(error@),
{
    let routing = match &config.lane_routing {
        Some(routing) => routing,
        None => {
            return Ok(());
        },
    };

    if let Some(lanes) = &routing.lanes {
        let ghost unknown = |func: MirFunc<D>| names_unknown_lane(func, text::texts(lanes@));
        let mut i: usize = 0;
        assert(funcs@.take(0).filter(unknown) =~= seq![]) by {
            reveal(Seq::filter);
        }
        while i < funcs.len()
            invariant
                i <= funcs.len(),
                config.lane_routing == Some(*routing),
                routing.lanes == Some(*lanes),
                unknown == (|func: MirFunc<D>| names_unknown_lane(func, text::texts(lanes@))),
                funcs@.take(i as int).filter(unknown) == Seq::<MirFunc<D>>::empty(),
            decreases funcs.len() - i,
        {
            let func = &funcs[i];
            if let Some(lane) = &func.thread {
                if !is_known_lane(lane, lanes) {
                    proof {
                        lemma_filter_first(funcs@, unknown, i as int);
                    }
                    return Err(
                        LaneRoutingError::UnknownLane {
                            function: func.name.clone(),
                            lane: lane.clone(),
                            lanes: lanes.clone(),
                        },
                    );
                }
            }
            proof {
                lemma_filter_step(funcs@, unknown, i as int);
            }
            i += 1;
        }
        assert(funcs@.take(funcs@.len() as int) =~= funcs@);
    }
    assert(misnamed(funcs@, *routing).len() == 0);

    if let Some(require) = &routing.require_annotation_when {
        let ghost offends = |func: MirFunc<D>| lacks_annotation(func, *require);
        let mut offenders: Vec<String> = Vec::new();
        let mut i: usize = 0;
        assert(funcs@.take(0).filter(offends) =~= seq![]) by {
            reveal(Seq::filter);
        }
        while i < funcs.len()
            invariant
                i <= funcs.len(),
                offends == (|func: MirFunc<D>| lacks_annotation(func, *require)),
                text::texts(offenders@) == funcs@.take(i as int).filter(offends).map_values(
                    |func: MirFunc<D>| func.name@,
                ),
            decreases funcs.len() - i,
        {
            proof {
                lemma_filter_step(funcs@, offends, i as int);
            }
            if is_offender(&funcs[i], require) {
                let ghost before = offenders@;
                offenders.push(funcs[i].name.clone());
                assert(text::texts(offenders@) =~= text::texts(before).push(
                    funcs@[i as int].name@,
                ));
            }
            i += 1;
        }
        assert(funcs@.take(funcs@.len() as int) =~= funcs@);
        if offenders.len() > 0 {
            assert(text::texts(offenders@).len() == offenders@.len());
            return Err(
                LaneRoutingError::MissingAnnotation {
                    lanes_hint: describe_lanes(routing),
                    offenders,
                },
            );
        }
        assert(text::texts(offenders@).len() == 0);
    }
    Ok(())
}

/// The names of `funcs`.
pub open spec fn names<D>(funcs: Seq<MirFunc<D>>) -> Seq<Seq<char>> {
    funcs.map_values(|func: MirFunc<D>| func.name@)
}

/// `funcs` in the order that `order` gives.
pub open spec fn arranged<D>(order: Seq<int>, funcs: Seq<MirFunc<D>>) -> Seq<MirFunc<D>> {
    order.map_values(|k: int| funcs[k])
}

/// `funcs` numbered from one, and unchanged but for their number. The number is
/// cut to 32 bits.
pub open spec fn numbered<D>(funcs: Seq<MirFunc<D>>) -> Seq<MirFunc<D>> {
    Seq::new(funcs.len(), |i: int| MirFunc { id: Some((i + 1) as i32), ..funcs[i] })
}

/// `funcs` sorted by name, equal names in their given order, and numbered.
pub open spec fn sorted_and_numbered<D>(funcs: Seq<MirFunc<D>>) -> Seq<MirFunc<D>> {
    numbered(arranged(name_order(names(funcs)), funcs))
}

/// `sorted` holds `funcs` in ascending order of their names, each once, equal names
/// in their given order.
pub open spec fn is_sorted_by_name<D>(funcs: Seq<MirFunc<D>>, sorted: Seq<MirFunc<D>>) -> bool {
    exists|order: Seq<int>|
        #[trigger] is_name_order(order, names(funcs)) && sorted == arranged(order, funcs)
}

/// Calls `Itertools::sorted_by_cached_key` of the crate itertools, which collects
/// the functions and sorts them with std's stable `sort_by_cached_key`, here by
/// their names. The contract claims what these document: the functions come back
/// in ascending order of their names, each once, equal names in their given order;
/// std orders strings by the code points of their characters, as `precedes` does.
#[verifier::external_body]
fn sorted_by_name<D>(funcs: Vec<MirFunc<D>>) -> (sorted: Vec<MirFunc<D>>)
    ensures
        is_sorted_by_name(funcs@, sorted@),
{
    funcs.into_iter().sorted_by_cached_key(|func| func.name.clone()).collect_vec()
}

/// Sorts the functions by name, which gives whatever comes after a stable order,
/// and numbers them from one.
pub fn sort_and_add_func_id<D>(funcs: Vec<MirFunc<D>>) -> (sorted: Vec<MirFunc<D>>)
    ensures
        sorted@ == sorted_and_numbered(funcs@),
{
    let mut sorted = sorted_by_name(funcs);
    let ghost in_order = sorted@;
    proof {
        let order = choose|order: Seq<int>|
            is_name_order(order, names(funcs@)) && in_order == arranged(order, funcs@);
        lemma_is_name_order(order, names(funcs@));
    }
    let mut i: usize = 0;
    while i < sorted.len()
        invariant
            i <= sorted@.len(),
            sorted@.len() == in_order.len(),
            forall|k: int|
                0 <= k < i ==> #[trigger] sorted@[k] == (MirFunc {
                    id: Some((k + 1) as i32),
                    ..in_order[k]
                }),
            forall|k: int| i <= k < sorted@.len() ==> #[trigger] sorted@[k] == in_order[k],
        decreases sorted@.len() - i,
    {
        sorted[i].id = Some((i + 1) as i32);
        i += 1;
    }
    assert(sorted@ =~= numbered(in_order));
    sorted
}

/// What one of the parsers of functions hands over.
pub type FuncItem<D, S> = IrValueOrSkip<MirFunc<D>, S>;

/// Why functions could not be parsed.
#[derive(Debug, PartialEq, Eq)]
pub enum ParseError<E> {
    /// A parser of functions failed.
    Items(E),
    /// The functions were parsed, and their lane annotations are refused.
    Lanes(LaneRoutingError),
}

/// Calls `concat` of the crate itertools, which extends the first list with each
/// of the others. The contract claims that the result is the three lists one after
/// the other.
#[verifier::external_body]
fn concatenated<T>(first: Vec<T>, second: Vec<T>, third: Vec<T>) -> (all: Vec<T>)
    ensures
        all@ == first@ + second@ + third@,
{
    itertools::concat([first, second, third])
}

/// `outcome` is what becomes of the parsed `items`: their functions sorted and
/// numbered, and their notes, or else the error of their lane annotations.
pub open spec fn is_assembled<D, S>(
    items: Seq<FuncItem<D, S>>,
    config: ParserMirInternalConfig,
    outcome: Result<(Vec<MirFunc<D>>, Vec<S>), LaneRoutingError>,
) -> bool {
    let funcs = sorted_and_numbered(FuncItem::<D, S>::values(items));
    match lane_error(funcs, config) {
        None => outcome matches Ok(parsed) && parsed.0@ == funcs && parsed.1@ == FuncItem::<
            D,
            S,
        >::skips(items),
        Some(error) => outcome matches Err(e) && e@ == error,
    }
}

/// Puts together what the parsers of functions handed over.
pub fn assemble<D, S>(
    config: &ParserMirInternalConfig,
    declared: Vec<FuncItem<D, S>>,
    auto_accessors: Vec<FuncItem<D, S>>,
    const_getters: Vec<FuncItem<D, S>>,
) -> (outcome: Result<(Vec<MirFunc<D>>, Vec<S>), LaneRoutingError>)
    ensures
        is_assembled(declared@ + auto_accessors@ + const_getters@, *config, outcome),
{
    let items = concatenated(declared, auto_accessors, const_getters);
    let (funcs, skips) = IrValueOrSkip::split(items);
    let funcs = sort_and_add_func_id(funcs);
    match validate_frb_threads(funcs.as_slice(), config) {
        Ok(()) => Ok((funcs, skips)),
        Err(error) => Err(error),
    }
}

/// Parses all functions: the declared ones, the accessors of fields and the
/// getters of constants, by the three parsers, which share `type_parser`. The first
/// parser that fails ends the parse with its error.
pub fn parse<TP, D, S, E, R, A, C>(
    config: &ParserMirInternalConfig,
    type_parser: &mut TP,
    parse_declared: R,
    parse_auto_accessors: A,
    parse_const_getters: C,
) -> (outcome: Result<(Vec<MirFunc<D>>, Vec<S>), ParseError<E>>) where
    R: FnOnce(&mut TP) -> Result<Vec<FuncItem<D, S>>, E>,
    A: FnOnce(&mut TP) -> Result<Vec<FuncItem<D, S>>, E>,
    C: FnOnce(&mut TP) -> Result<Vec<FuncItem<D, S>>, E>,

    requires
        forall|t1: &mut TP|
            *t1 == *old(type_parser) ==> #[trigger] call_requires(parse_declared, (t1,)),
        forall|t1: &mut TP, t2: &mut TP, declared: Vec<FuncItem<D, S>>|
            *t1 == *old(type_parser) && #[trigger] call_ensures(
                parse_declared,
                (t1,),
                Ok(declared),
            ) && *t2 == *final(t1) ==> #[trigger] call_requires(parse_auto_accessors, (t2,)),
        forall|
            t1: &mut TP,
            t2: &mut TP,
            t3: &mut TP,
            declared: Vec<FuncItem<D, S>>,
            accessors: Vec<FuncItem<D, S>>,
        |
            *t1 == *old(type_parser) && #[trigger] call_ensures(
                parse_declared,
                (t1,),
                Ok(declared),
            ) && *t2 == *final(t1) && #[trigger] call_ensures(
                parse_auto_accessors,
                (t2,),
                Ok(accessors),
            ) && *t3 == *final(t2) ==> #[trigger] call_requires(parse_const_getters, (t3,)),
    ensures
        exists|t1: &mut TP, declared: Result<Vec<FuncItem<D, S>>, E>|
            *t1 == *old(type_parser) && #[trigger] call_ensures(parse_declared, (t1,), declared)
                && match declared {
                Err(e) => *final(type_parser) == *final(t1) && outcome == Err::<
                    (Vec<MirFunc<D>>, Vec<S>),
                    _,
                >(ParseError::Items(e)),
                Ok(declared) => exists|t2: &mut TP, accessors: Result<Vec<FuncItem<D, S>>, E>|
                    *t2 == *final(t1) && #[trigger] call_ensures(
                        parse_auto_accessors,
                        (t2,),
                        accessors,
                    ) && match accessors {
                        Err(e) => *final(type_parser) == *final(t2) && outcome == Err::<
                            (Vec<MirFunc<D>>, Vec<S>),
                            _,
                        >(ParseError::Items(e)),
                        Ok(accessors) => exists|
                            t3: &mut TP,
                            getters: Result<Vec<FuncItem<D, S>>, E>,
                        |
                            *t3 == *final(t2) && #[trigger] call_ensures(
                                parse_const_getters,
                                (t3,),
                                getters,
                            ) && *final(type_parser) == *final(t3) && match getters {
                                Err(e) => outcome == Err::<(Vec<MirFunc<D>>, Vec<S>), _>(
                                    ParseError::Items(e),
                                ),
                                Ok(getters) => match outcome {
                                    Ok(parsed) => is_assembled(
                                        declared@ + accessors@ + getters@,
                                        *config,
                                        Ok(parsed),
                                    ),
                                    Err(ParseError::Lanes(error)) => is_assembled(
                                        declared@ + accessors@ + getters@,
                                        *config,
                                        Err(error),
                                    ),
                                    Err(ParseError::Items(_)) => false,
                                },
                            },
                    },
            },
{
    let declared = match parse_declared(type_parser) {
        Ok(items) => items,
        Err(e) => {
            return Err(ParseError::Items(e));
        },
    };
    let accessors = match parse_auto_accessors(type_parser) {
        Ok(items) => items,
        Err(e) => {
            return Err(ParseError::Items(e));
        },
    };
    let getters = match parse_const_getters(type_parser) {
        Ok(items) => items,
        Err(e) => {
            return Err(ParseError::Items(e));
        },
    };
    match assemble(config, declared, accessors, getters) {
        Ok(parsed) => Ok(parsed),
        Err(error) => Err(ParseError::Lanes(error)),
    }
}

} // verus!
