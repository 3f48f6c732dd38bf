//! What holds of numbering functions and of checking their lane annotations,
//! whatever the functions.

use super::function::{
    arranged, is_assembled, lacks_annotation, lane_error, misnamed, names, names_unknown_lane,
    numbered, sorted_and_numbered, unannotated, FuncItem,
};
use super::name_order::{
    is_arrangement, is_name_order, lemma_arrangement_covers, lemma_is_name_order,
    lemma_name_order_exists, name_order, sorts_before,
};
use super::{IrValueOrSkip, LaneRouting, MirFunc, ParserMirInternalConfig};
use crate::mir::function::LaneRoutingError;
use crate::text;
use vstd::prelude::*;

verus! {

/// The rules of `config` have nothing against `func`.
pub open spec fn acceptable<D>(func: MirFunc<D>, config: ParserMirInternalConfig) -> bool {
    match config.lane_routing {
        None => true,
        Some(routing) => {
            &&& routing.lanes matches Some(lanes) ==> !names_unknown_lane(func, text::texts(lanes@))
            &&& routing.require_annotation_when matches Some(require) ==> !lacks_annotation(
                func,
                require,
            )
        },
    }
}

proof fn lemma_filter_is_empty<A>(s: Seq<A>, pred: spec_fn(A) -> bool)
    ensures
        s.filter(pred).len() == 0 <==> forall|i: int| 0 <= i < s.len() ==> !pred(#[trigger] s[i]),
    decreases s.len(),
{
    reveal(Seq::filter);
    if s.len() > 0 {
        let rest = s.drop_last();
        lemma_filter_is_empty(rest, pred);
        assert(forall|i: int| 0 <= i < rest.len() ==> rest[i] == s[i]);
        if s.filter(pred).len() == 0 {
            assert forall|i: int| 0 <= i < s.len() implies !pred(#[trigger] s[i]) by {
                if i < rest.len() {
                    assert(!pred(rest[i]));
                }
            }
        } else if forall|i: int| 0 <= i < s.len() ==> !pred(#[trigger] s[i]) {
            assert forall|i: int| 0 <= i < rest.len() implies !pred(#[trigger] rest[i]) by {
                assert(!pred(s[i]));
            }
        }
    }
}

/// The functions pass exactly if the rules have nothing against any of them.
pub proof fn law_pass_iff_all_acceptable<D>(
    funcs: Seq<MirFunc<D>>,
    config: ParserMirInternalConfig,
)
    ensures
        lane_error(funcs, config) is None <==> forall|i: int|
            0 <= i < funcs.len() ==> acceptable(#[trigger] funcs[i], config),
{
    if let Some(routing) = config.lane_routing {
        if let Some(lanes) = routing.lanes {
            let unknown = |func: MirFunc<D>| names_unknown_lane(func, text::texts(lanes@));
            lemma_filter_is_empty(funcs, unknown);
            assert(misnamed(funcs, routing) == funcs.filter(unknown));
            assert(forall|i: int| 0 <= i < funcs.len() ==> (unknown(funcs[i]) ==> !acceptable(#[trigger] funcs[i], config)));
        }
        if let Some(require) = routing.require_annotation_when {
            let offends = |func: MirFunc<D>| lacks_annotation(func, require);
            lemma_filter_is_empty(funcs, offends);
            assert(unannotated(funcs, routing) == funcs.filter(offends));
            assert(forall|i: int| 0 <= i < funcs.len() ==> (offends(funcs[i]) ==> !acceptable(#[trigger] funcs[i], config)));
        }
    }
}

/// Without rules every annotation is accepted and none is required.
pub proof fn law_no_rules_no_error<D>(funcs: Seq<MirFunc<D>>, config: ParserMirInternalConfig)
    requires
        config.lane_routing is None,
    ensures
        lane_error(funcs, config) is None,
{
}

/// An annotation may name `lane` under `routing`.
pub open spec fn is_allowed_lane(lane: Seq<char>, routing: LaneRouting) -> bool {
    lane == "Main"@ || match routing.lanes {
        Some(lanes) => text::texts(lanes@).contains(lane),
        None => true,
    }
}

/// Functions that are all annotated with allowed lanes pass. `Main` is always
/// allowed, and with no lanes configured every lane is.
pub proof fn law_allowed_lanes_pass<D>(
    funcs: Seq<MirFunc<D>>,
    config: ParserMirInternalConfig,
    routing: LaneRouting,
)
    requires
        config.lane_routing == Some(routing),
        forall|i: int|
            0 <= i < funcs.len() ==> ((#[trigger] funcs[i]).thread matches Some(lane)
                && is_allowed_lane(lane@, routing)),
    ensures
        lane_error(funcs, config) is None,
{
    assert forall|i: int| 0 <= i < funcs.len() implies acceptable(#[trigger] funcs[i], config) by {
        assert(funcs[i].thread is Some);
    }
    law_pass_iff_all_acceptable(funcs, config);
}

/// `other` is `funcs` in another order: its element `i` is the one that `funcs` has
/// at `order[i]`, but for its number.
pub open spec fn is_rearranged<D>(
    order: Seq<int>,
    funcs: Seq<MirFunc<D>>,
    other: Seq<MirFunc<D>>,
) -> bool {
    &&& is_arrangement(order, funcs.len())
    &&& other.len() == funcs.len()
    &&& forall|i: int|
        0 <= i < other.len() ==> #[trigger] other[i] == (MirFunc {
            id: other[i].id,
            ..funcs[order[i]]
        })
}

/// Whether functions pass does not depend on the order in which they were parsed, nor on
/// their numbers.
pub proof fn law_verdict_ignores_order<D>(
    order: Seq<int>,
    funcs: Seq<MirFunc<D>>,
    other: Seq<MirFunc<D>>,
    config: ParserMirInternalConfig,
)
    requires
        is_rearranged(order, funcs, other),
    ensures
        lane_error(funcs, config) is None <==> lane_error(other, config) is None,
{
    law_pass_iff_all_acceptable(funcs, config);
    law_pass_iff_all_acceptable(other, config);
    if lane_error(funcs, config) is None {
        assert forall|i: int| 0 <= i < other.len() implies acceptable(
            #[trigger] other[i],
            config,
        ) by {
            assert(0 <= order[i] < funcs.len());
            lemma_number_is_not_read(other[i], funcs[order[i]], config);
        }
    }
    if lane_error(other, config) is None {
        assert forall|k: int| 0 <= k < funcs.len() implies acceptable(
            #[trigger] funcs[k],
            config,
        ) by {
            lemma_arrangement_covers(order, funcs.len(), k);
            let i = choose|i: int| 0 <= i < order.len() && order[i] == k;
            assert(acceptable(other[i], config));
            lemma_number_is_not_read(other[i], funcs[order[i]], config);
        }
    }
}

/// Sorting and numbering the functions does not change whether they pass.
pub proof fn law_verdict_ignores_sorting<D>(
    funcs: Seq<MirFunc<D>>,
    config: ParserMirInternalConfig,
)
    ensures
        lane_error(sorted_and_numbered(funcs), config) is None <==> lane_error(funcs, config)
            is None,
{
    let order = name_order(names(funcs));
    lemma_name_order_exists(names(funcs));
    law_verdict_ignores_order(order, funcs, sorted_and_numbered(funcs), config);
}

proof fn lemma_number_is_not_read<D>(
    a: MirFunc<D>,
    b: MirFunc<D>,
    config: ParserMirInternalConfig,
)
    requires
        a == (MirFunc { id: a.id, ..b }),
    ensures
        acceptable(a, config) == acceptable(b, config),
{
    assert(a.inputs == b.inputs && a.mode == b.mode && a.thread == b.thread);
}

/// Doing what the error on missing annotations asks for mends it: if no annotation
/// names an unknown lane, and each function whose annotation is missing gets one
/// that is allowed, the functions pass.
pub proof fn law_annotating_mends<D>(
    funcs: Seq<MirFunc<D>>,
    mended: Seq<MirFunc<D>>,
    config: ParserMirInternalConfig,
    routing: LaneRouting,
)
    requires
        config.lane_routing == Some(routing),
        misnamed(funcs, routing).len() == 0,
        mended.len() == funcs.len(),
        forall|i: int|
            0 <= i < funcs.len() ==> if acceptable(#[trigger] funcs[i], config) {
                mended[i] == funcs[i]
            } else {
                mended[i].thread matches Some(lane) && is_allowed_lane(lane@, routing)
            },
    ensures
        lane_error(mended, config) is None,
{
    assert forall|i: int| 0 <= i < mended.len() implies acceptable(
        #[trigger] mended[i],
        config,
    ) by {
        if !acceptable(funcs[i], config) {
            assert(mended[i].thread is Some);
        }
    }
    law_pass_iff_all_acceptable(mended, config);
}

/// The numbered functions are the given ones, each once and unchanged but for its
/// number, in ascending order of their names.
pub proof fn law_sorting_keeps_every_function<D>(funcs: Seq<MirFunc<D>>)
    ensures
        ({
            let order = name_order(names(funcs));
            let sorted = sorted_and_numbered(funcs);
            &&& is_name_order(order, names(funcs))
            &&& sorted.len() == funcs.len()
            &&& forall|i: int|
                0 <= i < sorted.len() ==> #[trigger] sorted[i] == (MirFunc {
                    id: sorted[i].id,
                    ..funcs[order[i]]
                })
            &&& forall|k: int| 0 <= k < funcs.len() ==> #[trigger] order.contains(k)
            &&& forall|i: int, j: int|
                #![trigger sorted[i], sorted[j]]
                0 <= i < j < sorted.len() ==> sorted[i].name@ == sorted[j].name@ || text::precedes(
                    sorted[i].name@,
                    sorted[j].name@,
                )
        }),
{
    let order = name_order(names(funcs));
    let sorted = sorted_and_numbered(funcs);
    lemma_name_order_exists(names(funcs));
    assert forall|k: int| 0 <= k < funcs.len() implies #[trigger] order.contains(k) by {
        lemma_arrangement_covers(order, funcs.len(), k);
    }
    assert forall|i: int, j: int|
        #![trigger sorted[i], sorted[j]]
        0 <= i < j < sorted.len() implies sorted[i].name@ == sorted[j].name@ || text::precedes(
        sorted[i].name@,
        sorted[j].name@,
    ) by {
        assert(sorts_before(names(funcs), order[i], order[j]));
        assert(0 <= order[i] < funcs.len() && 0 <= order[j] < funcs.len());
    }
}

/// The functions are numbered 1, 2, 3 and so on, as long as the numbers fit in 32
/// bits; so no two share a number.
pub proof fn law_numbers_count_from_one<D>(funcs: Seq<MirFunc<D>>)
    requires
        funcs.len() <= i32::MAX,
    ensures
        forall|i: int|
            0 <= i < funcs.len() ==> (#[trigger] sorted_and_numbered(funcs)[i].id matches Some(id)
                && id == i + 1),
{
    lemma_name_order_exists(names(funcs));
}

/// The output does not depend on the order of the input, nor on the numbers in it, as
/// long as functions that share a name keep their order; so it never does if no two share one.
pub proof fn law_output_ignores_input_order<D>(
    order: Seq<int>,
    funcs: Seq<MirFunc<D>>,
    other: Seq<MirFunc<D>>,
)
    requires
        is_rearranged(order, funcs, other),
        forall|i: int, j: int|
            #![trigger order[i], order[j]]
            0 <= i < j < order.len() && names(funcs)[order[i]] == names(funcs)[order[j]]
                ==> order[i] < order[j],
    ensures
        sorted_and_numbered(funcs) == sorted_and_numbered(other),
{
    let other_order = name_order(names(other));
    lemma_name_order_exists(names(other));
    let composed = other_order.map_values(|k: int| order[k]);
    assert(names(other).len() == names(funcs).len());
    assert forall|i: int| 0 <= i < composed.len() implies 0 <= #[trigger] composed[i]
        < funcs.len() by {
        assert(0 <= other_order[i] < other.len());
        assert(composed[i] == order[other_order[i]]);
    }
    assert forall|i: int, j: int| 0 <= i < composed.len() && 0 <= j < composed.len() && i
        != j implies composed[i] != composed[j] by {
        assert(0 <= other_order[i] < other.len() && 0 <= other_order[j] < other.len());
        assert(other_order[i] != other_order[j]);
    }
    assert forall|i: int, j: int|
        #![trigger composed[i], composed[j]]
        0 <= i < j < composed.len() implies sorts_before(
        names(funcs),
        composed[i],
        composed[j],
    ) by {
        assert(0 <= other_order[i] < other.len() && 0 <= other_order[j] < other.len());
        assert(sorts_before(names(other), other_order[i], other_order[j]));
        assert(names(other)[other_order[i]] == names(funcs)[composed[i]]);
        assert(names(other)[other_order[j]] == names(funcs)[composed[j]]);
        assert(composed[i] != composed[j]);
    }
    assert(is_name_order(composed, names(funcs)));
    lemma_is_name_order(composed, names(funcs));
    assert(sorted_and_numbered(funcs) =~= sorted_and_numbered(other)) by {
        assert forall|i: int| 0 <= i < composed.len() implies sorted_and_numbered(funcs)[i]
            == sorted_and_numbered(other)[i] by {
            assert(0 <= other_order[i] < other.len());
            assert(other[other_order[i]] == (MirFunc {
                id: other[other_order[i]].id,
                ..funcs[composed[i]]
            }));
        }
    }
}

/// Sorting and numbering a second time changes nothing.
pub proof fn law_sorting_twice_is_sorting_once<D>(funcs: Seq<MirFunc<D>>)
    ensures
        sorted_and_numbered(sorted_and_numbered(funcs)) == sorted_and_numbered(funcs),
{
    let sorted = sorted_and_numbered(funcs);
    law_sorting_keeps_every_function(funcs);
    let same = Seq::new(sorted.len(), |i: int| i);
    assert forall|i: int, j: int|
        #![trigger same[i], same[j]]
        0 <= i < j < same.len() implies sorts_before(names(sorted), same[i], same[j]) by {
        assert(sorted[i].name@ == sorted[j].name@ || text::precedes(
            sorted[i].name@,
            sorted[j].name@,
        ));
    }
    assert(is_name_order(same, names(sorted)));
    lemma_is_name_order(same, names(sorted));
    assert(arranged(same, sorted) =~= sorted);
    assert(numbered(sorted) =~= sorted);
}

proof fn lemma_split_keeps_every_item<T, S>(items: Seq<IrValueOrSkip<T, S>>)
    ensures
        IrValueOrSkip::values(items).len() + IrValueOrSkip::skips(items).len() == items.len(),
    decreases items.len(),
{
    if items.len() > 0 {
        lemma_split_keeps_every_item(items.drop_last());
    }
}

/// A parse that succeeds drops nothing: each parsed item is one of its functions or
/// one of its notes. A function with a refused annotation is never turned into a
/// note.
pub proof fn law_parse_drops_nothing<D, S>(
    items: Seq<FuncItem<D, S>>,
    config: ParserMirInternalConfig,
    parsed: (Vec<MirFunc<D>>, Vec<S>),
)
    requires
        is_assembled(items, config, Ok::<_, LaneRoutingError>(parsed)),
    ensures
        parsed.0@.len() + parsed.1@.len() == items.len(),
        parsed.0@ == sorted_and_numbered(FuncItem::<D, S>::values(items)),
        parsed.1@ == FuncItem::<D, S>::skips(items),
        forall|i: int| 0 <= i < parsed.0@.len() ==> acceptable(#[trigger] parsed.0@[i], config),
{
    lemma_split_keeps_every_item(items);
    law_sorting_keeps_every_function(FuncItem::<D, S>::values(items));
    law_pass_iff_all_acceptable(parsed.0@, config);
}

} // verus!
