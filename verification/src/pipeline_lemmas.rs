//! What holds of every run of the pipeline.
//!
//! The answers of the catalog and of the archive come back in an order that
//! nobody controls. The lemmas of this file say what that order can change
//! and what it cannot: it can decide which of two errors is met first, and
//! nothing else.

use vstd::prelude::*;
use crate::compose::{base_only, lemma_base_alone, LayerRole, LAYER_COUNT};
use crate::db::ByteRange;
use crate::encode::{
    encodable,
    encoded,
    finished,
    is_outcome,
    is_resampling,
    lemma_one_encoding,
    valid_scale,
};
use crate::error::IconError;
use crate::pipeline::{
    all_settled,
    encoded_into,
    layers_of,
    Action,
    Arrival,
    ChainModel,
    Lookup,
    PipelineModel,
    Stage,
};
use crate::raster::{decoded, PIXELS, RASTER_BYTES, SIDE};
use crate::request::RequestModel;

verus! {

/// The answers of `arrivals` that are for the layer in the place of `role`,
/// in the order in which they came.
pub open spec fn answers_for(arrivals: Seq<Arrival>, role: LayerRole) -> Seq<Arrival>
    decreases arrivals.len(),
{
    if arrivals.len() == 0 {
        Seq::empty()
    } else {
        let rest = answers_for(arrivals.drop_last(), role);
        if arrivals.last().role() == role {
            rest.push(arrivals.last())
        } else {
            rest
        }
    }
}

/// The chain of the layer in the place of `role` after the answers of
/// `arrivals` that are for it, or `None` where one of them fails.
pub open spec fn chain_run(chain: ChainModel, arrivals: Seq<Arrival>, role: LayerRole) -> Option<
    ChainModel,
>
    decreases arrivals.len(),
{
    if arrivals.len() == 0 {
        Some(chain)
    } else {
        match chain_run(chain, arrivals.drop_last(), role) {
            None => None,
            Some(before) => if arrivals.last().role() == role {
                match before.step(arrivals.last()) {
                    Ok(after) => Some(after),
                    Err(_) => None,
                }
            } else {
                Some(before)
            },
        }
    }
}

/// True when the chain in place `i` fails on the answers of `arrivals`.
pub open spec fn fails_at(m: PipelineModel, arrivals: Seq<Arrival>, i: int) -> bool {
    chain_run(m.chains[i], arrivals, LayerRole::spec_at(i)) is None
}

/// True when some chain fails on the answers of `arrivals`.
pub open spec fn some_chain_fails(m: PipelineModel, arrivals: Seq<Arrival>) -> bool {
    exists|i: int| 0 <= i < LAYER_COUNT && #[trigger] fails_at(m, arrivals, i)
}

/// Each role has one place in the stack and each place one role.
pub proof fn lemma_role_places()
    ensures
        forall|role: LayerRole|
            0 <= #[trigger] role.spec_index() < LAYER_COUNT && LayerRole::spec_at(
                role.spec_index(),
            ) == role,
        forall|i: int|
            0 <= i < LAYER_COUNT ==> (#[trigger] LayerRole::spec_at(i)).spec_index() == i,
{
}

/// A request that is handed to a valid pipeline leaves it valid.
pub proof fn lemma_valid_after_start(m: PipelineModel, request: RequestModel, default_effect: i32)
    requires
        m.valid(),
        request.valid(),
    ensures
        PipelineModel::fresh().valid(),
        m.started(request, default_effect).valid(),
{
    let s = m.started(request, default_effect);
    if m.stage == Stage::Resolving {
        assert(s.chains[2] is AwaitingRecord);
        assert(!s.chains[2].settled());
    }
}

/// An answer that comes back to a valid pipeline leaves it valid, and so do
/// compositing and the refusal of a request.
pub proof fn lemma_valid_after_answer(m: PipelineModel, arrival: Arrival)
    requires
        m.valid(),
    ensures
        m.delivered(arrival).valid(),
        m.composited().valid(),
        forall|error: IconError| (#[trigger] m.rejected(error)).valid(),
{
    lemma_role_places();
    if m.stage == Stage::FetchingLayers {
        let at = arrival.role().spec_index();
        match m.chains[at].step(arrival) {
            Ok(chain) => {
                let chains = m.chains.update(at, chain);
                let d = m.delivered(arrival);
                assert(d.chains == chains);
                assert forall|i: int| 0 <= i < LAYER_COUNT implies ((#[trigger] chains[i])
                    matches ChainModel::Ready { raster } ==> raster.len() == RASTER_BYTES) by {
                    if i != at {
                        assert(chains[i] == m.chains[i]);
                    }
                }
                assert(!(chain is Absent) || m.chains[at] is Absent);
                assert(chains[2] == if at == 2 { chain } else { m.chains[2] });
                assert(chains[5] == if at == 5 { chain } else { m.chains[5] });
                if all_settled(chains) {
                    assert(chains[2].settled() && chains[5].settled());
                }
            },
            Err(_) => {},
        }
    }
}

/// Once a request has failed, nothing changes its state: no answer that
/// comes back later, and neither compositing nor a new request.
pub proof fn lemma_error_is_final(m: PipelineModel, arrivals: Seq<Arrival>)
    requires
        m.stage == Stage::Error,
    ensures
        m.run(arrivals) == m,
        m.composited() == m,
        forall|request: RequestModel, default_effect: i32|
            #[trigger] m.started(request, default_effect) == m,
        forall|error: IconError| #[trigger] m.rejected(error) == m,
    decreases arrivals.len(),
{
    if arrivals.len() > 0 {
        lemma_error_is_final(m, arrivals.drop_last());
    }
}

/// A failure in the chain of any one layer ends the whole request, whatever
/// the other chains have reached: the state is the error state, it holds no
/// canvas, and no later answer brings the request back.
pub proof fn lemma_failure_ends_request(
    m: PipelineModel,
    arrival: Arrival,
    error: IconError,
    later: Seq<Arrival>,
)
    requires
        m.valid(),
        m.stage == Stage::FetchingLayers,
        m.chains[arrival.role().spec_index()].step(arrival) == Err::<ChainModel, IconError>(
            error,
        ),
    ensures
        m.delivered(arrival).stage == Stage::Error,
        m.delivered(arrival).error == Some(error),
        m.delivered(arrival).canvas is None,
        m.delivered(arrival).run(later) == m.delivered(arrival),
        m.delivered(arrival).run(later).composited().canvas is None,
{
    lemma_error_is_final(m.delivered(arrival), later);
}

/// A record that the catalog does not hold ends the request with
/// [`IconError::RecordNotFound`], for the base as for any other layer that
/// the request names, and whatever the other layers have reached.
pub proof fn lemma_record_not_found(m: PipelineModel, role: LayerRole, later: Seq<Arrival>)
    requires
        m.valid(),
        m.stage == Stage::FetchingLayers,
        m.chains[role.spec_index()] is AwaitingRecord,
    ensures
        ({
            let end = m.delivered(Arrival::Record { role, outcome: Lookup::NotFound });
            &&& end.stage == Stage::Error
            &&& end.error == Some(IconError::RecordNotFound)
            &&& end.error->0.spec_status() == 404
            &&& end.canvas is None
            &&& end.run(later) == end
            &&& end.run(later).composited() == end
        }),
{
    let arrival = Arrival::Record { role, outcome: Lookup::NotFound };
    lemma_failure_ends_request(m, arrival, IconError::RecordNotFound, later);
    lemma_error_is_final(m.delivered(arrival), later);
}

/// A chain sees only the answers that are for its layer.
pub proof fn lemma_chain_sees_its_answers(
    chain: ChainModel,
    arrivals: Seq<Arrival>,
    role: LayerRole,
)
    ensures
        chain_run(chain, arrivals, role) == chain_run(chain, answers_for(arrivals, role), role),
    decreases arrivals.len(),
{
    if arrivals.len() > 0 {
        let rest = arrivals.drop_last();
        let last = arrivals.last();
        lemma_chain_sees_its_answers(chain, rest, role);
        if last.role() == role {
            let mine = answers_for(rest, role).push(last);
            assert(mine.drop_last() =~= answers_for(rest, role));
            assert(mine.last() == last);
        }
    }
}

/// A chain that has nothing left to wait for stays as it is, whatever comes
/// back for it.
pub proof fn lemma_chain_ends(chain: ChainModel, arrival: Arrival)
    requires
        chain.settled(),
    ensures
        chain.step(arrival) == Ok::<ChainModel, IconError>(chain),
{
}

/// While no chain fails, the state after a run is made of the chains, each
/// run on its own; and the request fails exactly when one of its chains
/// does.
pub proof fn lemma_run_by_chains(m: PipelineModel, arrivals: Seq<Arrival>)
    requires
        m.valid(),
        m.stage == Stage::FetchingLayers || m.stage == Stage::Compositing,
    ensures
        m.run(arrivals).valid(),
        m.run(arrivals).stage == Stage::Error <==> some_chain_fails(m, arrivals),
        m.run(arrivals).stage != Stage::Error ==> ({
            let end = m.run(arrivals);
            &&& end.chains.len() == LAYER_COUNT
            &&& forall|i: int|
                0 <= i < LAYER_COUNT ==> Some(#[trigger] end.chains[i]) == chain_run(
                    m.chains[i],
                    arrivals,
                    LayerRole::spec_at(i),
                )
            &&& end.stage == if all_settled(end.chains) {
                Stage::Compositing
            } else {
                Stage::FetchingLayers
            }
            &&& end.scale == m.scale
            &&& end.canvas == m.canvas
            &&& end.error == m.error
        }),
    decreases arrivals.len(),
{
    lemma_role_places();
    if arrivals.len() == 0 {
        assert forall|i: int| 0 <= i < LAYER_COUNT implies !#[trigger] fails_at(m, arrivals, i) by {}
    } else {
        let rest = arrivals.drop_last();
        let last = arrivals.last();
        let mid = m.run(rest);
        let end = m.run(arrivals);
        let at = last.role().spec_index();
        lemma_run_by_chains(m, rest);
        lemma_valid_after_answer(mid, last);
        if mid.stage == Stage::Error {
            let i = choose|i: int| 0 <= i < LAYER_COUNT && #[trigger] fails_at(m, rest, i);
            assert(fails_at(m, arrivals, i));
        } else {
            assert forall|i: int| 0 <= i < LAYER_COUNT implies chain_run(
                m.chains[i],
                rest,
                LayerRole::spec_at(i),
            ) == Some(#[trigger] mid.chains[i]) by {}
            assert(chain_run(m.chains[at], rest, last.role()) == Some(mid.chains[at]));
            if mid.stage == Stage::Compositing {
                assert(end == mid);
                assert forall|i: int| 0 <= i < LAYER_COUNT implies Some(#[trigger] end.chains[i])
                    == chain_run(m.chains[i], arrivals, LayerRole::spec_at(i)) by {
                    assert(mid.chains[i].settled());
                    lemma_chain_ends(mid.chains[i], last);
                }
                assert forall|i: int| 0 <= i < LAYER_COUNT implies !#[trigger] fails_at(
                    m,
                    arrivals,
                    i,
                ) by {
                    assert(Some(end.chains[i]) == chain_run(
                        m.chains[i],
                        arrivals,
                        LayerRole::spec_at(i),
                    ));
                }
            } else {
                assert(mid.stage == Stage::FetchingLayers);
                match mid.chains[at].step(last) {
                    Ok(chain) => {
                        assert(end.chains == mid.chains.update(at, chain));
                        assert forall|i: int| 0 <= i < LAYER_COUNT implies Some(
                            #[trigger] end.chains[i],
                        ) == chain_run(m.chains[i], arrivals, LayerRole::spec_at(i)) by {
                            if i != at {
                                assert(LayerRole::spec_at(i) != last.role());
                            }
                        }
                        assert forall|i: int| 0 <= i < LAYER_COUNT implies !#[trigger] fails_at(
                            m,
                            arrivals,
                            i,
                        ) by {
                            assert(Some(end.chains[i]) == chain_run(
                                m.chains[i],
                                arrivals,
                                LayerRole::spec_at(i),
                            ));
                        }
                    },
                    Err(_) => {
                        assert(end.stage == Stage::Error);
                        assert(fails_at(m, arrivals, at));
                    },
                }
            }
        }
    }
}

/// The order in which the layers complete changes nothing.
///
/// Take two runs from the same state in which every single layer gets the
/// same answers in the same order, while the answers of different layers
/// may be interleaved in any way. Then both runs fail or neither does, and
/// where they do not fail they end in the same state, and so with the same
/// canvas, byte for byte.
pub proof fn lemma_completion_order(m: PipelineModel, first: Seq<Arrival>, second: Seq<Arrival>)
    requires
        m.valid(),
        m.stage == Stage::FetchingLayers,
        forall|role: LayerRole| answers_for(first, role) == answers_for(second, role),
    ensures
        m.run(first).stage == Stage::Error <==> m.run(second).stage == Stage::Error,
        m.run(first).stage != Stage::Error ==> m.run(first) == m.run(second),
        m.run(first).stage != Stage::Error ==> m.run(first).composited() == m.run(
            second,
        ).composited(),
{
    lemma_role_places();
    lemma_run_by_chains(m, first);
    lemma_run_by_chains(m, second);
    assert forall|i: int| 0 <= i < LAYER_COUNT implies chain_run(
        m.chains[i],
        first,
        LayerRole::spec_at(i),
    ) == chain_run(m.chains[i], second, LayerRole::spec_at(i)) by {
        let role = LayerRole::spec_at(i);
        lemma_chain_sees_its_answers(m.chains[i], first, role);
        lemma_chain_sees_its_answers(m.chains[i], second, role);
        assert(answers_for(first, role) == answers_for(second, role));
    }
    assert forall|i: int| 0 <= i < LAYER_COUNT implies fails_at(m, first, i) == fails_at(
        m,
        second,
        i,
    ) by {}
    if some_chain_fails(m, first) {
        let i = choose|i: int| 0 <= i < LAYER_COUNT && #[trigger] fails_at(m, first, i);
        assert(fails_at(m, second, i));
    }
    if some_chain_fails(m, second) {
        let i = choose|i: int| 0 <= i < LAYER_COUNT && #[trigger] fails_at(m, second, i);
        assert(fails_at(m, first, i));
    }
    if m.run(first).stage != Stage::Error {
        let a = m.run(first);
        let b = m.run(second);
        assert forall|i: int| 0 <= i < LAYER_COUNT implies a.chains[i] == b.chains[i] by {
            assert(Some(a.chains[i]) == chain_run(m.chains[i], first, LayerRole::spec_at(i)));
            assert(Some(b.chains[i]) == chain_run(m.chains[i], second, LayerRole::spec_at(i)));
        }
        assert(a.chains =~= b.chains);
    }
}

/// Two answers for different layers may come in either order.
///
/// Whichever of the two layers is answered first, the request fails in both
/// orders or in neither, and where it does not fail the state is the same.
pub proof fn lemma_two_answers_commute(m: PipelineModel, a: Arrival, b: Arrival)
    requires
        m.valid(),
        m.stage == Stage::FetchingLayers,
        a.role() != b.role(),
    ensures
        m.delivered(a).delivered(b).stage == Stage::Error <==> m.delivered(b).delivered(a).stage
            == Stage::Error,
        m.delivered(a).delivered(b).stage != Stage::Error ==> m.delivered(a).delivered(b)
            == m.delivered(b).delivered(a),
{
    let first = seq![a, b];
    let second = seq![b, a];
    reveal_with_fuel(PipelineModel::run, 3);
    reveal_with_fuel(answers_for, 3);
    assert(first.drop_last() =~= seq![a]);
    assert(second.drop_last() =~= seq![b]);
    assert(seq![a].drop_last() =~= Seq::<Arrival>::empty());
    assert(seq![b].drop_last() =~= Seq::<Arrival>::empty());
    assert(m.run(first) == m.delivered(a).delivered(b));
    assert(m.run(second) == m.delivered(b).delivered(a));
    assert forall|role: LayerRole| answers_for(first, role) == answers_for(second, role) by {
        let none = Seq::<Arrival>::empty();
        if role == a.role() {
            assert(answers_for(first, role) =~= seq![a]);
            assert(answers_for(second, role) =~= seq![a]);
        } else if role == b.role() {
            assert(answers_for(first, role) =~= seq![b]);
            assert(answers_for(second, role) =~= seq![b]);
        } else {
            assert(answers_for(first, role) =~= none);
            assert(answers_for(second, role) =~= none);
        }
    }
    lemma_completion_order(m, first, second);
}

/// What the chain of a layer ends as when the catalog and the archive
/// answer as `catalog` and `archive` say: nothing for a place without a
/// layer, the decoded raster where the record is found, its bytes are read
/// and they are one raster, and `None` where any of that fails.
pub open spec fn chain_end(
    start: ChainModel,
    catalog: spec_fn(i32) -> Lookup,
    archive: spec_fn(ByteRange) -> Option<Seq<u8>>,
) -> Option<ChainModel> {
    match start {
        ChainModel::Absent => Some(ChainModel::Absent),
        ChainModel::AwaitingRecord { id } => match catalog(id) {
            Lookup::Found(record) => match record.spec_byte_range() {
                Some(range) => match archive(range) {
                    Some(bytes) => match decoded(bytes) {
                        Some(raster) => Some(ChainModel::Ready { raster }),
                        None => None,
                    },
                    None => None,
                },
                None => None,
            },
            _ => None,
        },
        _ => None,
    }
}

/// True when `arrival` is what the catalog or the archive answers for a
/// chain that started as `start`.
pub open spec fn is_answer(
    start: ChainModel,
    catalog: spec_fn(i32) -> Lookup,
    archive: spec_fn(ByteRange) -> Option<Seq<u8>>,
    arrival: Arrival,
) -> bool {
    match start {
        ChainModel::AwaitingRecord { id } => match arrival {
            Arrival::Record { outcome, .. } => outcome == catalog(id),
            Arrival::Bytes { data, .. } => {
                &&& catalog(id) matches Lookup::Found(record)
                &&& record.spec_byte_range() matches Some(range)
                &&& data == archive(range)
            },
        },
        _ => true,
    }
}

/// True when every answer of `arrivals` is what the catalog or the archive
/// answers for the chain of its layer.
pub open spec fn all_answers(
    m: PipelineModel,
    catalog: spec_fn(i32) -> Lookup,
    archive: spec_fn(ByteRange) -> Option<Seq<u8>>,
    arrivals: Seq<Arrival>,
) -> bool {
    forall|k: int|
        0 <= k < arrivals.len() ==> is_answer(
            m.chains[(#[trigger] arrivals[k]).role().spec_index()],
            catalog,
            archive,
            arrivals[k],
        )
}

/// True when a chain that started as `start` can be at `now`.
pub open spec fn on_track(
    start: ChainModel,
    catalog: spec_fn(i32) -> Lookup,
    archive: spec_fn(ByteRange) -> Option<Seq<u8>>,
    now: Option<ChainModel>,
) -> bool {
    match now {
        None => chain_end(start, catalog, archive) is None,
        Some(chain) => {
            ||| chain == start
            ||| {
                &&& start matches ChainModel::AwaitingRecord { id }
                &&& chain == (ChainModel::AwaitingBytes { id })
                &&& catalog(id) matches Lookup::Found(record)
                &&& record.spec_byte_range() is Some
            }
            ||| (chain is Ready && Some(chain) == chain_end(start, catalog, archive))
        },
    }
}

/// With an unchanged catalog and archive a chain can only go one way.
pub proof fn lemma_chain_on_track(
    start: ChainModel,
    catalog: spec_fn(i32) -> Lookup,
    archive: spec_fn(ByteRange) -> Option<Seq<u8>>,
    arrivals: Seq<Arrival>,
    role: LayerRole,
)
    requires
        start is Absent || start is AwaitingRecord,
        forall|k: int|
            0 <= k < arrivals.len() && (#[trigger] arrivals[k]).role() == role ==> is_answer(
                start,
                catalog,
                archive,
                arrivals[k],
            ),
    ensures
        on_track(start, catalog, archive, chain_run(start, arrivals, role)),
    decreases arrivals.len(),
{
    if arrivals.len() > 0 {
        let rest = arrivals.drop_last();
        let last = arrivals.last();
        assert forall|k: int| 0 <= k < rest.len() && (#[trigger] rest[k]).role()
            == role implies is_answer(start, catalog, archive, rest[k]) by {
            assert(rest[k] == arrivals[k]);
        }
        lemma_chain_on_track(start, catalog, archive, rest, role);
        if last.role() == role {
            assert(last == arrivals[arrivals.len() - 1]);
            assert(is_answer(start, catalog, archive, last));
        }
    }
}

/// The same request gives the same canvas as long as the catalog and the
/// archive do not change.
///
/// Take two runs of one request, in each of which every answer is what
/// `catalog` and `archive` give, in any order. If the first run gets to
/// compositing, the second cannot fail, and if it gets to compositing too,
/// both are in the same state and stack the same canvas, byte for byte.
pub proof fn lemma_same_request_same_canvas(
    request: RequestModel,
    default_effect: i32,
    catalog: spec_fn(i32) -> Lookup,
    archive: spec_fn(ByteRange) -> Option<Seq<u8>>,
    first: Seq<Arrival>,
    second: Seq<Arrival>,
)
    requires
        request.valid(),
        all_answers(
            PipelineModel::fresh().started(request, default_effect),
            catalog,
            archive,
            first,
        ),
        all_answers(
            PipelineModel::fresh().started(request, default_effect),
            catalog,
            archive,
            second,
        ),
        PipelineModel::fresh().started(request, default_effect).run(first).stage
            == Stage::Compositing,
    ensures
        ({
            let start = PipelineModel::fresh().started(request, default_effect);
            &&& start.run(second).stage != Stage::Error
            &&& start.run(second).stage == Stage::Compositing ==> start.run(second) == start.run(
                first,
            )
            &&& start.run(second).stage == Stage::Compositing ==> start.run(
                second,
            ).composited().canvas == start.run(first).composited().canvas
        }),
{
    let start = PipelineModel::fresh().started(request, default_effect);
    lemma_role_places();
    lemma_valid_after_start(PipelineModel::fresh(), request, default_effect);
    lemma_run_by_chains(start, first);
    lemma_run_by_chains(start, second);
    let a = start.run(first);
    let b = start.run(second);
    assert forall|i: int| 0 <= i < LAYER_COUNT implies on_track(
        start.chains[i],
        catalog,
        archive,
        chain_run(start.chains[i], first, LayerRole::spec_at(i)),
    ) && on_track(
        start.chains[i],
        catalog,
        archive,
        chain_run(start.chains[i], second, LayerRole::spec_at(i)),
    ) by {
        let role = LayerRole::spec_at(i);
        assert forall|k: int| 0 <= k < first.len() && (#[trigger] first[k]).role()
            == role implies is_answer(start.chains[i], catalog, archive, first[k]) by {}
        assert forall|k: int| 0 <= k < second.len() && (#[trigger] second[k]).role()
            == role implies is_answer(start.chains[i], catalog, archive, second[k]) by {}
        lemma_chain_on_track(start.chains[i], catalog, archive, first, role);
        lemma_chain_on_track(start.chains[i], catalog, archive, second, role);
    }
    assert forall|i: int| 0 <= i < LAYER_COUNT implies Some(#[trigger] a.chains[i]) == chain_end(
        start.chains[i],
        catalog,
        archive,
    ) by {
        assert(Some(a.chains[i]) == chain_run(start.chains[i], first, LayerRole::spec_at(i)));
        assert(a.chains[i].settled());
    }
    if b.stage == Stage::Error {
        let i = choose|i: int| 0 <= i < LAYER_COUNT && #[trigger] fails_at(start, second, i);
        assert(Some(a.chains[i]) == chain_end(start.chains[i], catalog, archive));
        assert(false);
    }
    if b.stage == Stage::Compositing {
        assert forall|i: int| 0 <= i < LAYER_COUNT implies a.chains[i] == b.chains[i] by {
            assert(Some(b.chains[i]) == chain_run(start.chains[i], second, LayerRole::spec_at(i)));
            assert(b.chains[i].settled());
        }
        assert(a.chains =~= b.chains);
    }
}

/// The same canvas gives the same image.
///
/// At scale 1 two results of finishing one canvas are the same file. At a
/// larger scale they are the same file where the resampler gives one result
/// for the canvas; that it does is not claimed, so it is asked for here.
pub proof fn lemma_same_canvas_same_image(
    canvas: Seq<u8>,
    scale: u32,
    first: Result<Vec<u8>, IconError>,
    second: Result<Vec<u8>, IconError>,
)
    requires
        finished(canvas, scale, first),
        finished(canvas, scale, second),
        scale == 1 || forall|a: Seq<u8>, b: Seq<u8>|
            #[trigger] is_resampling(canvas, SIDE, (SIDE * scale) as u32, a)
                && #[trigger] is_resampling(canvas, SIDE, (SIDE * scale) as u32, b) ==> a == b,
    ensures
        first is Ok <==> second is Ok,
        first matches Ok(a) ==> (second matches Ok(b) && a@ == b@),
        first matches Err(e) ==> (second matches Err(f) && e == f),
{
    if !valid_scale(scale as int) {
    } else if scale == 1 {
        lemma_one_encoding(canvas, SIDE, first, second);
    } else {
        let side = (SIDE * scale) as u32;
        let a = choose|a: Seq<u8>|
            {
                &&& #[trigger] is_resampling(canvas, SIDE, side, a)
                &&& encodable(a, side)
                &&& is_outcome(first, encoded(a, side))
            };
        let b = choose|b: Seq<u8>|
            {
                &&& #[trigger] is_resampling(canvas, SIDE, side, b)
                &&& encodable(b, side)
                &&& is_outcome(second, encoded(b, side))
            };
        assert(a == b);
        lemma_one_encoding(a, side, first, second);
    }
}

/// A request that names nothing but its base, with an effect that is fully
/// transparent, gives the base raster: when both layers are ready, the
/// canvas that compositing makes is the base, byte for byte.
pub proof fn lemma_plain_request_gives_base(m: PipelineModel, base: Seq<u8>, effect: Seq<u8>)
    requires
        m.valid(),
        m.stage == Stage::Compositing,
        m.chains == seq![
            ChainModel::Absent,
            ChainModel::Absent,
            ChainModel::Ready { raster: base },
            ChainModel::Absent,
            ChainModel::Absent,
            ChainModel::Ready { raster: effect },
        ],
        forall|i: int| 0 <= i < PIXELS ==> #[trigger] effect[4 * i + 3] == 0,
    ensures
        m.composited().stage == Stage::Encoding,
        m.composited().canvas == Some(base),
{
    assert(m.chains[2] == (ChainModel::Ready { raster: base }));
    assert(m.chains[5] == (ChainModel::Ready { raster: effect }));
    assert(base.len() == RASTER_BYTES && effect.len() == RASTER_BYTES);
    assert(layers_of(m.chains) =~= base_only(base).update(5, Some(effect)));
    lemma_base_alone(base, effect);
}

/// The encoding stage ends every request with an image: whatever the canvas
/// holds, what ends the stage is a response and the request is done.
pub proof fn lemma_encoding_ends_done(before: PipelineModel, after: PipelineModel, action: Action)
    requires
        before.valid(),
        before.stage == Stage::Encoding,
        encoded_into(before, after, action),
    ensures
        after.stage == Stage::Done,
        after.error is None,
        action is Respond,
{
}

} // verus!
