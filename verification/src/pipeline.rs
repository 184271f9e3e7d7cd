//! The pipeline: one request from its resolved form to PNG bytes.
//!
//! A pipeline goes through the stages resolving, fetching layers,
//! compositing, encoding and done, and any stage can end in an error that
//! nothing leaves again. The pipeline reads neither the catalog nor the
//! archive. It says what to look up and what to fetch, the caller does so, in
//! any order and at the same time if it likes, and hands each answer back.
//!
//! For every layer there is a chain: look up the record, fetch its bytes,
//! decode them. The chains do not depend on one another. Compositing starts
//! when the last of them is ready, and the first failure ends the request.

use vstd::prelude::*;
use crate::compose::{
    canvas_bytes,
    composed,
    composite,
    Canvas,
    LayerRole,
    LayerSet,
    LAYER_COUNT,
};
use crate::db::Record;
use crate::encode::{finish, finished, valid_scale};
use crate::error::IconError;
use crate::raster::{decode, decoded, Raster, RASTER_BYTES};
use crate::request::{
    resolve_request,
    resolved,
    Draws,
    IconRequest,
    NameTables,
    RawRequest,
    RequestModel,
};

verus! {

/// Where a request stands.
#[derive(Clone, Copy, Debug, PartialEq, Eq, Structural)]
pub enum Stage {
    Resolving,
    FetchingLayers,
    Compositing,
    Encoding,
    Done,
    Error,
}

/// What the catalog answers to a lookup.
#[derive(Clone, Copy, Debug, PartialEq, Eq, Structural)]
pub enum Lookup {
    /// The record of the id.
    Found(Record),
    /// The catalog holds no record under the id.
    NotFound,
    /// The catalog could not be read.
    StoreError,
}

/// What the caller is to do next.
#[derive(Debug)]
pub enum Action {
    /// Nothing: other answers are still due, or what was handed in was not
    /// expected and has been ignored.
    Wait,
    /// Look up the record of `id` and hand the answer to
    /// [`IconPipeline::on_record`].
    Lookup { role: LayerRole, id: i32 },
    /// Fetch `length` bytes of the archive from `offset` on and hand them to
    /// [`IconPipeline::on_bytes`].
    Fetch { role: LayerRole, offset: u64, length: u64 },
    /// Every layer is ready: call [`IconPipeline::composite`].
    Composite,
    /// The canvas is finished: call [`IconPipeline::encode`].
    Encode,
    /// Send the image.
    Respond { png: Vec<u8> },
    /// Send the error.
    Fail { error: IconError },
}

/// How far the chain of one layer has come.
pub enum ChainModel {
    /// The request has no layer in this place.
    Absent,
    /// The record of `id` has been asked for.
    AwaitingRecord { id: i32 },
    /// The bytes of the record of `id` have been asked for.
    AwaitingBytes { id: i32 },
    /// The layer is decoded.
    Ready { raster: Seq<u8> },
}

/// The state of a pipeline.
pub struct PipelineModel {
    pub stage: Stage,
    pub scale: u32,
    pub chains: Seq<ChainModel>,
    pub canvas: Option<Seq<u8>>,
    pub error: Option<IconError>,
}

/// An answer that comes back from outside.
pub enum Arrival {
    /// The answer of the catalog for the layer in the place of `role`.
    Record { role: LayerRole, outcome: Lookup },
    /// The answer of the archive for the layer in the place of `role`: the
    /// bytes, or none where the read failed or gave no data.
    Bytes { role: LayerRole, data: Option<Seq<u8>> },
}

impl Arrival {
    /// The layer that the answer is for.
    pub open spec fn role(self) -> LayerRole {
        match self {
            Arrival::Record { role, .. } => role,
            Arrival::Bytes { role, .. } => role,
        }
    }
}

impl ChainModel {
    /// True when the chain has nothing left to wait for.
    pub open spec fn settled(self) -> bool {
        self is Absent || self is Ready
    }

    /// The raster that the chain has ready, if any.
    pub open spec fn layer(self) -> Option<Seq<u8>> {
        match self {
            ChainModel::Ready { raster } => Some(raster),
            _ => None,
        }
    }

    /// The chain after an answer for its layer, or the error that the answer
    /// ends the request with. An answer that the chain does not wait for
    /// changes nothing.
    pub open spec fn step(self, arrival: Arrival) -> Result<ChainModel, IconError> {
        match (self, arrival) {
            (ChainModel::AwaitingRecord { id }, Arrival::Record { outcome, .. }) => match outcome {
                Lookup::Found(record) => match record.spec_byte_range() {
                    Some(_) => Ok(ChainModel::AwaitingBytes { id }),
                    None => Err(IconError::FetchFailure),
                },
                Lookup::NotFound => Err(IconError::RecordNotFound),
                Lookup::StoreError => Err(IconError::FetchFailure),
            },
            (ChainModel::AwaitingBytes { id }, Arrival::Bytes { data, .. }) => match data {
                Some(bytes) => match decoded(bytes) {
                    Some(raster) => Ok(ChainModel::Ready { raster }),
                    None => Err(IconError::DecodeFailure),
                },
                None => Err(IconError::FetchFailure),
            },
            _ => Ok(self),
        }
    }
}

/// True when no chain has anything left to wait for.
pub open spec fn all_settled(chains: Seq<ChainModel>) -> bool {
    forall|i: int| 0 <= i < chains.len() ==> (#[trigger] chains[i]).settled()
}

/// The layers that the chains have ready, each in its place of the stack.
pub open spec fn layers_of(chains: Seq<ChainModel>) -> Seq<Option<Seq<u8>>> {
    Seq::new(chains.len(), |i: int| chains[i].layer())
}

/// The chain that a request starts for a place of the stack.
pub open spec fn chain_for(id: Option<i32>) -> ChainModel {
    match id {
        Some(id) => ChainModel::AwaitingRecord { id },
        None => ChainModel::Absent,
    }
}

/// The canonical ids that are looked up for a request: those that it names,
/// and `default_effect` where it names no effect.
pub open spec fn planned(request: RequestModel, default_effect: i32) -> Seq<Option<i32>> {
    if request.ids[5] is None {
        request.ids.update(5, Some(default_effect))
    } else {
        request.ids
    }
}

impl PipelineModel {
    /// The state of a pipeline that has not been given its request.
    pub open spec fn fresh() -> PipelineModel {
        PipelineModel {
            stage: Stage::Resolving,
            scale: 1,
            chains: Seq::new(LAYER_COUNT as nat, |i: int| ChainModel::Absent),
            canvas: None,
            error: None,
        }
    }

    /// True for the states that a pipeline can be in.
    pub open spec fn valid(self) -> bool {
        &&& self.chains.len() == LAYER_COUNT
        &&& valid_scale(self.scale as int)
        &&& forall|i: int|
            0 <= i < LAYER_COUNT ==> ((#[trigger] self.chains[i]) matches ChainModel::Ready {
                raster,
            } ==> raster.len() == RASTER_BYTES)
        &&& (self.stage == Stage::Error <==> self.error is Some)
        &&& match self.stage {
            Stage::Resolving => self.canvas is None,
            Stage::FetchingLayers => {
                &&& self.canvas is None
                &&& !all_settled(self.chains)
                &&& !(self.chains[2] is Absent)
                &&& !(self.chains[5] is Absent)
            },
            Stage::Compositing => {
                &&& self.canvas is None
                &&& all_settled(self.chains)
                &&& self.chains[2] is Ready
                &&& self.chains[5] is Ready
            },
            Stage::Encoding => {
                &&& self.canvas == Some(composed(layers_of(self.chains)))
                &&& all_settled(self.chains)
                &&& self.chains[2] is Ready
                &&& self.chains[5] is Ready
            },
            Stage::Done => true,
            Stage::Error => self.canvas is None,
        }
    }

    /// The state after the request failed with `error`.
    pub open spec fn failed(self, error: IconError) -> PipelineModel {
        PipelineModel { stage: Stage::Error, error: Some(error), canvas: None, ..self }
    }

    /// The state after a resolved request was handed in: a chain is started
    /// for every layer of the request, and for the default effect where the
    /// request names none. Past the first stage a request is ignored.
    pub open spec fn started(self, request: RequestModel, default_effect: i32) -> PipelineModel {
        if self.stage == Stage::Resolving {
            PipelineModel {
                stage: Stage::FetchingLayers,
                scale: request.scale,
                chains: Seq::new(
                    LAYER_COUNT as nat,
                    |i: int| chain_for(planned(request, default_effect)[i]),
                ),
                canvas: None,
                error: None,
            }
        } else {
            self
        }
    }

    /// The state after the request could not be resolved.
    pub open spec fn rejected(self, error: IconError) -> PipelineModel {
        if self.stage == Stage::Resolving {
            self.failed(error)
        } else {
            self
        }
    }

    /// The state after an answer came back. While layers are fetched the
    /// answer moves the chain of its layer on, or ends the request. When the
    /// last chain is ready, compositing is next. At any other stage the
    /// answer is ignored.
    pub open spec fn delivered(self, arrival: Arrival) -> PipelineModel {
        if self.stage == Stage::FetchingLayers {
            let at = arrival.role().spec_index();
            match self.chains[at].step(arrival) {
                Ok(chain) => {
                    let chains = self.chains.update(at, chain);
                    PipelineModel {
                        stage: if all_settled(chains) {
                            Stage::Compositing
                        } else {
                            Stage::FetchingLayers
                        },
                        chains,
                        ..self
                    }
                },
                Err(error) => self.failed(error),
            }
        } else {
            self
        }
    }

    /// The state after the layers were stacked. At any stage but compositing
    /// nothing changes.
    pub open spec fn composited(self) -> PipelineModel {
        if self.stage == Stage::Compositing {
            PipelineModel {
                stage: Stage::Encoding,
                canvas: Some(composed(layers_of(self.chains))),
                ..self
            }
        } else {
            self
        }
    }

    /// The state after the answers of `arrivals` came back one after the
    /// other.
    pub open spec fn run(self, arrivals: Seq<Arrival>) -> PipelineModel
        decreases arrivals.len(),
    {
        if arrivals.len() == 0 {
            self
        } else {
            self.run(arrivals.drop_last()).delivered(arrivals.last())
        }
    }
}

/// What is to be done after an answer came back in state `before`.
pub open spec fn action_after(before: PipelineModel, arrival: Arrival, action: Action) -> bool {
    let after = before.delivered(arrival);
    if before.stage != Stage::FetchingLayers {
        action is Wait
    } else if after.stage == Stage::Error {
        action matches Action::Fail { error } && Some(error) == after.error
    } else if after.stage == Stage::Compositing {
        action is Composite
    } else {
        match (before.chains[arrival.role().spec_index()], arrival) {
            (
                ChainModel::AwaitingRecord { .. },
                Arrival::Record { role, outcome: Lookup::Found(record) },
            ) => {
                &&& record.spec_byte_range() matches Some(range)
                &&& action == Action::Fetch { role, offset: range.offset, length: range.length }
            },
            _ => action is Wait,
        }
    }
}

/// The chain of one layer.
enum Chain {
    Absent,
    AwaitingRecord { id: i32 },
    AwaitingBytes { id: i32 },
    Ready { raster: Raster },
}

impl View for Chain {
    type V = ChainModel;

    closed spec fn view(&self) -> ChainModel {
        match self {
            Chain::Absent => ChainModel::Absent,
            Chain::AwaitingRecord { id } => ChainModel::AwaitingRecord { id: *id },
            Chain::AwaitingBytes { id } => ChainModel::AwaitingBytes { id: *id },
            Chain::Ready { raster } => ChainModel::Ready { raster: raster@ },
        }
    }
}

/// One request on its way from its resolved form to PNG bytes.
pub struct IconPipeline {
    stage: Stage,
    scale: u32,
    chains: Vec<Chain>,
    canvas: Option<Canvas>,
    error: Option<IconError>,
}

impl View for IconPipeline {
    type V = PipelineModel;

    closed spec fn view(&self) -> PipelineModel {
        PipelineModel {
            stage: self.stage,
            scale: self.scale,
            chains: Seq::new(self.chains@.len(), |i: int| self.chains@[i]@),
            canvas: canvas_bytes(self.canvas),
            error: self.error,
        }
    }
}

/// True when no chain has anything left to wait for.
fn settled(chains: &Vec<Chain>) -> (b: bool)
    ensures
        b == all_settled(Seq::new(chains@.len(), |i: int| chains@[i]@)),
{
    let ghost models = Seq::new(chains@.len(), |i: int| chains@[i]@);
    let mut i: usize = 0;
    while i < chains.len()
        invariant
            i <= chains.len(),
            models == Seq::new(chains@.len(), |i: int| chains@[i]@),
            forall|j: int| 0 <= j < i ==> (#[trigger] models[j]).settled(),
        decreases chains.len() - i,
    {
        match &chains[i] {
            Chain::Absent => {},
            Chain::Ready { .. } => {},
            _ => {
                assert(!models[i as int].settled());
                return false;
            },
        }
        i = i + 1;
    }
    true
}

impl IconPipeline {
    #[verifier::type_invariant]
    spec fn well_formed(self) -> bool {
        self@.valid()
    }

    /// A pipeline that waits for its request.
    pub fn new() -> (pipeline: IconPipeline)
        ensures
            pipeline@ == PipelineModel::fresh(),
            pipeline@.valid(),
    {
        let mut chains: Vec<Chain> = Vec::with_capacity(LAYER_COUNT);
        chains.push(Chain::Absent);
        chains.push(Chain::Absent);
        chains.push(Chain::Absent);
        chains.push(Chain::Absent);
        chains.push(Chain::Absent);
        chains.push(Chain::Absent);
        let pipeline = IconPipeline {
            stage: Stage::Resolving,
            scale: 1,
            chains,
            canvas: None,
            error: None,
        };
        assert(pipeline@.chains =~= PipelineModel::fresh().chains);
        pipeline
    }

    /// Where the request stands.
    pub fn stage(&self) -> (stage: Stage)
        ensures
            stage == self@.stage,
            self@.valid(),
    {
        proof {
            use_type_invariant(self);
        }
        self.stage
    }

    /// The error that ended the request, if one did.
    pub fn error(&self) -> (error: Option<IconError>)
        ensures
            error == self@.error,
            error is Some <==> self@.stage == Stage::Error,
    {
        proof {
            use_type_invariant(self);
        }
        self.error
    }

    /// Ends the resolving stage with an error: the request could not be
    /// resolved. Past that stage nothing changes.
    pub fn reject(self, error: IconError) -> (next: (IconPipeline, Action))
        ensures
            next.0@ == self@.rejected(error),
            self@.stage == Stage::Resolving ==> next.1 == (Action::Fail { error }),
            self@.stage != Stage::Resolving ==> next.1 is Wait,
            next.0@.valid(),
    {
        proof {
            use_type_invariant(&self);
        }
        if !(self.stage == Stage::Resolving) {
            return (self, Action::Wait);
        }
        let IconPipeline { stage, scale, chains, canvas, error: _ } = self;
        let ghost before = Seq::new(chains@.len(), |i: int| chains@[i]@);
        let next = IconPipeline {
            stage: Stage::Error,
            scale,
            chains,
            canvas: None,
            error: Some(error),
        };
        assert(next@.chains =~= before);
        proof {
            use_type_invariant(&next);
        }
        (next, Action::Fail { error })
    }

    /// Ends the resolving stage: starts a chain for every layer of the
    /// request, and for `default_effect` where the request names no effect.
    /// What comes back are the lookups to make, from the bottom of the stack
    /// up. Past the resolving stage nothing changes and nothing comes back.
    pub fn start(self, request: IconRequest, default_effect: i32) -> (next: (
        IconPipeline,
        Vec<Action>,
    ))
        ensures
            next.0@ == self@.started(request@, default_effect),
            self@.stage == Stage::Resolving ==> is_fan_out(
                next.1@,
                planned(request@, default_effect),
            ),
            self@.stage != Stage::Resolving ==> next.1@.len() == 0,
            next.0@.valid(),
    {
        proof {
            use_type_invariant(&self);
        }
        if !(self.stage == Stage::Resolving) {
            return (self, Vec::new());
        }
        let scale: u32 = request.scale();
        let ghost plan = planned(request@, default_effect);
        let mut chains: Vec<Chain> = Vec::with_capacity(LAYER_COUNT);
        let mut actions: Vec<Action> = Vec::with_capacity(LAYER_COUNT);
        let mut z: usize = 0;
        while z < LAYER_COUNT
            invariant
                z <= LAYER_COUNT,
                request@.valid(),
                plan == planned(request@, default_effect),
                chains@.len() == z,
                forall|i: int| 0 <= i < z ==> (#[trigger] chains@[i])@ == chain_for(plan[i]),
                is_fan_out(actions@, plan.take(z as int)),
            decreases LAYER_COUNT - z,
        {
            let role: LayerRole = match LayerRole::at(z) {
                Some(role) => role,
                None => LayerRole::Effect,
            };
            let named: Option<i32> = request.layer(role);
            let id: Option<i32> = if z == 5 && named.is_none() {
                Some(default_effect)
            } else {
                named
            };
            assert(id == plan[z as int]);
            proof {
                let shorter = plan.take(z as int);
                let longer = plan.take(z + 1);
                assert(longer.drop_last() =~= shorter);
                assert(longer.last() == id);
            }
            let ghost prior = actions@;
            match id {
                Some(id) => {
                    chains.push(Chain::AwaitingRecord { id });
                    actions.push(Action::Lookup { role, id });
                    assert(actions@.drop_last() =~= prior);
                },
                None => {
                    chains.push(Chain::Absent);
                },
            }
            z = z + 1;
        }
        assert(plan.take(LAYER_COUNT as int) =~= plan);
        let next = IconPipeline {
            stage: Stage::FetchingLayers,
            scale,
            chains,
            canvas: None,
            error: None,
        };
        proof {
            let model = self@.started(request@, default_effect);
            assert(next@.chains =~= model.chains);
            assert(!next@.chains[2].settled());
            use_type_invariant(&next);
        }
        (next, actions)
    }

    /// Runs the resolving stage on a raw request: resolves every identifier
    /// and name and checks the scale. If all of it is well, the chains are
    /// started as by [`IconPipeline::start`]. If not, the request ends with
    /// the error of its first bad part, and what comes back is that one
    /// failure. Past the resolving stage nothing changes and nothing comes
    /// back.
    pub fn resolve(
        self,
        raw: &RawRequest,
        names: &NameTables,
        draws: Draws,
        default_effect: i32,
    ) -> (next: (IconPipeline, Vec<Action>))
        ensures
            match resolved(*raw, *names, draws) {
                Ok(request) => {
                    &&& next.0@ == self@.started(request, default_effect)
                    &&& self@.stage == Stage::Resolving ==> is_fan_out(
                        next.1@,
                        planned(request, default_effect),
                    )
                },
                Err(error) => {
                    &&& next.0@ == self@.rejected(error)
                    &&& self@.stage == Stage::Resolving ==> next.1@ == seq![Action::Fail { error }]
                },
            },
            self@.stage != Stage::Resolving ==> next.1@.len() == 0,
            next.0@.valid(),
    {
        proof {
            use_type_invariant(&self);
        }
        if !(self.stage == Stage::Resolving) {
            return (self, Vec::new());
        }
        match resolve_request(raw, names, draws) {
            Ok(request) => self.start(request, default_effect),
            Err(error) => {
                let (pipeline, action) = self.reject(error);
                let mut actions: Vec<Action> = Vec::new();
                actions.push(action);
                assert(actions@ =~= seq![Action::Fail { error }]);
                (pipeline, actions)
            },
        }
    }

    /// Ends the request with `error`.
    fn fail(self, error: IconError) -> (next: (IconPipeline, Action))
        ensures
            next.0@ == self@.failed(error),
            next.1 == (Action::Fail { error }),
    {
        proof {
            use_type_invariant(&self);
        }
        let IconPipeline { stage: _, scale, chains, canvas: _, error: _ } = self;
        let ghost before = Seq::new(chains@.len(), |i: int| chains@[i]@);
        let next = IconPipeline {
            stage: Stage::Error,
            scale,
            chains,
            canvas: None,
            error: Some(error),
        };
        assert(next@.chains =~= before);
        (next, Action::Fail { error })
    }

    /// Puts `chain` in the place `at` and goes on to compositing if that was
    /// the last chain to wait for.
    fn advance(self, at: usize, chain: Chain) -> (next: IconPipeline)
        requires
            self@.stage == Stage::FetchingLayers,
            at < LAYER_COUNT,
            !(chain@ is Absent),
            chain@ matches ChainModel::Ready { raster } ==> raster.len() == RASTER_BYTES,
        ensures
            next@.chains == self@.chains.update(at as int, chain@),
            next@.stage == if all_settled(next@.chains) {
                Stage::Compositing
            } else {
                Stage::FetchingLayers
            },
            next@.scale == self@.scale,
            next@.canvas == self@.canvas,
            next@.error == self@.error,
    {
        proof {
            use_type_invariant(&self);
        }
        let ghost before = self@;
        let IconPipeline { stage: _, scale, chains, canvas: _, error: _ } = self;
        let mut chains: Vec<Chain> = chains;
        chains.set(at, chain);
        let done: bool = settled(&chains);
        let ghost after = Seq::new(chains@.len(), |i: int| chains@[i]@);
        assert(after =~= before.chains.update(at as int, chain@));
        proof {
            assert forall|i: int| 0 <= i < LAYER_COUNT implies ((#[trigger] after[i])
                matches ChainModel::Ready { raster } ==> raster.len() == RASTER_BYTES) by {
                if i != at {
                    assert(after[i] == before.chains[i]);
                }
            }
            if done {
                assert(after[2].settled() && after[5].settled());
                assert(after[2] == if at == 2 { chain@ } else { before.chains[2] });
                assert(after[5] == if at == 5 { chain@ } else { before.chains[5] });
            } else {
                assert(after[2] == if at == 2 { chain@ } else { before.chains[2] });
                assert(after[5] == if at == 5 { chain@ } else { before.chains[5] });
            }
        }
        let next = IconPipeline {
            stage: if done {
                Stage::Compositing
            } else {
                Stage::FetchingLayers
            },
            scale,
            chains,
            canvas: None,
            error: None,
        };
        assert(next@.chains =~= after);
        next
    }

    /// Takes the answer of the catalog for the layer in the place of `role`.
    ///
    /// While layers are fetched and the layer waits for its record: a record
    /// that was found asks for its bytes, [`crate::db::HEADER_SKIP`] bytes
    /// past its offset; a record that was not found ends the request with
    /// [`IconError::RecordNotFound`]; a catalog that could not be read, and a
    /// record whose bytes would start past `u64::MAX`, end it with
    /// [`IconError::FetchFailure`]. Otherwise the answer is ignored.
    pub fn on_record(self, role: LayerRole, outcome: Lookup) -> (next: (IconPipeline, Action))
        ensures
            next.0@ == self@.delivered(Arrival::Record { role, outcome }),
            action_after(self@, Arrival::Record { role, outcome }, next.1),
            next.0@.valid(),
    {
        proof {
            use_type_invariant(&self);
        }
        let ghost arrival = Arrival::Record { role, outcome };
        if !(self.stage == Stage::FetchingLayers) {
            return (self, Action::Wait);
        }
        let at: usize = role.index();
        let waiting: Option<i32> = match &self.chains[at] {
            Chain::AwaitingRecord { id } => Some(*id),
            _ => None,
        };
        let id: i32 = match waiting {
            Some(id) => id,
            None => {
                proof {
                    let m = self@;
                    assert(m.chains[at as int].step(arrival) == Ok::<ChainModel, IconError>(
                        m.chains[at as int],
                    ));
                    assert(m.chains.update(at as int, m.chains[at as int]) =~= m.chains);
                }
                return (self, Action::Wait);
            },
        };
        assert(self@.chains[at as int] == (ChainModel::AwaitingRecord { id }));
        match outcome {
            Lookup::Found(record) => match record.byte_range() {
                Some(range) => {
                    let next = self.advance(at, Chain::AwaitingBytes { id });
                    proof {
                        use_type_invariant(&next);
                        assert(!next@.chains[at as int].settled());
                    }
                    (next, Action::Fetch { role, offset: range.offset, length: range.length })
                },
                None => {
                    let next = self.fail(IconError::FetchFailure);
                    proof {
                        use_type_invariant(&next.0);
                    }
                    next
                },
            },
            Lookup::NotFound => {
                let next = self.fail(IconError::RecordNotFound);
                proof {
                    use_type_invariant(&next.0);
                }
                next
            },
            Lookup::StoreError => {
                let next = self.fail(IconError::FetchFailure);
                proof {
                    use_type_invariant(&next.0);
                }
                next
            },
        }
    }

    /// Takes the answer of the archive for the layer in the place of `role`:
    /// the bytes that were fetched, or `None` where the read failed or gave
    /// no data.
    ///
    /// While layers are fetched and the layer waits for its bytes: no bytes
    /// end the request with [`IconError::FetchFailure`]; bytes that are not
    /// one raster end it with [`IconError::DecodeFailure`]; a raster makes
    /// the layer ready, and compositing is next if it was the last to wait
    /// for. Otherwise the answer is ignored.
    pub fn on_bytes(self, role: LayerRole, data: Option<Vec<u8>>) -> (next: (IconPipeline, Action))
        ensures
            next.0@ == self@.delivered(Arrival::Bytes { role, data: bytes_of(data) }),
            action_after(self@, Arrival::Bytes { role, data: bytes_of(data) }, next.1),
            next.0@.valid(),
    {
        proof {
            use_type_invariant(&self);
        }
        let ghost arrival = Arrival::Bytes { role, data: bytes_of(data) };
        if !(self.stage == Stage::FetchingLayers) {
            return (self, Action::Wait);
        }
        let at: usize = role.index();
        let waiting: bool = match &self.chains[at] {
            Chain::AwaitingBytes { .. } => true,
            _ => false,
        };
        if !waiting {
            proof {
                let m = self@;
                assert(m.chains[at as int].step(arrival) == Ok::<ChainModel, IconError>(
                    m.chains[at as int],
                ));
                assert(m.chains.update(at as int, m.chains[at as int]) =~= m.chains);
            }
            return (self, Action::Wait);
        }
        assert(self@.chains[at as int] is AwaitingBytes);
        match data {
            Some(bytes) => match decode(bytes) {
                Ok(raster) => {
                    let next = self.advance(at, Chain::Ready { raster });
                    proof {
                        use_type_invariant(&next);
                    }
                    if next.stage == Stage::Compositing {
                        (next, Action::Composite)
                    } else {
                        (next, Action::Wait)
                    }
                },
                Err(_) => {
                    let next = self.fail(IconError::DecodeFailure);
                    proof {
                        use_type_invariant(&next.0);
                    }
                    next
                },
            },
            None => {
                let next = self.fail(IconError::FetchFailure);
                proof {
                    use_type_invariant(&next.0);
                }
                next
            },
        }
    }

    /// Stacks the layers. At the compositing stage the canvas is made and
    /// encoding is next; at any other stage nothing changes.
    pub fn composite(self) -> (next: (IconPipeline, Action))
        ensures
            next.0@ == self@.composited(),
            self@.stage == Stage::Compositing ==> next.1 is Encode,
            self@.stage != Stage::Compositing ==> next.1 is Wait,
            next.0@.valid(),
    {
        proof {
            use_type_invariant(&self);
        }
        if !(self.stage == Stage::Compositing) {
            return (self, Action::Wait);
        }
        let ghost before = self@;
        let ghost layers = layers_of(before.chains);
        let base: Raster = match &self.chains[2] {
            Chain::Ready { raster } => raster.duplicate(),
            _ => {
                proof {
                    assert(before.chains[2] is Ready);
                    assert(false);
                }
                vstd::pervasive::unreached()
            },
        };
        let mut set: LayerSet = LayerSet::new(base);
        let mut z: usize = 0;
        while z < LAYER_COUNT
            invariant
                z <= LAYER_COUNT,
                self.chains@.len() == LAYER_COUNT,
                before == self@,
                layers == layers_of(before.chains),
                before.chains[2] is Ready,
                set@.len() == LAYER_COUNT,
                forall|i: int|
                    0 <= i < LAYER_COUNT ==> #[trigger] set@[i] == if i < z || i == 2 {
                        layers[i]
                    } else {
                        None
                    },
            decreases LAYER_COUNT - z,
        {
            match &self.chains[z] {
                Chain::Ready { raster } => {
                    assert(before.chains[z as int] == (ChainModel::Ready { raster: raster@ }));
                    if let Some(role) = LayerRole::at(z) {
                        set = set.with(role, raster.duplicate());
                    }
                },
                _ => {
                    assert(layers[z as int] is None);
                },
            }
            z = z + 1;
        }
        assert(set@ =~= layers);
        let canvas: Canvas = composite(&set);
        let IconPipeline { stage: _, scale, chains, canvas: _, error: _ } = self;
        let next = IconPipeline {
            stage: Stage::Encoding,
            scale,
            chains,
            canvas: Some(canvas),
            error: None,
        };
        assert(next@.chains =~= before.chains);
        (next, Action::Encode)
    }

    /// Scales and encodes the canvas. At the encoding stage the request ends
    /// with the image: the scale of a request is from 1 to 8, and at those
    /// scales every canvas is encoded. At any other stage nothing changes.
    pub fn encode(self) -> (next: (IconPipeline, Action))
        ensures
            self@.stage != Stage::Encoding ==> next.0@ == self@ && next.1 is Wait,
            self@.stage == Stage::Encoding ==> encoded_into(self@, next.0@, next.1),
            next.0@.valid(),
    {
        proof {
            use_type_invariant(&self);
        }
        if !(self.stage == Stage::Encoding) {
            return (self, Action::Wait);
        }
        let ghost before = self@;
        let result: Result<Vec<u8>, IconError> = match &self.canvas {
            Some(canvas) => finish(canvas, self.scale),
            None => {
                proof {
                    assert(before.canvas is Some);
                    assert(false);
                }
                vstd::pervasive::unreached()
            },
        };
        match result {
            Ok(png) => {
                let IconPipeline { stage: _, scale, chains, canvas, error: _ } = self;
                let next = IconPipeline { stage: Stage::Done, scale, chains, canvas, error: None };
                assert(next@.chains =~= before.chains);
                assert(finished(before.canvas->0, before.scale, Ok::<Vec<u8>, IconError>(png)));
                (next, Action::Respond { png })
            },
            Err(error) => self.fail(error),
        }
    }
}

/// The bytes that the archive gave, if it gave any.
pub open spec fn bytes_of(data: Option<Vec<u8>>) -> Option<Seq<u8>> {
    match data {
        Some(bytes) => Some(bytes@),
        None => None,
    }
}

/// True when `after` and `action` are a possible end of the encoding stage
/// of `before`: the request is done, and the image is what finishing the
/// canvas at the scale of the request gives.
pub open spec fn encoded_into(before: PipelineModel, after: PipelineModel, action: Action) -> bool {
    &&& action matches Action::Respond { png }
    &&& after == PipelineModel { stage: Stage::Done, ..before }
    &&& before.canvas matches Some(canvas)
    &&& finished(canvas, before.scale, Ok(png))
}

/// True when `actions` are the lookups for `ids`: one for every id that is
/// there, in the order of the stack, and nothing else.
pub open spec fn is_fan_out(actions: Seq<Action>, ids: Seq<Option<i32>>) -> bool
    decreases ids.len(),
{
    if ids.len() == 0 {
        actions.len() == 0
    } else {
        match ids.last() {
            Some(id) => {
                &&& actions.len() > 0
                &&& actions.last() == (Action::Lookup {
                    role: LayerRole::spec_at(ids.len() - 1),
                    id,
                })
                &&& is_fan_out(actions.drop_last(), ids.drop_last())
            },
            None => is_fan_out(actions, ids.drop_last()),
        }
    }
}

} // verus!
