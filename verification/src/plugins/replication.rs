//! The replication engine. On the server: which component snapshots wait
//! to be sent for which entity and to whom, and what is sent at a flush. On
//! the client: what an envelope from the server means for the local
//! entities.

use vstd::prelude::*;
use std::collections::HashMap;
use vstd::std_specs::iter::IteratorSpec;
use crate::connections::tcp::connection::copy_range;
use crate::identifiers::{identifier_of, network_identifier};

verus! {

/// What marks an entity as replicated: the name of the connection it is
/// replicated over, and the sixteen bytes of its network identifier.
pub struct Replicated {
    pub connection_name: String,
    pub entity_ref: [u8; 16],
}

/// The replication envelope: the encoded [`Replicated`] of one entity, and
/// encoded component snapshots by component id.
pub struct ReplicateMessageFromServer {
    pub replicated_byes: Vec<u8>,
    pub components: HashMap<i32, Vec<u8>>,
}

/// What waits to be sent for one entity: to all peers of its connection,
/// or to the peers listed; and the snapshots, by component id.
pub struct ReplicateTo {
    pub all_clients: bool,
    pub to_clients: Vec<u128>,
    pub bytes: HashMap<i32, Vec<u8>>,
}

/// What the registry keeps of a component type.
#[derive(PartialEq, Eq, Structural, Debug, Clone, Copy)]
pub struct ReplicationInfo {
    pub type_id: u64,
}

/// The registry of replicable component types: the last id given out, the
/// id of each type, and the type of each id. Ids are given out densely,
/// from 1 up, in the order of registration.
pub struct ReplicationComponentsRegistry(
    pub i32,
    pub HashMap<u64, i32>,
    pub HashMap<i32, ReplicationInfo>,
);

/// What waits to be sent, by entity.
pub struct ServerReplicationQueue(pub HashMap<u64, ReplicateTo>);

/// The local entity of each network identifier that a client has seen.
pub struct ReplicatedEntities(pub HashMap<u128, u64>);

/// The peers that have attached and have not been sent the current state
/// yet.
pub struct NewClientsToReplicate(pub Vec<u128>);

/// The encoded value of one component of one entity.
pub struct ComponentSnapshot {
    pub entity: u64,
    pub bytes: Vec<u8>,
}

/// An entity with what marks it as replicated.
pub struct ReplicatedEntity {
    pub entity: u64,
    pub replicated: Replicated,
}

/// Why a component type is recorded in a tick.
#[derive(PartialEq, Eq, Structural, Debug, Clone, Copy)]
pub enum ReplicationPhase {
    /// Entities were newly marked as replicated: their snapshots go to all.
    First,
    /// Peers have attached: the snapshots of every replicated entity go to
    /// them.
    LateJoin,
    /// Neither: the snapshots of the components that changed go to all.
    Changed,
}

/// To whom an envelope goes.
pub enum Recipients {
    /// To every peer of the connection.
    All,
    /// To the peers listed.
    Listed(Vec<u128>),
}

/// An envelope, with the connection to send it over and the peers to send
/// it to.
pub struct Envelope {
    pub connection_name: String,
    pub recipients: Recipients,
    pub message: ReplicateMessageFromServer,
}

/// One encoded component snapshot of an envelope.
pub struct ComponentPatch {
    pub component: i32,
    pub bytes: Vec<u8>,
}

/// What a client does about an envelope.
pub enum ReplicationPlan {
    /// Nothing: the encoded [`Replicated`] could not be decoded. The
    /// envelope is dropped.
    Malformed,
    /// Nothing: the envelope holds a component id that the registry does
    /// not know. Server and client disagree on the registry, which nothing
    /// can mend at run time.
    UnknownComponent(i32),
    /// Create a local entity for the network identifier, mark it with
    /// `replicated`, and insert each snapshot, decoded, as a new component.
    Spawn { network_id: u128, replicated: Replicated, inserts: Vec<ComponentPatch> },
    /// Overwrite each component listed of the local entity with its
    /// snapshot, decoded; leave the entity's other components alone.
    Apply { entity: u64, applies: Vec<ComponentPatch> },
}

/// A [`ReplicateTo`] as sequences and maps.
pub struct Target {
    pub all_clients: bool,
    pub to_clients: Seq<u128>,
    pub bytes: Map<i32, Seq<u8>>,
}

/// An [`Envelope`] as sequences and maps; no recipients means all.
pub struct EnvelopeView {
    pub connection_name: Seq<char>,
    pub recipients: Option<Seq<u128>>,
    pub replicated_byes: Seq<u8>,
    pub components: Map<i32, Seq<u8>>,
}

/// A [`ReplicationPlan`] as sequences and maps, without the order of the
/// snapshots and without the id that was found unknown.
pub enum PlanView {
    Malformed,
    UnknownComponent,
    Spawn {
        network_id: u128,
        connection_name: Seq<char>,
        entity_ref: Seq<u8>,
        inserts: Map<i32, Seq<u8>>,
    },
    Apply { entity: u64, applies: Map<i32, Seq<u8>> },
}

/// What a client holds of replicated state: the local entity of each
/// network identifier, and the encoded components of each local entity.
pub struct ClientView {
    pub entities: Map<u128, u64>,
    pub world: Map<u64, Map<i32, Seq<u8>>>,
}

/// The bytes that stand for a [`Replicated`] in an envelope, or `None`
/// where it cannot be encoded. This is what `bincode::encode_to_vec`
/// returns for the pair of the connection name and the entity reference
/// under `bincode::config::standard()`.
pub uninterp spec fn header_encoding(connection_name: Seq<char>, entity_ref: Seq<u8>) -> Option<
    Seq<u8>,
>;

/// The connection name and the entity reference that `bytes` stand for, or
/// `None` where they stand for none. This is what
/// `bincode::borrow_decode_from_slice` returns for `bytes` under
/// `bincode::config::standard()`, without the count of bytes read.
pub uninterp spec fn header_decoding(bytes: Seq<u8>) -> Option<(Seq<char>, Seq<u8>)>;

/// Encodes what marks an entity as replicated.
///
/// Calls `bincode::encode_to_vec` on the pair of the connection name and
/// the entity reference with `bincode::config::standard()`, which writes
/// the parts of a pair one after the other as it writes the fields of a
/// struct. An error becomes `None`. The contract names the result; it
/// claims only that the call gives the same result for the same arguments.
#[verifier::external_body]
pub(crate) fn encode_header(connection_name: &String, entity_ref: &[u8; 16]) -> (encoded: Option<
    Vec<u8>,
>)
    ensures
        encoded matches Some(bytes) ==> header_encoding(connection_name@, entity_ref@) == Some(
            bytes@,
        ),
        encoded is None ==> header_encoding(connection_name@, entity_ref@) is None,
{
    bincode::encode_to_vec((connection_name.as_str(), *entity_ref), bincode::config::standard()).ok()
}

/// Decodes what marks an entity as replicated.
///
/// Calls `bincode::borrow_decode_from_slice` for a pair of a string slice
/// and sixteen bytes with `bincode::config::standard()`, copies the string
/// out of `bytes`, and drops the count of bytes read. The borrowing call
/// takes the string from `bytes` itself, after it has checked that `bytes`
/// is long enough, so a length that `bytes` merely claim costs nothing. An
/// error becomes `None`. The contract names the result; it claims only that
/// the call gives the same result for the same bytes.
#[verifier::external_body]
pub(crate) fn decode_header(bytes: &[u8]) -> (decoded: Option<(String, [u8; 16])>)
    ensures
        decoded matches Some(pair) ==> header_decoding(bytes@) == Some((pair.0@, pair.1@)),
        decoded is None ==> header_decoding(bytes@) is None,
{
    bincode::borrow_decode_from_slice::<(&str, [u8; 16]), _>(bytes, bincode::config::standard())
        .ok()
        .map(|read| (read.0.0.to_owned(), read.0.1))
}

/// The snapshots of a map, as sequences.
pub open spec fn component_bytes(components: Map<i32, Vec<u8>>) -> Map<i32, Seq<u8>> {
    Map::new(|id: i32| components.contains_key(id), |id: i32| components[id]@)
}

/// The snapshots of a list, by component id.
pub open spec fn patch_bytes(patches: Seq<ComponentPatch>) -> Map<i32, Seq<u8>> {
    Map::new(
        |id: i32| exists|i: int| 0 <= i < patches.len() && patches[i].component == id,
        |id: i32|
            patches[choose|i: int| 0 <= i < patches.len() && patches[i].component == id].bytes@,
    )
}

/// Whether no component id stands twice in the list.
pub open spec fn patches_distinct(patches: Seq<ComponentPatch>) -> bool {
    forall|i: int, j: int|
        0 <= i < j < patches.len() ==> patches[i].component != patches[j].component
}

/// The queue, as maps of targets.
pub open spec fn queue_view(queue: Map<u64, ReplicateTo>) -> Map<u64, Target> {
    Map::new(|entity: u64| queue.contains_key(entity), |entity: u64| queue[entity]@)
}

/// The snapshots of a list, as pairs of entity and bytes.
pub open spec fn snapshot_views(snapshots: Seq<ComponentSnapshot>) -> Seq<(u64, Seq<u8>)> {
    Seq::new(snapshots.len(), |i: int| (snapshots[i].entity, snapshots[i].bytes@))
}

/// The entities of a list of snapshots, in order.
pub open spec fn snapshot_entities(snapshots: Seq<ComponentSnapshot>) -> Seq<u64> {
    Seq::new(snapshots.len(), |i: int| snapshots[i].entity)
}

/// The replicated entities of a list, as triples of entity, connection
/// name and entity reference.
pub open spec fn replicated_views(replicated: Seq<ReplicatedEntity>) -> Seq<
    (u64, Seq<char>, Seq<u8>),
> {
    Seq::new(
        replicated.len(),
        |i: int|
            (
                replicated[i].entity,
                replicated[i].replicated.connection_name@,
                replicated[i].replicated.entity_ref@,
            ),
    )
}

/// The envelopes of a list, as views.
pub open spec fn envelope_views(envelopes: Seq<Envelope>) -> Seq<EnvelopeView> {
    Seq::new(envelopes.len(), |i: int| envelopes[i]@)
}

impl View for ReplicateTo {
    type V = Target;

    open spec fn view(&self) -> Target {
        Target {
            all_clients: self.all_clients,
            to_clients: self.to_clients@,
            bytes: component_bytes(self.bytes@),
        }
    }
}

impl View for Envelope {
    type V = EnvelopeView;

    open spec fn view(&self) -> EnvelopeView {
        EnvelopeView {
            connection_name: self.connection_name@,
            recipients: match self.recipients {
                Recipients::All => None,
                Recipients::Listed(peers) => Some(peers@),
            },
            replicated_byes: self.message.replicated_byes@,
            components: component_bytes(self.message.components@),
        }
    }
}

impl View for ReplicationPlan {
    type V = PlanView;

    open spec fn view(&self) -> PlanView {
        match self {
            ReplicationPlan::Malformed => PlanView::Malformed,
            ReplicationPlan::UnknownComponent(_) => PlanView::UnknownComponent,
            ReplicationPlan::Spawn { network_id, replicated, inserts } => PlanView::Spawn {
                network_id: *network_id,
                connection_name: replicated.connection_name@,
                entity_ref: replicated.entity_ref@,
                inserts: patch_bytes(inserts@),
            },
            ReplicationPlan::Apply { entity, applies } => PlanView::Apply {
                entity: *entity,
                applies: patch_bytes(applies@),
            },
        }
    }
}

impl View for ServerReplicationQueue {
    type V = Map<u64, Target>;

    open spec fn view(&self) -> Map<u64, Target> {
        queue_view(self.0@)
    }
}

impl View for ReplicatedEntities {
    type V = Map<u128, u64>;

    open spec fn view(&self) -> Map<u128, u64> {
        self.0@
    }
}

/// The queue after a snapshot of `component` was recorded for `entity`, to
/// go to all peers: an entity with nothing waiting gets a target for all
/// peers; one with a target keeps whom it is for, and the snapshot takes
/// the place of an earlier one of the same component.
pub open spec fn recorded(
    queue: Map<u64, Target>,
    entity: u64,
    component: i32,
    bytes: Seq<u8>,
) -> Map<u64, Target> {
    if queue.contains_key(entity) {
        queue.insert(
            entity,
            Target { bytes: queue[entity].bytes.insert(component, bytes), ..queue[entity] },
        )
    } else {
        queue.insert(
            entity,
            Target {
                all_clients: true,
                to_clients: Seq::empty(),
                bytes: Map::<i32, Seq<u8>>::empty().insert(component, bytes),
            },
        )
    }
}

/// The peers listed, with those of `clients` added that are not listed
/// yet: each in its turn, at the end.
pub open spec fn merged(listed: Seq<u128>, clients: Seq<u128>) -> Seq<u128>
    decreases clients.len(),
{
    if clients.len() == 0 {
        listed
    } else {
        merged(
            if listed.contains(clients[0]) {
                listed
            } else {
                listed.push(clients[0])
            },
            clients.drop_first(),
        )
    }
}

/// The queue after a snapshot of `component` was recorded for `entity`, to
/// go to the peers that have just attached: an entity with nothing waiting
/// gets a target for those peers only; one with a target gets those added
/// that it does not list yet.
pub open spec fn recorded_for(
    queue: Map<u64, Target>,
    entity: u64,
    component: i32,
    bytes: Seq<u8>,
    clients: Seq<u128>,
) -> Map<u64, Target> {
    if queue.contains_key(entity) {
        queue.insert(
            entity,
            Target {
                all_clients: queue[entity].all_clients,
                to_clients: merged(queue[entity].to_clients, clients),
                bytes: queue[entity].bytes.insert(component, bytes),
            },
        )
    } else {
        queue.insert(
            entity,
            Target {
                all_clients: false,
                to_clients: merged(Seq::empty(), clients),
                bytes: Map::<i32, Seq<u8>>::empty().insert(component, bytes),
            },
        )
    }
}

/// The queue after the snapshots of `component` listed were recorded, one
/// after the other, as the phase says.
pub open spec fn recorded_all(
    queue: Map<u64, Target>,
    component: i32,
    phase: ReplicationPhase,
    snapshots: Seq<(u64, Seq<u8>)>,
    clients: Seq<u128>,
) -> Map<u64, Target>
    decreases snapshots.len(),
{
    if snapshots.len() == 0 {
        queue
    } else {
        let next = match phase {
            ReplicationPhase::LateJoin => recorded_for(
                queue,
                snapshots[0].0,
                component,
                snapshots[0].1,
                clients,
            ),
            _ => recorded(queue, snapshots[0].0, component, snapshots[0].1),
        };
        recorded_all(next, component, phase, snapshots.drop_first(), clients)
    }
}

/// Why a component type is recorded in a tick in which `added` entities
/// were newly marked as replicated and `new_clients` peers wait for the
/// current state.
pub open spec fn phase_of(added: nat, new_clients: nat) -> ReplicationPhase {
    if added > 0 {
        ReplicationPhase::First
    } else if new_clients > 0 {
        ReplicationPhase::LateJoin
    } else {
        ReplicationPhase::Changed
    }
}

/// The envelope for a target.
pub open spec fn envelope_for(
    replicated_byes: Seq<u8>,
    connection_name: Seq<char>,
    target: Target,
) -> EnvelopeView {
    EnvelopeView {
        connection_name,
        recipients: if target.all_clients {
            None
        } else {
            Some(target.to_clients)
        },
        replicated_byes,
        components: target.bytes,
    }
}

/// The peers of `waiting`, in order, that are not among `served`.
pub open spec fn still_waiting(waiting: Seq<u128>, served: Seq<u128>) -> Seq<u128> {
    waiting.filter(|peer: u128| !served.contains(peer))
}

/// What a flush sends, and who still waits for the current state after it.
///
/// The replicated entities are gone through in order. One with a target in
/// the queue gives one envelope, with all the snapshots of its target; the
/// peers that the target lists no longer wait. One without a target gives
/// nothing, and so does one whose [`Replicated`] cannot be encoded.
pub open spec fn flushed(
    queue: Map<u64, Target>,
    replicated: Seq<(u64, Seq<char>, Seq<u8>)>,
    waiting: Seq<u128>,
) -> (Seq<EnvelopeView>, Seq<u128>)
    decreases replicated.len(),
{
    if replicated.len() == 0 {
        (Seq::empty(), waiting)
    } else {
        let (entity, connection_name, entity_ref) = replicated[0];
        let header = header_encoding(connection_name, entity_ref);
        if queue.contains_key(entity) && header is Some {
            let rest = flushed(
                queue.remove(entity),
                replicated.drop_first(),
                still_waiting(waiting, queue[entity].to_clients),
            );
            (seq![envelope_for(header->0, connection_name, queue[entity])] + rest.0, rest.1)
        } else {
            flushed(queue.remove(entity), replicated.drop_first(), waiting)
        }
    }
}

/// What a client does about an envelope whose header decoded to `header`
/// and that holds `components`, given the entities it has seen and the
/// component ids that its registry knows.
pub open spec fn planned(
    entities: Map<u128, u64>,
    known: Set<i32>,
    header: Option<(Seq<char>, Seq<u8>)>,
    components: Map<i32, Seq<u8>>,
) -> PlanView {
    match header {
        None => PlanView::Malformed,
        Some((connection_name, entity_ref)) => {
            let network_id = identifier_of(entity_ref) as u128;
            if !components.dom().subset_of(known) {
                PlanView::UnknownComponent
            } else if entities.contains_key(network_id) {
                PlanView::Apply { entity: entities[network_id], applies: components }
            } else {
                PlanView::Spawn { network_id, connection_name, entity_ref, inserts: components }
            }
        },
    }
}

/// The components of an entity after a patch: those of the patch
/// overwritten or added, the others as they were.
pub open spec fn overwritten(components: Map<i32, Seq<u8>>, patch: Map<i32, Seq<u8>>) -> Map<
    i32,
    Seq<u8>,
> {
    components.union_prefer_right(patch)
}

/// The client after it has carried out a plan, with `fresh` as the local
/// entity it creates if the plan asks for one.
pub open spec fn carried_out(plan: PlanView, client: ClientView, fresh: u64) -> ClientView {
    match plan {
        PlanView::Malformed => client,
        PlanView::UnknownComponent => client,
        PlanView::Spawn { network_id, inserts, .. } => ClientView {
            entities: client.entities.insert(network_id, fresh),
            world: client.world.insert(fresh, inserts),
        },
        PlanView::Apply { entity, applies } => ClientView {
            entities: client.entities,
            world: client.world.insert(
                entity,
                overwritten(
                    if client.world.contains_key(entity) {
                        client.world[entity]
                    } else {
                        Map::empty()
                    },
                    applies,
                ),
            ),
        },
    }
}

/// The explicit recipients are a set: adding peers to a list in which no
/// peer stands twice gives a list in which no peer stands twice, and which
/// holds the peers of both.
pub proof fn lemma_merged_is_a_set(listed: Seq<u128>, clients: Seq<u128>)
    requires
        listed.no_duplicates(),
    ensures
        merged(listed, clients).no_duplicates(),
        forall|peer: u128|
            merged(listed, clients).contains(peer) <==> listed.contains(peer) || clients.contains(
                peer,
            ),
    decreases clients.len(),
{
    if clients.len() > 0 {
        let next = if listed.contains(clients[0]) {
            listed
        } else {
            listed.push(clients[0])
        };
        let rest = clients.drop_first();
        assert(next.no_duplicates());
        lemma_merged_is_a_set(next, rest);
        assert forall|peer: u128|
            merged(listed, clients).contains(peer) <==> listed.contains(peer) || clients.contains(
                peer,
            ) by {
            if clients.contains(peer) {
                let at = choose|i: int| 0 <= i < clients.len() && clients[i] == peer;
                if at > 0 {
                    assert(rest[at - 1] == peer);
                }
            }
            if rest.contains(peer) {
                let at = choose|i: int| 0 <= i < rest.len() && rest[i] == peer;
                assert(clients[at + 1] == peer);
            }
            if next.contains(peer) && !listed.contains(peer) {
                let at = choose|i: int| 0 <= i < next.len() && next[i] == peer;
                assert(at == listed.len());
            }
            if listed.contains(peer) {
                let at = choose|i: int| 0 <= i < listed.len() && listed[i] == peer;
                assert(next[at] == peer);
            }
            if !listed.contains(clients[0]) {
                assert(next[listed.len() as int] == clients[0]);
            }
        }
    }
}

/// Coalescing: the changes of several components of one entity within a
/// tick wait in one target, which holds them all; and of two changes of the
/// same component, the later one is what waits.
pub proof fn lemma_coalescing(
    queue: Map<u64, Target>,
    entity: u64,
    first: i32,
    first_bytes: Seq<u8>,
    second: i32,
    second_bytes: Seq<u8>,
)
    ensures
        ({
            let once = recorded(queue, entity, first, first_bytes);
            let twice = recorded(once, entity, second, second_bytes);
            &&& twice.dom() == queue.dom().insert(entity)
            &&& twice[entity].all_clients == once[entity].all_clients
            &&& twice[entity].to_clients == once[entity].to_clients
            &&& twice[entity].bytes == once[entity].bytes.insert(second, second_bytes)
            &&& twice[entity].bytes[second] == second_bytes
            &&& first != second ==> twice[entity].bytes[first] == first_bytes
            &&& first == second ==> twice == recorded(queue, entity, second, second_bytes)
        }),
{
    let once = recorded(queue, entity, first, first_bytes);
    let twice = recorded(once, entity, second, second_bytes);
    let direct = recorded(queue, entity, second, second_bytes);
    assert(twice.dom() =~= queue.dom().insert(entity));
    if first == second {
        assert(twice[entity].bytes =~= direct[entity].bytes);
        assert(twice =~= direct);
    }
}

/// One envelope for each entity: a flush sends no more envelopes than
/// there are targets waiting in the queue, however many components of an
/// entity have changed and however often an entity is listed.
pub proof fn lemma_one_envelope_for_each_target(
    queue: Map<u64, Target>,
    replicated: Seq<(u64, Seq<char>, Seq<u8>)>,
    waiting: Seq<u128>,
)
    requires
        queue.dom().finite(),
    ensures
        flushed(queue, replicated, waiting).0.len() <= queue.len(),
    decreases replicated.len(),
{
    if replicated.len() > 0 {
        let (entity, connection_name, entity_ref) = replicated[0];
        let header = header_encoding(connection_name, entity_ref);
        if queue.contains_key(entity) && header is Some {
            lemma_one_envelope_for_each_target(
                queue.remove(entity),
                replicated.drop_first(),
                still_waiting(waiting, queue[entity].to_clients),
            );
        } else {
            lemma_one_envelope_for_each_target(
                queue.remove(entity),
                replicated.drop_first(),
                waiting,
            );
        }
    }
}

/// Idempotence: a client that gets the same envelope a second time is left
/// as the first time left it, whichever local entities it would create.
pub proof fn lemma_apply_idempotent(
    client: ClientView,
    known: Set<i32>,
    header: Option<(Seq<char>, Seq<u8>)>,
    components: Map<i32, Seq<u8>>,
    fresh: u64,
    other: u64,
)
    ensures
        ({
            let once = carried_out(planned(client.entities, known, header, components), client, fresh);
            let twice = carried_out(planned(once.entities, known, header, components), once, other);
            twice == once
        }),
{
    let once = carried_out(planned(client.entities, known, header, components), client, fresh);
    let twice = carried_out(planned(once.entities, known, header, components), once, other);
    match planned(client.entities, known, header, components) {
        PlanView::Spawn { network_id, .. } => {
            assert(overwritten(components, components) =~= components);
            assert(twice.world =~= once.world);
        },
        PlanView::Apply { entity, .. } => {
            let before = if client.world.contains_key(entity) {
                client.world[entity]
            } else {
                Map::empty()
            };
            assert(overwritten(overwritten(before, components), components) =~= overwritten(
                before,
                components,
            ));
            assert(twice.world =~= once.world);
        },
        _ => {},
    }
}

/// An incremental patch: what a plan does to a client touches the entity
/// of the envelope only, and of that entity only the components that the
/// envelope holds.
pub proof fn lemma_patch_is_incremental(
    client: ClientView,
    known: Set<i32>,
    header: Option<(Seq<char>, Seq<u8>)>,
    components: Map<i32, Seq<u8>>,
    fresh: u64,
)
    ensures
        ({
            let plan = planned(client.entities, known, header, components);
            let after = carried_out(plan, client, fresh);
            &&& plan matches PlanView::Apply { entity, .. } ==> {
                &&& after.entities == client.entities
                &&& forall|e: u64|
                    e != entity && client.world.contains_key(e) ==> after.world.contains_key(e)
                        && after.world[e] == client.world[e]
                &&& forall|id: i32|
                    components.contains_key(id) ==> after.world[entity].contains_key(id)
                        && after.world[entity][id] == components[id]
                &&& forall|id: i32|
                    !components.contains_key(id) && client.world.contains_key(entity)
                        && client.world[entity].contains_key(id) ==> after.world[entity].contains_key(
                        id,
                    ) && after.world[entity][id] == client.world[entity][id]
            }
            &&& plan matches PlanView::Spawn { network_id, .. } ==> {
                &&& after.entities == client.entities.insert(network_id, fresh)
                &&& after.world[fresh] == components
            }
        }),
{
}

/// A copy of `bytes`.
fn copy_bytes(bytes: &Vec<u8>) -> (copy: Vec<u8>)
    ensures
        copy@ == bytes@,
{
    let copy = copy_range(bytes.as_slice(), 0, bytes.len());
    assert(bytes@.subrange(0, bytes@.len() as int) =~= bytes@);
    copy
}

/// Whether `peer` is among `peers`.
fn is_among(peers: &Vec<u128>, peer: u128) -> (found: bool)
    ensures
        found == peers@.contains(peer),
{
    let mut at: usize = 0;
    while at < peers.len()
        invariant
            at <= peers.len(),
            forall|i: int| 0 <= i < at ==> peers@[i] != peer,
        decreases peers.len() - at,
    {
        if peers[at] == peer {
            return true;
        }
        at = at + 1;
    }
    false
}

/// Adds to the peers listed those of `clients` that are not listed yet.
fn merge_into(listed: &mut Vec<u128>, clients: &Vec<u128>)
    ensures
        final(listed)@ == merged(old(listed)@, clients@),
{
    let mut at: usize = 0;
    assert(clients@.subrange(0, clients@.len() as int) =~= clients@);
    while at < clients.len()
        invariant
            at <= clients.len(),
            merged(listed@, clients@.subrange(at as int, clients@.len() as int)) == merged(
                old(listed)@,
                clients@,
            ),
        decreases clients.len() - at,
    {
        let ghost rest = clients@.subrange(at as int, clients@.len() as int);
        assert(rest[0] == clients@[at as int]);
        assert(rest.drop_first() =~= clients@.subrange(at + 1, clients@.len() as int));
        if !is_among(listed, clients[at]) {
            listed.push(clients[at]);
        }
        at = at + 1;
    }
}

impl ReplicationComponentsRegistry {
    /// The ids given out are the first ones, each type has one id, and each
    /// id has one type.
    pub open spec fn wf(&self) -> bool {
        &&& 0 <= self.0
        &&& self.1@.dom().finite()
        &&& self.2@.dom().finite()
        &&& forall|type_id: u64| #[trigger]
            self.1@.contains_key(type_id) ==> 1 <= self.1@[type_id] <= self.0
                && self.2@.contains_key(self.1@[type_id]) && self.2@[self.1@[type_id]].type_id
                == type_id
        &&& forall|id: i32| #[trigger]
            self.2@.contains_key(id) ==> 1 <= id <= self.0 && self.1@.contains_key(
                self.2@[id].type_id,
            ) && self.1@[self.2@[id].type_id] == id
    }

    /// The ids that the registry knows.
    pub open spec fn known(&self) -> Set<i32> {
        self.2@.dom()
    }

    /// A registry that knows no type.
    pub fn new() -> (registry: ReplicationComponentsRegistry)
        ensures
            registry.wf(),
            registry.0 == 0,
            registry.1@ == Map::<u64, i32>::empty(),
            registry.2@ == Map::<i32, ReplicationInfo>::empty(),
    {
        ReplicationComponentsRegistry(0, HashMap::new(), HashMap::new())
    }

    /// Whether the registry can take one more type.
    pub fn has_room(&self) -> (room: bool)
        ensures
            room == (self.0 < i32::MAX),
    {
        self.0 < i32::MAX
    }

    /// Registers a component type: a new type gets the next id, one higher
    /// than the last; a type that is registered already keeps its id, and
    /// the registry stays as it is.
    pub fn registry(&mut self, type_id: u64)
        requires
            old(self).wf(),
            old(self).1@.contains_key(type_id) || old(self).0 < i32::MAX,
        ensures
            final(self).wf(),
            old(self).1@.contains_key(type_id) ==> final(self).0 == old(self).0 && final(self).1@
                == old(self).1@ && final(self).2@ == old(self).2@,
            !old(self).1@.contains_key(type_id) ==> final(self).0 == old(self).0 + 1
                && final(self).1@ == old(self).1@.insert(type_id, (old(self).0 + 1) as i32)
                && final(self).2@ == old(self).2@.insert(
                (old(self).0 + 1) as i32,
                ReplicationInfo { type_id },
            ),
    {
        broadcast use vstd::std_specs::hash::group_hash_axioms;

        if self.is_registered(&type_id) {
            return;
        }
        let new_id: i32 = self.0 + 1;
        self.0 = new_id;
        self.1.insert(type_id, new_id);
        self.2.insert(new_id, ReplicationInfo { type_id });
    }

    /// Whether the type is registered.
    pub fn is_registered(&self, type_id: &u64) -> (known: bool)
        ensures
            known == self.1@.contains_key(*type_id),
    {
        broadcast use vstd::std_specs::hash::group_hash_axioms;

        self.1.contains_key(type_id)
    }

    /// The id of a type, if it is registered.
    pub fn component_id(&self, type_id: u64) -> (id: Option<i32>)
        ensures
            id == (if self.1@.contains_key(type_id) {
                Some(self.1@[type_id])
            } else {
                None
            }),
    {
        broadcast use vstd::std_specs::hash::group_hash_axioms;

        match self.1.get(&type_id) {
            Some(id) => Some(*id),
            None => None,
        }
    }

    /// The type of an id, if the id was given out.
    pub fn component_type(&self, id: i32) -> (type_id: Option<u64>)
        ensures
            type_id == (if self.2@.contains_key(id) {
                Some(self.2@[id].type_id)
            } else {
                None
            }),
    {
        broadcast use vstd::std_specs::hash::group_hash_axioms;

        match self.2.get(&id) {
            Some(info) => Some(info.type_id),
            None => None,
        }
    }
}

impl NewClientsToReplicate {
    /// Nobody waits.
    pub fn new() -> (waiting: NewClientsToReplicate)
        ensures
            waiting.0@ == Seq::<u128>::empty(),
    {
        NewClientsToReplicate(Vec::new())
    }

    /// A peer has attached: it waits for the current state.
    pub fn push(&mut self, peer: u128)
        ensures
            final(self).0@ == old(self).0@.push(peer),
    {
        self.0.push(peer);
    }

    /// The peers listed have been sent the current state: they wait no
    /// more.
    pub fn forget(&mut self, served: &Vec<u128>)
        ensures
            final(self).0@ == still_waiting(old(self).0@, served@),
    {
        let ghost keep = |peer: u128| !served@.contains(peer);
        let mut kept: Vec<u128> = Vec::new();
        let mut at: usize = 0;
        while at < self.0.len()
            invariant
                at <= self.0.len(),
                *self == *old(self),
                keep == (|peer: u128| !served@.contains(peer)),
                kept@ == self.0@.subrange(0, at as int).filter(keep),
            decreases self.0.len() - at,
        {
            let peer = self.0[at];
            proof {
                let before = self.0@.subrange(0, at as int);
                let longer = self.0@.subrange(0, at + 1);
                assert(longer.drop_last() =~= before);
                assert(longer.last() == peer);
                reveal(Seq::filter);
            }
            if !is_among(served, peer) {
                kept.push(peer);
            }
            at = at + 1;
        }
        assert(self.0@.subrange(0, at as int) =~= self.0@);
        self.0 = kept;
    }
}

impl ReplicatedEntities {
    /// No entity has been seen.
    pub fn new() -> (entities: ReplicatedEntities)
        ensures
            entities@ == Map::<u128, u64>::empty(),
    {
        ReplicatedEntities(HashMap::new())
    }

    /// The local entity of a network identifier, if it has been seen.
    pub fn get(&self, network_id: u128) -> (entity: Option<u64>)
        ensures
            entity == (if self@.contains_key(network_id) {
                Some(self@[network_id])
            } else {
                None
            }),
    {
        broadcast use vstd::std_specs::hash::group_hash_axioms;

        match self.0.get(&network_id) {
            Some(entity) => Some(*entity),
            None => None,
        }
    }

    /// Takes note of the local entity that was created for a network
    /// identifier.
    pub fn record(&mut self, network_id: u128, entity: u64)
        ensures
            final(self)@ == old(self)@.insert(network_id, entity),
    {
        broadcast use vstd::std_specs::hash::group_hash_axioms;

        self.0.insert(network_id, entity);
    }
}

impl ServerReplicationQueue {
    /// Nothing waits.
    pub fn new() -> (queue: ServerReplicationQueue)
        ensures
            queue@ == Map::<u64, Target>::empty(),
    {
        let queue = ServerReplicationQueue(HashMap::new());
        assert(queue@ =~= Map::<u64, Target>::empty());
        queue
    }

    /// Records a snapshot of `component` for `entity`, to go to all peers.
    pub fn record(&mut self, entity: u64, component: i32, bytes: Vec<u8>)
        ensures
            final(self)@ == recorded(old(self)@, entity, component, bytes@),
    {
        broadcast use vstd::std_specs::hash::group_hash_axioms;

        let ghost before = self@;
        match self.0.remove(&entity) {
            Some(mut target) => {
                let ghost was = target@;
                target.bytes.insert(component, bytes);
                assert(target@.bytes =~= was.bytes.insert(component, bytes@));
                self.0.insert(entity, target);
            },
            None => {
                let mut snapshots: HashMap<i32, Vec<u8>> = HashMap::new();
                snapshots.insert(component, bytes);
                let target = ReplicateTo {
                    all_clients: true,
                    to_clients: Vec::new(),
                    bytes: snapshots,
                };
                assert(target@.bytes =~= Map::<i32, Seq<u8>>::empty().insert(component, bytes@));
                self.0.insert(entity, target);
            },
        }
        assert(self@ =~= recorded(before, entity, component, bytes@));
    }

    /// Records a snapshot of `component` for `entity`, to go to the peers
    /// listed, which have just attached.
    pub fn record_for(&mut self, entity: u64, component: i32, bytes: Vec<u8>, clients: &Vec<u128>)
        ensures
            final(self)@ == recorded_for(old(self)@, entity, component, bytes@, clients@),
    {
        broadcast use vstd::std_specs::hash::group_hash_axioms;

        let ghost before = self@;
        match self.0.remove(&entity) {
            Some(mut target) => {
                let ghost was = target@;
                target.bytes.insert(component, bytes);
                assert(target@.bytes =~= was.bytes.insert(component, bytes@));
                merge_into(&mut target.to_clients, clients);
                self.0.insert(entity, target);
            },
            None => {
                let mut snapshots: HashMap<i32, Vec<u8>> = HashMap::new();
                snapshots.insert(component, bytes);
                let mut to_clients: Vec<u128> = Vec::new();
                merge_into(&mut to_clients, clients);
                let target = ReplicateTo { all_clients: false, to_clients, bytes: snapshots };
                assert(target@.bytes =~= Map::<i32, Seq<u8>>::empty().insert(component, bytes@));
                self.0.insert(entity, target);
            },
        }
        assert(self@ =~= recorded_for(before, entity, component, bytes@, clients@));
    }
}

/// Why a component type is recorded in this tick, given how many entities
/// were newly marked as replicated and who waits for the current state.
pub fn replication_phase(added: usize, new_clients: &NewClientsToReplicate) -> (phase:
    ReplicationPhase)
    ensures
        phase == phase_of(added as nat, new_clients.0@.len()),
{
    if added > 0 {
        ReplicationPhase::First
    } else if new_clients.0.len() > 0 {
        ReplicationPhase::LateJoin
    } else {
        ReplicationPhase::Changed
    }
}

/// Records the snapshots of one component type for a tick, as the phase
/// says: those of newly replicated entities and those of changed
/// components to go to all peers, those for late joiners to go to the
/// peers that wait. Returns the entities to mark as having been replicated
/// once: all of the snapshots, except for late joiners, where none is.
pub fn component_changed_server(
    queue: &mut ServerReplicationQueue,
    component: i32,
    phase: ReplicationPhase,
    snapshots: &Vec<ComponentSnapshot>,
    new_clients: &NewClientsToReplicate,
) -> (marked: Vec<u64>)
    ensures
        final(queue)@ == recorded_all(
            old(queue)@,
            component,
            phase,
            snapshot_views(snapshots@),
            new_clients.0@,
        ),
        marked@ == (if phase == ReplicationPhase::LateJoin {
            Seq::<u64>::empty()
        } else {
            snapshot_entities(snapshots@)
        }),
{
    let ghost all = snapshot_views(snapshots@);
    let mut marked: Vec<u64> = Vec::new();
    let mut at: usize = 0;
    assert(all.subrange(0, all.len() as int) =~= all);
    while at < snapshots.len()
        invariant
            at <= snapshots.len(),
            all == snapshot_views(snapshots@),
            recorded_all(
                queue@,
                component,
                phase,
                all.subrange(at as int, all.len() as int),
                new_clients.0@,
            ) == recorded_all(old(queue)@, component, phase, all, new_clients.0@),
            marked@ == (if phase == ReplicationPhase::LateJoin {
                Seq::<u64>::empty()
            } else {
                snapshot_entities(snapshots@).subrange(0, at as int)
            }),
        decreases snapshots.len() - at,
    {
        let ghost rest = all.subrange(at as int, all.len() as int);
        let snapshot = &snapshots[at];
        let bytes = copy_bytes(&snapshot.bytes);
        proof {
            assert(rest[0] == (snapshot.entity, snapshot.bytes@));
            assert(rest.drop_first() =~= all.subrange(at + 1, all.len() as int));
        }
        match phase {
            ReplicationPhase::LateJoin => {
                queue.record_for(snapshot.entity, component, bytes, &new_clients.0);
            },
            _ => {
                queue.record(snapshot.entity, component, bytes);
                marked.push(snapshot.entity);
            },
        }
        at = at + 1;
        assert(phase != ReplicationPhase::LateJoin ==> marked@ =~= snapshot_entities(
            snapshots@,
        ).subrange(0, at as int));
    }
    assert(snapshot_entities(snapshots@).subrange(0, at as int) =~= snapshot_entities(snapshots@));
    marked
}

/// The envelope for a target, given the encoded [`Replicated`] of its
/// entity and the connection it is replicated over.
pub fn envelope_of(replicated_byes: Vec<u8>, connection_name: String, target: ReplicateTo) -> (envelope:
    Envelope)
    ensures
        envelope@ == envelope_for(replicated_byes@, connection_name@, target@),
{
    let recipients = if target.all_clients {
        Recipients::All
    } else {
        Recipients::Listed(target.to_clients)
    };
    Envelope {
        connection_name,
        recipients,
        message: ReplicateMessageFromServer { replicated_byes, components: target.bytes },
    }
}

/// Flushes the queue: for each replicated entity listed that has a target
/// waiting, one envelope with all the snapshots of the target; the peers
/// that a target lists no longer wait for the current state. After a flush
/// nothing waits in the queue.
pub fn replicate_to_client(
    replicated: &Vec<ReplicatedEntity>,
    queue: &mut ServerReplicationQueue,
    new_clients: &mut NewClientsToReplicate,
) -> (envelopes: Vec<Envelope>)
    ensures
        envelope_views(envelopes@) == flushed(
            old(queue)@,
            replicated_views(replicated@),
            old(new_clients).0@,
        ).0,
        final(new_clients).0@ == flushed(
            old(queue)@,
            replicated_views(replicated@),
            old(new_clients).0@,
        ).1,
        final(queue)@ == Map::<u64, Target>::empty(),
{
    broadcast use vstd::std_specs::hash::group_hash_axioms;

    let ghost all = replicated_views(replicated@);
    let ghost goal = flushed(old(queue)@, all, old(new_clients).0@);
    let mut envelopes: Vec<Envelope> = Vec::new();
    let mut at: usize = 0;
    assert(all.subrange(0, all.len() as int) =~= all);
    assert(envelope_views(envelopes@) + goal.0 =~= goal.0);
    while at < replicated.len()
        invariant
            at <= replicated.len(),
            all == replicated_views(replicated@),
            goal == flushed(old(queue)@, all, old(new_clients).0@),
            envelope_views(envelopes@) + flushed(
                queue@,
                all.subrange(at as int, all.len() as int),
                new_clients.0@,
            ).0 == goal.0,
            flushed(queue@, all.subrange(at as int, all.len() as int), new_clients.0@).1 == goal.1,
        decreases replicated.len() - at,
    {
        let ghost rest = all.subrange(at as int, all.len() as int);
        let ghost before = queue@;
        let ghost sent = envelope_views(envelopes@);
        let item = &replicated[at];
        proof {
            assert(rest[0] == (
                item.entity,
                item.replicated.connection_name@,
                item.replicated.entity_ref@,
            ));
            assert(rest.drop_first() =~= all.subrange(at + 1, all.len() as int));
        }
        match queue.0.remove(&item.entity) {
            Some(target) => {
                assert(queue@ =~= before.remove(item.entity));
                assert(target@ == before[item.entity]);
                match encode_header(&item.replicated.connection_name, &item.replicated.entity_ref) {
                    Some(header) => {
                        new_clients.forget(&target.to_clients);
                        let envelope = envelope_of(
                            header,
                            item.replicated.connection_name.clone(),
                            target,
                        );
                        envelopes.push(envelope);
                        proof {
                            let tail = flushed(queue@, rest.drop_first(), new_clients.0@);
                            assert(envelope_views(envelopes@) =~= sent + seq![envelope@]);
                            assert((sent + seq![envelope@]) + tail.0 =~= sent + (seq![envelope@]
                                + tail.0));
                        }
                    },
                    None => {},
                }
            },
            None => {
                assert(queue@ =~= before.remove(item.entity));
            },
        }
        at = at + 1;
    }
    proof {
        assert(all.subrange(at as int, all.len() as int) =~= Seq::<
            (u64, Seq<char>, Seq<u8>),
        >::empty());
        assert(envelope_views(envelopes@) + Seq::<EnvelopeView>::empty() =~= envelope_views(
            envelopes@,
        ));
    }
    queue.0.clear();
    assert(queue@ =~= Map::<u64, Target>::empty());
    envelopes
}

/// The snapshots of an envelope as a list, each component once, with the
/// first component id that the registry does not know, if there is one.
fn patches_of(components: &HashMap<i32, Vec<u8>>, registry: &ReplicationComponentsRegistry) -> (listed:
    (Vec<ComponentPatch>, Option<i32>))
    ensures
        patches_distinct(listed.0@),
        patch_bytes(listed.0@) == component_bytes(components@),
        listed.1 is Some == !component_bytes(components@).dom().subset_of(registry.known()),
        listed.1 matches Some(id) ==> components@.contains_key(id) && !registry.known().contains(
            id,
        ),
{
    broadcast use vstd::std_specs::hash::group_hash_axioms;

    let mut patches: Vec<ComponentPatch> = Vec::new();
    let mut unknown: Option<i32> = None;
    let keys = components.keys();
    let ghost ids = keys.remaining().unref();
    assert(ids.to_set() == components@.dom());
    assert(ids.no_duplicates()) by {
        assert forall|i: int, j: int| 0 <= i < ids.len() && 0 <= j < ids.len() && i != j implies ids[i]
            != ids[j] by {
            assert(keys.remaining()[i] != keys.remaining()[j]);
        }
    }
    for id in it: keys
        invariant
            ids == it.seq().unref(),
            ids.to_set() == components@.dom(),
            ids.no_duplicates(),
            patches@.len() == it.index(),
            forall|i: int|
                0 <= i < patches@.len() ==> (#[trigger] patches@[i]).component == ids[i]
                    && patches@[i].bytes@ == components@[ids[i]]@,
            unknown is Some == exists|i: int|
                0 <= i < patches@.len() && !registry.known().contains(ids[i]),
            unknown matches Some(found) ==> components@.contains_key(found)
                && !registry.known().contains(found),
    {
        assert(ids[it.index() as int] == *id);
        assert(ids.to_set().contains(*id));
        let found = components.get(id);
        match found {
            Some(bytes) => {
                let known = registry.2.contains_key(id);
                if !known && unknown.is_none() {
                    unknown = Some(*id);
                }
                patches.push(ComponentPatch { component: *id, bytes: copy_bytes(bytes) });
            },
            None => {},
        }
    }
    proof {
        let listed = patches@;
        assert forall|i: int, j: int| 0 <= i < j < listed.len() implies listed[i].component
            != listed[j].component by {
            assert(ids[i] != ids[j]);
        }
        assert forall|id: i32| #[trigger]
            component_bytes(components@).contains_key(id) implies patch_bytes(listed).contains_key(
            id,
        ) && patch_bytes(listed)[id] == component_bytes(components@)[id] by {
            assert(ids.to_set().contains(id));
            let at = choose|i: int| 0 <= i < ids.len() && ids[i] == id;
            assert(listed[at].component == id);
            let chosen = choose|i: int| 0 <= i < listed.len() && listed[i].component == id;
            if chosen != at {
                assert(ids[chosen] != ids[at]);
            }
        }
        assert forall|id: i32| #[trigger]
            patch_bytes(listed).contains_key(id) implies component_bytes(components@).contains_key(
            id,
        ) by {
            let at = choose|i: int| 0 <= i < listed.len() && listed[i].component == id;
            assert(ids.to_set().contains(ids[at]));
        }
        assert(patch_bytes(listed) =~= component_bytes(components@));
        if unknown is None {
            assert forall|id: i32|
                component_bytes(components@).dom().contains(id) implies registry.known().contains(
                id,
            ) by {
                assert(ids.to_set().contains(id));
            }
        } else {
            let at = choose|i: int| 0 <= i < listed.len() && !registry.known().contains(ids[i]);
            assert(ids.to_set().contains(ids[at]));
            assert(component_bytes(components@).dom().contains(ids[at]));
        }
    }
    (patches, unknown)
}

/// What a client does about an envelope, given what its header decoded to
/// (`None` where it could not be decoded) and the snapshots it holds. An
/// envelope with a component id that the registry does not know is
/// refused whole, before anything is done; the plan names one such id.
pub fn plan_replication(
    entities: &ReplicatedEntities,
    registry: &ReplicationComponentsRegistry,
    header: Option<Replicated>,
    components: &HashMap<i32, Vec<u8>>,
) -> (plan: ReplicationPlan)
    ensures
        plan@ == planned(
            entities@,
            registry.known(),
            match header {
                Some(replicated) => Some((replicated.connection_name@, replicated.entity_ref@)),
                None => None,
            },
            component_bytes(components@),
        ),
        plan matches ReplicationPlan::UnknownComponent(id) ==> components@.contains_key(id)
            && !registry.known().contains(id),
        plan matches ReplicationPlan::Spawn { inserts, .. } ==> patches_distinct(inserts@),
        plan matches ReplicationPlan::Apply { applies, .. } ==> patches_distinct(applies@),
{
    match header {
        None => ReplicationPlan::Malformed,
        Some(replicated) => {
            let network_id = network_identifier(&replicated.entity_ref);
            let (patches, unknown) = patches_of(components, registry);
            match unknown {
                Some(id) => ReplicationPlan::UnknownComponent(id),
                None => match entities.get(network_id) {
                    Some(entity) => ReplicationPlan::Apply { entity, applies: patches },
                    None => ReplicationPlan::Spawn { network_id, replicated, inserts: patches },
                },
            }
        },
    }
}

/// What a client does about an envelope from its server: the header is
/// decoded, and the rest is as `plan_replication` says for what came of
/// that.
pub fn replication_from_server(
    entities: &ReplicatedEntities,
    registry: &ReplicationComponentsRegistry,
    message: &ReplicateMessageFromServer,
) -> (plan: ReplicationPlan)
    ensures
        plan@ == planned(
            entities@,
            registry.known(),
            header_decoding(message.replicated_byes@),
            component_bytes(message.components@),
        ),
        plan matches ReplicationPlan::UnknownComponent(id) ==> message.components@.contains_key(id)
            && !registry.known().contains(id),
        plan matches ReplicationPlan::Spawn { inserts, .. } ==> patches_distinct(inserts@),
        plan matches ReplicationPlan::Apply { applies, .. } ==> patches_distinct(applies@),
{
    let header = match decode_header(message.replicated_byes.as_slice()) {
        Some(pair) => Some(Replicated { connection_name: pair.0, entity_ref: pair.1 }),
        None => None,
    };
    plan_replication(entities, registry, header, &message.components)
}

} // verus!
