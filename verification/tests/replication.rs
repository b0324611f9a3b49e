use std::collections::HashMap;

use inator::plugins::replication::{
    component_changed_server, envelope_of, plan_replication, replicate_to_client,
    replication_from_server, replication_phase, ComponentPatch, ComponentSnapshot, Envelope,
    NewClientsToReplicate, Recipients, ReplicateMessageFromServer, ReplicateTo, Replicated,
    ReplicatedEntities, ReplicatedEntity, ReplicationComponentsRegistry, ReplicationPhase,
    ReplicationPlan, ServerReplicationQueue,
};

const HEALTH: u64 = 1001;
const LABEL: u64 = 1002;

fn entity_ref(seed: u8) -> [u8; 16] {
    let mut bytes = [0u8; 16];
    for (i, byte) in bytes.iter_mut().enumerate() {
        *byte = seed.wrapping_add(i as u8);
    }
    bytes
}

fn header(name: &str, entity_ref: [u8; 16]) -> Vec<u8> {
    bincode::encode_to_vec((name, entity_ref), bincode::config::standard()).expect("a header encodes")
}

fn registry() -> ReplicationComponentsRegistry {
    let mut registry = ReplicationComponentsRegistry::new();
    registry.registry(HEALTH);
    registry.registry(LABEL);
    registry
}

fn snapshot(entity: u64, bytes: &[u8]) -> ComponentSnapshot {
    ComponentSnapshot { entity, bytes: bytes.to_vec() }
}

fn sorted(mut patches: Vec<ComponentPatch>) -> Vec<(i32, Vec<u8>)> {
    patches.sort_by_key(|patch| patch.component);
    patches.into_iter().map(|patch| (patch.component, patch.bytes)).collect()
}

fn listed(recipients: &Recipients) -> Option<Vec<u128>> {
    match recipients {
        Recipients::All => None,
        Recipients::Listed(peers) => Some(peers.clone()),
    }
}

/// A stand-in for the host's world: the encoded components of each local
/// entity, changed only as a plan says.
struct World {
    next: u64,
    components: HashMap<u64, HashMap<i32, Vec<u8>>>,
}

impl World {
    fn new() -> World {
        World { next: 500, components: HashMap::new() }
    }

    fn carry_out(&mut self, entities: &mut ReplicatedEntities, plan: ReplicationPlan) {
        match plan {
            ReplicationPlan::Malformed => {}
            ReplicationPlan::UnknownComponent(_) => {}
            ReplicationPlan::Spawn { network_id, inserts, .. } => {
                let entity = self.next;
                self.next += 1;
                entities.record(network_id, entity);
                let slot = self.components.entry(entity).or_default();
                for patch in inserts {
                    slot.insert(patch.component, patch.bytes);
                }
            }
            ReplicationPlan::Apply { entity, applies } => {
                let slot = self.components.entry(entity).or_default();
                for patch in applies {
                    slot.insert(patch.component, patch.bytes);
                }
            }
        }
    }
}

#[test]
fn component_ids_are_dense_and_stable() {
    let mut registry = ReplicationComponentsRegistry::new();
    assert!(registry.has_room());
    assert!(!registry.is_registered(&HEALTH));
    assert_eq!(registry.component_id(HEALTH), None);
    registry.registry(HEALTH);
    registry.registry(LABEL);
    registry.registry(HEALTH);
    registry.registry(LABEL);
    assert_eq!(registry.0, 2);
    assert!(registry.is_registered(&HEALTH));
    assert_eq!(registry.component_id(HEALTH), Some(1));
    assert_eq!(registry.component_id(LABEL), Some(2));
    assert_eq!(registry.component_type(1), Some(HEALTH));
    assert_eq!(registry.component_type(2), Some(LABEL));
    assert_eq!(registry.component_type(3), None);
    assert_eq!(registry.component_type(0), None);
    let mut other = ReplicationComponentsRegistry::new();
    other.registry(HEALTH);
    other.registry(LABEL);
    assert_eq!(other.component_id(HEALTH), registry.component_id(HEALTH));
    assert_eq!(other.component_id(LABEL), registry.component_id(LABEL));
    let full = ReplicationComponentsRegistry(i32::MAX, HashMap::new(), HashMap::new());
    assert!(!full.has_room());
}

#[test]
fn the_phase_of_a_tick() {
    let nobody = NewClientsToReplicate::new();
    let mut somebody = NewClientsToReplicate::new();
    somebody.push(9);
    assert_eq!(replication_phase(0, &nobody), ReplicationPhase::Changed);
    assert_eq!(replication_phase(0, &somebody), ReplicationPhase::LateJoin);
    assert_eq!(replication_phase(3, &nobody), ReplicationPhase::First);
    assert_eq!(replication_phase(3, &somebody), ReplicationPhase::First);
}

#[test]
fn changes_of_one_entity_coalesce() {
    let mut queue = ServerReplicationQueue::new();
    queue.record(7, 1, vec![1]);
    queue.record(7, 2, vec![b'x']);
    queue.record(7, 1, vec![2]);
    queue.record(8, 1, vec![3]);
    assert_eq!(queue.0.len(), 2);
    let target = &queue.0[&7];
    assert!(target.all_clients);
    assert!(target.to_clients.is_empty());
    assert_eq!(target.bytes.len(), 2);
    assert_eq!(target.bytes[&1], vec![2]);
    assert_eq!(target.bytes[&2], vec![b'x']);
    assert_eq!(queue.0[&8].bytes[&1], vec![3]);
}

#[test]
fn late_joiners_are_listed() {
    let mut queue = ServerReplicationQueue::new();
    queue.record_for(7, 1, vec![1], &vec![100, 101]);
    {
        let target = &queue.0[&7];
        assert!(!target.all_clients);
        assert_eq!(target.to_clients, vec![100, 101]);
        assert_eq!(target.bytes[&1], vec![1]);
    }
    queue.record_for(7, 2, vec![2], &vec![100, 101]);
    assert_eq!(queue.0[&7].to_clients, vec![100, 101]);
    queue.record_for(7, 2, vec![2], &vec![102, 100, 102]);
    assert_eq!(queue.0[&7].to_clients, vec![100, 101, 102]);
    assert_eq!(queue.0[&7].bytes.len(), 2);
    queue.record(8, 1, vec![5]);
    queue.record_for(8, 2, vec![6], &vec![100]);
    let target = &queue.0[&8];
    assert!(target.all_clients);
    assert_eq!(target.to_clients, vec![100]);
    assert_eq!(target.bytes.len(), 2);
}

#[test]
fn a_tick_records_as_its_phase_says() {
    let mut waiting = NewClientsToReplicate::new();
    waiting.push(100);
    let snapshots = vec![snapshot(7, &[1]), snapshot(8, &[2]), snapshot(7, &[3])];

    let mut queue = ServerReplicationQueue::new();
    let marked =
        component_changed_server(&mut queue, 1, ReplicationPhase::First, &snapshots, &waiting);
    assert_eq!(marked, vec![7, 8, 7]);
    assert!(queue.0[&7].all_clients);
    assert_eq!(queue.0[&7].bytes[&1], vec![3]);
    assert_eq!(queue.0[&8].bytes[&1], vec![2]);

    let mut queue = ServerReplicationQueue::new();
    let marked =
        component_changed_server(&mut queue, 1, ReplicationPhase::LateJoin, &snapshots, &waiting);
    assert!(marked.is_empty());
    assert!(!queue.0[&7].all_clients);
    assert_eq!(queue.0[&7].to_clients, vec![100]);
    assert_eq!(queue.0[&8].to_clients, vec![100]);
    assert_eq!(queue.0[&7].bytes[&1], vec![3]);

    let mut queue = ServerReplicationQueue::new();
    let marked =
        component_changed_server(&mut queue, 2, ReplicationPhase::Changed, &snapshots, &waiting);
    assert_eq!(marked, vec![7, 8, 7]);
    assert!(queue.0[&8].all_clients);
    assert_eq!(queue.0[&8].bytes[&2], vec![2]);
    let marked =
        component_changed_server(&mut queue, 2, ReplicationPhase::Changed, &Vec::new(), &waiting);
    assert!(marked.is_empty());
    assert_eq!(queue.0.len(), 2);
}

#[test]
fn an_envelope_takes_all_of_its_target() {
    let mut bytes = HashMap::new();
    bytes.insert(1, vec![1u8]);
    bytes.insert(2, vec![b'x']);
    let envelope = envelope_of(
        vec![9, 9],
        "Lobby".to_string(),
        ReplicateTo { all_clients: true, to_clients: vec![4], bytes: bytes.clone() },
    );
    assert_eq!(envelope.connection_name, "Lobby");
    assert_eq!(listed(&envelope.recipients), None);
    assert_eq!(envelope.message.replicated_byes, vec![9, 9]);
    assert_eq!(envelope.message.components, bytes);
    let envelope = envelope_of(
        vec![],
        "Arena".to_string(),
        ReplicateTo { all_clients: false, to_clients: vec![4, 5], bytes: HashMap::new() },
    );
    assert_eq!(envelope.connection_name, "Arena");
    assert_eq!(listed(&envelope.recipients), Some(vec![4, 5]));
    assert!(envelope.message.components.is_empty());
}

#[test]
fn a_flush_sends_one_envelope_for_each_entity_and_empties_the_queue() {
    let mut queue = ServerReplicationQueue::new();
    queue.record(7, 1, vec![1]);
    queue.record(7, 2, vec![b'x']);
    queue.record_for(8, 1, vec![2], &vec![100, 101]);
    queue.record(9, 1, vec![3]);
    let mut waiting = NewClientsToReplicate(vec![100, 101, 102]);
    let replicated = vec![
        ReplicatedEntity {
            entity: 8,
            replicated: Replicated { connection_name: "Lobby".to_string(), entity_ref: entity_ref(8) },
        },
        ReplicatedEntity {
            entity: 6,
            replicated: Replicated { connection_name: "Lobby".to_string(), entity_ref: entity_ref(6) },
        },
        ReplicatedEntity {
            entity: 7,
            replicated: Replicated { connection_name: "Arena".to_string(), entity_ref: entity_ref(7) },
        },
        ReplicatedEntity {
            entity: 7,
            replicated: Replicated { connection_name: "Arena".to_string(), entity_ref: entity_ref(7) },
        },
    ];
    let envelopes: Vec<Envelope> = replicate_to_client(&replicated, &mut queue, &mut waiting);
    assert_eq!(envelopes.len(), 2);
    assert_eq!(envelopes[0].connection_name, "Lobby");
    assert_eq!(listed(&envelopes[0].recipients), Some(vec![100, 101]));
    assert_eq!(envelopes[0].message.replicated_byes, header("Lobby", entity_ref(8)));
    assert_eq!(envelopes[0].message.components.len(), 1);
    assert_eq!(envelopes[0].message.components[&1], vec![2]);
    assert_eq!(envelopes[1].connection_name, "Arena");
    assert_eq!(listed(&envelopes[1].recipients), None);
    assert_eq!(envelopes[1].message.replicated_byes, header("Arena", entity_ref(7)));
    assert_eq!(envelopes[1].message.components.len(), 2);
    assert_eq!(envelopes[1].message.components[&1], vec![1]);
    assert_eq!(envelopes[1].message.components[&2], vec![b'x']);
    assert!(queue.0.is_empty());
    assert_eq!(waiting.0, vec![102]);
    let again = replicate_to_client(&replicated, &mut queue, &mut waiting);
    assert!(again.is_empty());
    assert_eq!(waiting.0, vec![102]);
}

#[test]
fn served_peers_wait_no_more() {
    let mut waiting = NewClientsToReplicate::new();
    waiting.push(1);
    waiting.push(2);
    waiting.push(1);
    waiting.push(3);
    waiting.forget(&vec![1, 9]);
    assert_eq!(waiting.0, vec![2, 3]);
    waiting.forget(&vec![]);
    assert_eq!(waiting.0, vec![2, 3]);
    waiting.forget(&vec![3, 2]);
    assert!(waiting.0.is_empty());
}

#[test]
fn a_fresh_client_ends_up_with_both_components() {
    let mut queue = ServerReplicationQueue::new();
    let nobody = NewClientsToReplicate::new();
    let server_registry = registry();
    let health = server_registry.component_id(HEALTH).expect("registered");
    let label = server_registry.component_id(LABEL).expect("registered");
    let phase = replication_phase(1, &nobody);
    let marked = component_changed_server(&mut queue, health, phase, &vec![snapshot(7, &[1])], &nobody);
    assert_eq!(marked, vec![7]);
    let marked = component_changed_server(&mut queue, label, phase, &vec![snapshot(7, b"x")], &nobody);
    assert_eq!(marked, vec![7]);
    let replicated = vec![ReplicatedEntity {
        entity: 7,
        replicated: Replicated { connection_name: "Lobby".to_string(), entity_ref: entity_ref(40) },
    }];
    let mut waiting = NewClientsToReplicate::new();
    let mut envelopes = replicate_to_client(&replicated, &mut queue, &mut waiting);
    assert_eq!(envelopes.len(), 1);
    let envelope = envelopes.pop().expect("one envelope");

    let client_registry = registry();
    let mut entities = ReplicatedEntities::new();
    let mut world = World::new();
    let plan = replication_from_server(&entities, &client_registry, &envelope.message);
    match &plan {
        ReplicationPlan::Spawn { network_id, replicated, inserts } => {
            assert_eq!(*network_id, u128::from_be_bytes(entity_ref(40)));
            assert_eq!(replicated.connection_name, "Lobby");
            assert_eq!(replicated.entity_ref, entity_ref(40));
            assert_eq!(inserts.len(), 2);
        }
        _ => panic!("a new entity is created"),
    }
    world.carry_out(&mut entities, plan);
    let local = entities.get(u128::from_be_bytes(entity_ref(40))).expect("the entity is known");
    assert_eq!(world.components[&local][&health], vec![1]);
    assert_eq!(world.components[&local][&label], b"x".to_vec());
    assert_eq!(world.components[&local].len(), 2);
}

#[test]
fn the_same_envelope_twice_changes_nothing_the_second_time() {
    let client_registry = registry();
    let mut components = HashMap::new();
    components.insert(1, vec![1u8]);
    components.insert(2, b"x".to_vec());
    let message = ReplicateMessageFromServer {
        replicated_byes: header("Lobby", entity_ref(3)),
        components,
    };
    let mut entities = ReplicatedEntities::new();
    let mut world = World::new();
    let plan = replication_from_server(&entities, &client_registry, &message);
    world.carry_out(&mut entities, plan);
    let after_first = world.components.clone();
    let known_after_first = entities.0.clone();
    let plan = replication_from_server(&entities, &client_registry, &message);
    match &plan {
        ReplicationPlan::Apply { entity, applies } => {
            assert_eq!(Some(*entity), entities.get(u128::from_be_bytes(entity_ref(3))));
            assert_eq!(applies.len(), 2);
        }
        _ => panic!("the entity is known by now"),
    }
    world.carry_out(&mut entities, plan);
    assert_eq!(world.components, after_first);
    assert_eq!(entities.0, known_after_first);
    assert_eq!(world.next, 501);
}

#[test]
fn a_patch_leaves_other_components_alone() {
    let client_registry = registry();
    let mut entities = ReplicatedEntities::new();
    entities.record(u128::from_be_bytes(entity_ref(3)), 42);
    let mut world = World::new();
    world.components.insert(42, HashMap::from([(1, vec![1u8]), (2, b"x".to_vec())]));
    let message = ReplicateMessageFromServer {
        replicated_byes: header("Lobby", entity_ref(3)),
        components: HashMap::from([(1, vec![9u8])]),
    };
    let plan = replication_from_server(&entities, &client_registry, &message);
    match plan {
        ReplicationPlan::Apply { entity, applies } => {
            assert_eq!(entity, 42);
            assert_eq!(sorted(applies), vec![(1, vec![9u8])]);
        }
        _ => panic!("the entity is known"),
    }
    let plan = replication_from_server(&entities, &client_registry, &message);
    world.carry_out(&mut entities, plan);
    assert_eq!(world.components[&42][&1], vec![9]);
    assert_eq!(world.components[&42][&2], b"x".to_vec());
}

#[test]
fn an_unknown_component_refuses_the_whole_envelope() {
    let client_registry = registry();
    let entities = ReplicatedEntities::new();
    let message = ReplicateMessageFromServer {
        replicated_byes: header("Lobby", entity_ref(3)),
        components: HashMap::from([(1, vec![1u8]), (3, vec![2u8])]),
    };
    match replication_from_server(&entities, &client_registry, &message) {
        ReplicationPlan::UnknownComponent(id) => assert_eq!(id, 3),
        _ => panic!("the registries disagree"),
    }
    let empty = ReplicationComponentsRegistry::new();
    let message = ReplicateMessageFromServer {
        replicated_byes: header("Lobby", entity_ref(3)),
        components: HashMap::from([(1, vec![1u8])]),
    };
    match replication_from_server(&entities, &empty, &message) {
        ReplicationPlan::UnknownComponent(id) => assert_eq!(id, 1),
        _ => panic!("the registries disagree"),
    }
}

#[test]
fn a_malformed_header_drops_the_envelope() {
    let client_registry = registry();
    let entities = ReplicatedEntities::new();
    let claims_too_much = vec![0xfd, 0xff, 0xff, 0xff, 0xff, 0xff, 0xff, 0xff, 0xff, b'L'];
    let claims_a_lot = vec![0xfd, 0, 0, 0, 0, 0, 0, 0, 0x10, b'L'];
    for bytes in [
        vec![],
        vec![5, b'L'],
        vec![1, 0xff, 0, 0],
        header("Lobby", entity_ref(3))[..10].to_vec(),
        claims_too_much,
        claims_a_lot,
    ] {
        let message = ReplicateMessageFromServer {
            replicated_byes: bytes,
            components: HashMap::from([(1, vec![1u8])]),
        };
        assert!(matches!(
            replication_from_server(&entities, &client_registry, &message),
            ReplicationPlan::Malformed
        ));
    }
    assert!(matches!(
        plan_replication(&entities, &client_registry, None, &HashMap::new()),
        ReplicationPlan::Malformed
    ));
}

#[test]
fn a_plan_for_a_decoded_header() {
    let client_registry = registry();
    let mut entities = ReplicatedEntities::new();
    let components = HashMap::from([(2, b"x".to_vec())]);
    let replicated = Replicated { connection_name: "Lobby".to_string(), entity_ref: entity_ref(1) };
    match plan_replication(&entities, &client_registry, Some(replicated), &components) {
        ReplicationPlan::Spawn { network_id, replicated, inserts } => {
            assert_eq!(network_id, 0x0102_0304_0506_0708_090a_0b0c_0d0e_0f10);
            assert_eq!(replicated.connection_name, "Lobby");
            assert_eq!(sorted(inserts), vec![(2, b"x".to_vec())]);
        }
        _ => panic!("a new entity is created"),
    }
    entities.record(0x0102_0304_0506_0708_090a_0b0c_0d0e_0f10, 77);
    assert_eq!(entities.get(0x0102_0304_0506_0708_090a_0b0c_0d0e_0f10), Some(77));
    assert_eq!(entities.get(5), None);
    let replicated = Replicated { connection_name: "Lobby".to_string(), entity_ref: entity_ref(1) };
    match plan_replication(&entities, &client_registry, Some(replicated), &components) {
        ReplicationPlan::Apply { entity, applies } => {
            assert_eq!(entity, 77);
            assert_eq!(sorted(applies), vec![(2, b"x".to_vec())]);
        }
        _ => panic!("the entity is known"),
    }
    let replicated = Replicated { connection_name: "Lobby".to_string(), entity_ref: entity_ref(1) };
    match plan_replication(&entities, &client_registry, Some(replicated), &HashMap::new()) {
        ReplicationPlan::Apply { entity, applies } => {
            assert_eq!(entity, 77);
            assert!(applies.is_empty());
        }
        _ => panic!("the entity is known"),
    }
}
