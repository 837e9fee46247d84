use iris_flow::conn_id::{FiveTuple, L4Context};
use iris_flow::flow_model::{FlowAction, FlowCommand};
use iris_flow::fx_hash::{fxhash, FxHasher};
use iris_flow::net::{SocketAddr, SocketAddrV4, SocketAddrV6};
use iris_flow::sw_flow::{capacity_fits, FlowTable};

fn tuple(port: u16) -> FiveTuple {
    let orig = SocketAddr::V4(SocketAddrV4 { ip: u32::from_be_bytes([10, 0, 0, 1]), port });
    let resp = SocketAddr::V4(SocketAddrV4 { ip: u32::from_be_bytes([10, 0, 0, 2]), port: 443 });
    FiveTuple { orig, resp, proto: 6 }
}

#[test]
fn insert_get_remove() {
    // Single fully-associative set of 4 ways.
    let mut ft = FlowTable::with_capacity_ways(4, 4);
    assert!(ft.is_empty());
    ft.insert(tuple(1), FlowAction::Drop);
    assert_eq!(ft.len(), 1);
    assert_eq!(ft.get(&tuple(1)), Some(FlowAction::Drop));
    assert_eq!(ft.get(&tuple(999)), None);
    ft.remove(&tuple(1));
    assert!(ft.is_empty());
    assert_eq!(ft.get(&tuple(1)), None);
    assert_eq!(ft.evictions(), 0);
}

#[test]
fn per_set_lru_eviction() {
    // n_sets = 4/4 = 1, so every key lands in the same set of 4 ways.
    let mut ft = FlowTable::with_capacity_ways(4, 4);
    for p in 1..=4 {
        ft.insert(tuple(p), FlowAction::Drop);
    }
    assert_eq!(ft.len(), 4);

    // Touch tuple(1) so it becomes most-recently-used; tuple(2) is now LRU.
    assert_eq!(ft.get(&tuple(1)), Some(FlowAction::Drop));

    // Inserting a 5th key into the full set evicts the LRU way (tuple 2).
    ft.insert(tuple(5), FlowAction::Drop);
    assert_eq!(ft.len(), 4);
    assert_eq!(ft.evictions(), 1);
    assert_eq!(ft.get(&tuple(2)), None, "LRU entry should be evicted");
    for p in [1, 3, 4, 5] {
        assert_eq!(ft.get(&tuple(p)), Some(FlowAction::Drop), "port {p} kept");
    }
}

#[test]
fn update_in_place_no_eviction() {
    let mut ft = FlowTable::with_capacity_ways(4, 4);
    for p in 1..=4 {
        ft.insert(tuple(p), FlowAction::Drop);
    }
    // Re-installing an existing key updates in place, never evicts.
    ft.insert(tuple(2), FlowAction::Queue(7));
    assert_eq!(ft.len(), 4);
    assert_eq!(ft.evictions(), 0);
    assert_eq!(ft.get(&tuple(2)), Some(FlowAction::Queue(7)));
}

#[test]
fn direct_mapped_evicts_on_collision() {
    // ways = 1: a set holds a single slot, so a colliding key evicts.
    let mut ft = FlowTable::with_capacity_ways(1, 1); // 1 set, 1 way
    ft.insert(tuple(1), FlowAction::Drop);
    ft.insert(tuple(2), FlowAction::Drop); // same (only) set -> evicts tuple(1)
    assert_eq!(ft.len(), 1);
    assert_eq!(ft.evictions(), 1);
    assert_eq!(ft.get(&tuple(2)), Some(FlowAction::Drop));
}

#[test]
fn new_table_has_one_slot() {
    let mut ft = FlowTable::new();
    assert!(ft.is_empty());
    ft.insert(tuple(1), FlowAction::Drop);
    ft.insert(tuple(2), FlowAction::Queue(1));
    assert_eq!(ft.len(), 1);
    assert_eq!(ft.get(&tuple(1)), None);
}

#[test]
fn capacity_is_rounded_up_to_a_power_of_two_of_sets() {
    // 6 rules in sets of 2 ask for 3 sets, so there are 4 sets and room for 8 rules.
    let mut ft = FlowTable::with_capacity_ways(6, 2);
    for p in 0..1000 {
        ft.insert(tuple(p), FlowAction::Drop);
    }
    assert_eq!(ft.len(), 8);
    assert_eq!(ft.evictions(), 992);
}

#[test]
fn no_ways_count_as_one() {
    let mut ft = FlowTable::with_capacity_ways(0, 0);
    ft.insert(tuple(1), FlowAction::Drop);
    ft.insert(tuple(2), FlowAction::Drop);
    assert_eq!(ft.len(), 1);
    assert_eq!(ft.evictions(), 1);
}

#[test]
fn lookup_goes_by_the_transport_header() {
    let mut ft = FlowTable::with_capacity_ways(16, 4);
    ft.insert(tuple(7), FlowAction::Queue(3));
    let t = tuple(7);
    let ctxt = L4Context { src: t.orig, dst: t.resp, proto: t.proto };
    assert_eq!(ft.lookup(&Some(ctxt)), Some(FlowAction::Queue(3)));
    let back = L4Context { src: t.resp, dst: t.orig, proto: t.proto };
    assert_eq!(ft.lookup(&Some(back)), None);
    assert_eq!(ft.lookup(&None), None);
}

#[test]
fn commands_change_the_table() {
    let mut ft = FlowTable::with_capacity_ways(16, 4);
    ft.apply(FlowCommand::Install(tuple(1), FlowAction::Drop));
    ft.apply(FlowCommand::Install(tuple(2), FlowAction::Queue(9)));
    ft.apply(FlowCommand::Uninstall(tuple(1)));
    assert_eq!(ft.get(&tuple(1)), None);
    assert_eq!(ft.get(&tuple(2)), Some(FlowAction::Queue(9)));
    ft.apply(FlowCommand::Uninstall(tuple(50)));
    assert_eq!(ft.len(), 1);
    assert!(ft.has_ticks());
}

#[test]
fn removing_makes_room_without_eviction() {
    let mut ft = FlowTable::with_capacity_ways(2, 2);
    ft.insert(tuple(1), FlowAction::Drop);
    ft.insert(tuple(2), FlowAction::Drop);
    ft.remove(&tuple(1));
    ft.insert(tuple(3), FlowAction::Drop);
    assert_eq!(ft.evictions(), 0);
    assert_eq!(ft.len(), 2);
    assert_eq!(ft.get(&tuple(2)), Some(FlowAction::Drop));
    assert_eq!(ft.get(&tuple(3)), Some(FlowAction::Drop));
}

#[test]
fn capacities_that_cannot_be_built() {
    assert!(capacity_fits(0, 0));
    assert!(capacity_fits(65536, 8));
    assert!(capacity_fits(1usize << 63, 1));
    assert!(!capacity_fits((1usize << 63) + 1, 1));
    assert!(!capacity_fits(usize::MAX, 2));
    assert!(capacity_fits(usize::MAX, usize::MAX));
}

#[test]
fn hasher_steps() {
    const SEED: u64 = 0x51_7c_c1_b7_27_22_0a_95;
    let mut h = FxHasher::new();
    assert_eq!(h.finish(), 0);
    h.write_u8(5);
    let one = 5u64.wrapping_mul(SEED);
    assert_eq!(h.finish(), one);
    h.write_u16(6);
    let two = (one.rotate_left(5) ^ 6).wrapping_mul(SEED);
    assert_eq!(h.finish(), two);
    let mut a = FxHasher::new();
    a.write(&[1, 0, 0, 0, 0, 0, 0, 0, 2, 0, 0, 0, 3]);
    let mut b = FxHasher::new();
    b.write_u64(1);
    b.write_u32(2);
    b.write_u8(3);
    assert_eq!(a.finish(), b.finish());
    let mut c = FxHasher::new();
    c.write_usize(1);
    c.add(2);
    c.add(3);
    assert_eq!(c.finish(), b.finish());
}

#[test]
fn tuples_hash_by_every_field() {
    let t = tuple(1);
    assert_eq!(fxhash(&t), fxhash(&tuple(1)));
    assert_ne!(fxhash(&t), fxhash(&tuple(2)));
    assert_ne!(fxhash(&t), fxhash(&FiveTuple { proto: 17, ..t }));
    let six = SocketAddr::V6(SocketAddrV6 { ip: 1, port: 1, flowinfo: 0, scope_id: 0 });
    assert_ne!(fxhash(&t), fxhash(&FiveTuple { orig: six, ..t }));
}

#[test]
fn answers_are_the_latest_installs_or_none() {
    let mut ft = FlowTable::with_capacity_ways(8, 2);
    let mut latest: Vec<Option<FlowAction>> = vec![None; 40];
    for step in 0u16..400 {
        let n = (step * 7) % 40;
        let t = tuple(n);
        let was = ft.get(&t).is_some();
        let (len, evicted) = (ft.len(), ft.evictions());
        if step % 5 == 4 {
            ft.remove(&t);
            latest[n as usize] = None;
            assert_eq!(ft.len() + was as usize, len);
        } else {
            ft.insert(t, FlowAction::Queue(step));
            latest[n as usize] = Some(FlowAction::Queue(step));
            let grown = (ft.len() - len) as u64 + (ft.evictions() - evicted);
            assert_eq!(grown, if was { 0 } else { 1 });
        }
        for k in 0u16..40 {
            let a = ft.get(&tuple(k));
            assert!(a.is_none() || a == latest[k as usize]);
        }
        assert!(ft.len() <= 8);
    }
}
