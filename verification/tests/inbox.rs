use iris_flow::conn_id::FiveTuple;
use iris_flow::flow_model::{FlowAction, FlowCommand};
use iris_flow::inbox::{
    apply_next, enabled, install, install_all, register_core, uninstall, uninstall_all, Inboxes,
};
use iris_flow::lcore::CoreId;
use iris_flow::net::{SocketAddr, SocketAddrV4};
use iris_flow::sw_flow::FlowTable;

fn tuple(port: u16) -> FiveTuple {
    let end = SocketAddr::V4(SocketAddrV4 { ip: 0x0a00_0001, port });
    FiveTuple { orig: end, resp: end, proto: 17 }
}

#[test]
fn the_switch_is_on_unless_turned_off() {
    assert!(enabled(None));
    assert!(enabled(Some("1")));
    assert!(enabled(Some("")));
    assert!(enabled(Some("no")));
    assert!(!enabled(Some("0")));
    assert!(!enabled(Some("false")));
    assert!(!enabled(Some("FALSE")));
    assert!(!enabled(Some("False")));
    assert!(enabled(Some("false ")));
}

#[test]
fn rules_reach_the_core_in_order() {
    let mut inboxes = Inboxes::new();
    let mut rx = register_core(&mut inboxes, CoreId(3));
    assert!(install(&mut inboxes, true, CoreId(3), tuple(1), FlowAction::Drop));
    assert!(install(&mut inboxes, true, CoreId(3), tuple(1), FlowAction::Queue(2)));
    assert!(uninstall(&mut inboxes, true, CoreId(3), tuple(9)));
    let mut table = FlowTable::with_capacity_ways(8, 4);
    assert!(matches!(apply_next(&mut table, &mut rx), Some(FlowCommand::Install(_, FlowAction::Drop))));
    assert_eq!(table.get(&tuple(1)), Some(FlowAction::Drop));
    assert!(matches!(apply_next(&mut table, &mut rx), Some(FlowCommand::Install(_, FlowAction::Queue(2)))));
    assert!(matches!(apply_next(&mut table, &mut rx), Some(FlowCommand::Uninstall(_))));
    assert!(apply_next(&mut table, &mut rx).is_none());
    assert_eq!(table.get(&tuple(1)), Some(FlowAction::Queue(2)));
}

#[test]
fn all_cores_are_reached() {
    let mut inboxes = Inboxes::new();
    let a = register_core(&mut inboxes, CoreId(0));
    let b = register_core(&mut inboxes, CoreId(7));
    install_all(&mut inboxes, true, tuple(1), FlowAction::Drop);
    uninstall_all(&mut inboxes, true, tuple(1));
    install_all(&mut inboxes, false, tuple(2), FlowAction::Drop);
    for mut rx in [a, b] {
        let mut table = FlowTable::new();
        assert!(apply_next(&mut table, &mut rx).is_some());
        assert_eq!(table.len(), 1);
        assert!(apply_next(&mut table, &mut rx).is_some());
        assert!(table.is_empty());
        assert!(apply_next(&mut table, &mut rx).is_none());
    }
}

#[test]
fn pushes_that_go_nowhere() {
    let mut inboxes = Inboxes::new();
    assert!(!install(&mut inboxes, true, CoreId(0), tuple(1), FlowAction::Drop));
    let mut rx = register_core(&mut inboxes, CoreId(0));
    assert!(!install(&mut inboxes, false, CoreId(0), tuple(1), FlowAction::Drop));
    assert!(!uninstall(&mut inboxes, true, CoreId(1), tuple(1)));
    assert!(apply_next(&mut FlowTable::new(), &mut rx).is_none());
    drop(rx);
    assert!(!install(&mut inboxes, true, CoreId(0), tuple(1), FlowAction::Drop));
}

#[test]
fn registering_again_replaces_the_inbox() {
    let mut inboxes = Inboxes::new();
    let mut first = register_core(&mut inboxes, CoreId(0));
    let mut second = register_core(&mut inboxes, CoreId(0));
    assert!(install(&mut inboxes, true, CoreId(0), tuple(1), FlowAction::Drop));
    let mut table = FlowTable::new();
    assert!(apply_next(&mut table, &mut first).is_none());
    assert!(apply_next(&mut table, &mut second).is_some());
    assert!(apply_next(&mut table, &mut second).is_none());
}

#[test]
fn each_core_is_given_what_its_own_inbox_took() {
    let mut inboxes = Inboxes::new();
    let mut a = register_core(&mut inboxes, CoreId(1));
    let mut b = register_core(&mut inboxes, CoreId(2));
    assert!(install(&mut inboxes, true, CoreId(2), tuple(5), FlowAction::Queue(5)));
    assert!(install(&mut inboxes, true, CoreId(1), tuple(6), FlowAction::Drop));
    let mut on_a = FlowTable::new();
    let mut on_b = FlowTable::new();
    assert!(apply_next(&mut on_a, &mut a).is_some());
    assert!(apply_next(&mut on_b, &mut b).is_some());
    assert_eq!(on_a.get(&tuple(6)), Some(FlowAction::Drop));
    assert_eq!(on_a.get(&tuple(5)), None);
    assert_eq!(on_b.get(&tuple(5)), Some(FlowAction::Queue(5)));
    assert_eq!(on_b.get(&tuple(6)), None);
    assert!(apply_next(&mut on_a, &mut a).is_none());
    assert!(apply_next(&mut on_b, &mut b).is_none());
}
