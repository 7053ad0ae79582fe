use nci::api::{parse_init_response, InitInfo, NciApi, NFC_CONN_CLOSE_CEVT, NFC_CONN_CREATE_CEVT};
use nci::connections::{LogicalConnectionsRegistry, RegistryError};
use nci::controller::{Controller, Status};
use nci::messages::Reply;
use nci::packet::{MessageType, PacketBoundaryFlag};

#[test]
fn init_opens_static_connections() {
    let mut api: NciApi<u32> = NciApi::new();
    let mut conns: LogicalConnectionsRegistry<u32> = LogicalConnectionsRegistry::new();
    api.nfc_set_static_rf_callback(&mut conns, 100);
    api.nfc_set_static_hci_callback(&mut conns, 101);
    let (reset, init) = api.nfc_init_commands();
    assert_eq!(reset.to_bytes(), vec![0x20, 0x00, 0x01, 0x01]);
    assert_eq!(init.to_bytes(), vec![0x20, 0x01, 0x02, 0x00, 0x00]);
    assert_eq!(api.nfc_get_lmrt_size(), 0);
    // The emulator's own CORE_INIT_RSP is what the host reads.
    let payload = Reply::CoreInitResponse(Controller::new(0).core_init()).payload();
    assert_eq!(
        parse_init_response(&payload),
        Some(InitInfo { max_routing_table_size: 512, max_data_payload: 255, num_of_credits: 0 })
    );
    assert_eq!(api.nfc_init(&mut conns, &payload), Ok(()));
    assert_eq!(api.nfc_get_lmrt_size(), 512);
    assert!(conns.is_open(0) && conns.is_open(1));
    assert_eq!(conns.credits(1), Some(0));
    assert_eq!(api.nfc_init(&mut conns, &payload), Err(RegistryError::AlreadyOpen));
    assert_eq!(conns.close(0), Some(100));
    assert_eq!(conns.close(1), Some(101));
}

#[test]
fn conn_create_round() {
    let api: NciApi<u32> = NciApi::new();
    let mut conns: LogicalConnectionsRegistry<u32> = LogicalConnectionsRegistry::new();
    let cmd = api.nfc_conn_create(2, 1, 4).unwrap();
    assert_eq!(cmd.to_bytes(), vec![0x20, 0x04, 0x06, 0x02, 0x01, 0x00, 0x02, 0x01, 0x04]);
    let lo = api.nfc_conn_create(1, 0, 0).unwrap();
    assert_eq!(lo.payload, vec![0x01, 0x00]);
    let ee = api.nfc_conn_create(3, 7, 8).unwrap();
    assert_eq!(ee.payload, vec![0x03, 0x01, 0x01, 0x02, 0x07, 0x08]);
    assert_eq!(api.nfc_conn_create(9, 0, 0).err(), Some(0x09));
    let (status, ev) = api.nfc_conn_create_complete(&mut conns, 2, 1, &[0x00, 0xff, 0xff, 0x02], 55).unwrap();
    assert_eq!(status, 0);
    let ev = ev.unwrap();
    assert_eq!((ev.callback, ev.conn_id, ev.event), (Some(55), 2, NFC_CONN_CREATE_CEVT));
    assert_eq!(ev.data, vec![0x00, 2, 1, 0xff, 0xff]);
    assert_eq!(conns.credits(2), Some(255));
    let rejected = api.nfc_conn_create_complete(&mut conns, 2, 1, &[0x01, 0, 0xff, 0], 56).unwrap();
    assert_eq!(rejected.0, Status::Rejected.value());
    assert!(rejected.1.is_none());
    assert_eq!(api.nfc_conn_create_complete(&mut conns, 2, 1, &[0x00], 57).unwrap().0, 0x03);
}

#[test]
fn conn_close_round() {
    let api: NciApi<u32> = NciApi::new();
    let mut conns: LogicalConnectionsRegistry<u32> = LogicalConnectionsRegistry::new();
    conns.open(2, Some(9), 255, 1).unwrap();
    let (cb, cmd) = api.nfc_conn_close(&mut conns, 2).unwrap();
    assert_eq!(cb, 9);
    assert_eq!(cmd.to_bytes(), vec![0x20, 0x05, 0x01, 0x02]);
    assert!(!conns.is_open(2));
    assert_eq!(api.nfc_conn_close(&mut conns, 2).err(), Some(Status::InvalidParam.value()));
    let (status, ev) = api.nfc_conn_close_complete(2, cb, &[0x00]);
    assert_eq!(status, 0);
    let ev = ev.unwrap();
    assert_eq!((ev.event, ev.data.clone()), (NFC_CONN_CLOSE_CEVT, vec![0x00]));
    assert_eq!(api.nfc_conn_close_complete(2, cb, &[]).0, Status::Failed.value());
}

#[test]
fn send_flush_and_config_commands() {
    let api: NciApi<u32> = NciApi::new();
    let mut conns: LogicalConnectionsRegistry<u32> = LogicalConnectionsRegistry::new();
    conns.open(2, Some(9), 2, 1).unwrap();
    let (status, out) = api.nfc_send_data(&mut conns, 2, &[0x02, 0x00, 0x03, 1, 2, 3]);
    assert_eq!(status, Status::Success.value());
    assert_eq!(out.len(), 1);
    assert_eq!(out[0].payload, vec![1, 2]);
    assert_eq!(out[0].pbf, PacketBoundaryFlag::Incomplete);
    assert_eq!(conns.queued(2), 1);
    let (status, out) = api.nfc_send_data(&mut conns, 2, &[0x22, 0x00, 0x00]);
    assert_eq!((status, out.len()), (Status::InvalidParam.value(), 0));
    assert_eq!(api.nfc_flush_data(&mut conns, 2), Status::Success.value());
    assert_eq!(conns.queued(2), 0);
    assert_eq!(api.nfc_flush_data(&mut conns, 5), Status::Failed.value());
    let set = api.nfc_set_config(&[0x00, 0x01, 0x05]);
    assert_eq!((set.mt, set.gid, set.oid), (MessageType::Command, 0, 2));
    assert_eq!(set.payload, vec![0x00, 0x01, 0x05]);
    let get = api.nfc_get_config(&[0x01, 0x00]);
    assert_eq!(get.to_bytes(), vec![0x20, 0x03, 0x02, 0x01, 0x00]);
    assert_eq!(api.nfc_discovery_map(), 0);
}
