use nci::controller::{
    ConfigParameter, ConfigStatus, Controller, CoreConnCreateResponse, CoreResetNotification,
    DestinationType, NciVersion, ResetTrigger, ResetType, Status, MAX_LOGICAL_CONNECTIONS,
};
use nci::controller::RfProtocolType;
use nci::messages::{parse_command, Command, CommandError, Reply};
use nci::rf::{Protocol, RfTechnologyAndMode, Technology};
use nci::packet::Opcode;
use nci::scene::{Scene, SceneError};
use nci::segment::segment_frames;

fn reply_of(c: &mut Controller, bytes: &[u8]) -> Vec<Reply> {
    let cmd = parse_command(bytes).expect("command decodes");
    c.receive_command(cmd)
}

#[test]
fn reset_then_init() {
    let mut c = Controller::new(0);
    let r = reply_of(&mut c, &[0x20, 0x00, 0x01, 0x01]);
    assert_eq!(r.len(), 2);
    assert!(matches!(r[0], Reply::CoreResetResponse(Status::Success)));
    match &r[1] {
        Reply::CoreResetNotification(n) => assert_eq!(
            *n,
            CoreResetNotification {
                trigger: ResetTrigger::ResetCommand,
                config_status: ConfigStatus::ConfigReset,
                nci_version: NciVersion::Version11,
                manufacturer_id: 0,
            }
        ),
        _ => panic!("expected a reset notification"),
    }
    let r = reply_of(&mut c, &[0x20, 0x01, 0x02, 0x00, 0x00]);
    assert_eq!(r.len(), 1);
    match &r[0] {
        Reply::CoreInitResponse(i) => {
            assert_eq!(i.status, Status::Success);
            assert_eq!(i.max_logical_connections, 2);
            assert_eq!(i.max_routing_table_size, 512);
            assert_eq!(i.number_of_credits, 0);
            assert_eq!(i.max_control_packet_payload_size, 255);
            assert_eq!(i.max_data_packet_payload_size, 255);
            assert_eq!(i.max_nfcv_rf_frame_size, 512);
        }
        _ => panic!("expected an init response"),
    }
}

#[test]
fn reset_keep_config_reports_config_kept() {
    let c = Controller::new(0);
    let (status, ntf) = c.core_reset(ResetType::KeepConfig);
    assert_eq!(status, Status::Success);
    assert_eq!(ntf.config_status, ConfigStatus::ConfigKept);
    assert_eq!(ntf.trigger, ResetTrigger::ResetCommand);
}

#[test]
fn power_on_notification_on_start() {
    let c = Controller::new(1);
    let n = c.power_on_notification();
    assert_eq!(n.trigger, ResetTrigger::PowerOn);
    assert_eq!(n.config_status, ConfigStatus::ConfigReset);
    let bytes = Reply::CoreResetNotification(n).to_bytes();
    assert_eq!(bytes, vec![0x60, 0x00, 0x05, 0x01, 0x01, 0x11, 0x00, 0x00]);
}

#[test]
fn set_then_get_config() {
    let mut c = Controller::new(0);
    // SetConfig: one parameter, id 0x00, value [0x11, 0x22].
    let r = reply_of(&mut c, &[0x20, 0x02, 0x05, 0x01, 0x00, 0x02, 0x11, 0x22]);
    match &r[0] {
        Reply::CoreSetConfigResponse(s) => {
            assert_eq!(s.status, Status::Success);
            assert!(s.parameters.is_empty());
        }
        _ => panic!("expected a set config response"),
    }
    // GetConfig for ids [0x00, 0xFF].
    let r = reply_of(&mut c, &[0x20, 0x03, 0x03, 0x02, 0x00, 0xff]);
    match &r[0] {
        Reply::CoreGetConfigResponse(g) => {
            assert_eq!(g.status, Status::InvalidParam);
            assert_eq!(g.parameters.len(), 1);
            assert_eq!(g.parameters[0].id, 0xff);
            assert!(g.parameters[0].value.is_empty());
        }
        _ => panic!("expected a get config response"),
    }
    // GetConfig for [0x00] alone finds the value.
    let g = c.core_get_config(&vec![0x00]);
    assert_eq!(g.status, Status::Success);
    assert_eq!(g.parameters[0].value, vec![0x11, 0x22]);
}

#[test]
fn set_config_rejects_reserved_ids() {
    let mut c = Controller::new(0);
    let params = vec![
        ConfigParameter { id: 0x04, value: vec![1] },
        ConfigParameter { id: 0x30, value: vec![2] },
        ConfigParameter { id: 0xff, value: vec![3] },
    ];
    let r = c.core_set_config(&params);
    assert_eq!(r.status, Status::InvalidParam);
    assert_eq!(r.parameters, vec![0x04, 0xff]);
    // The valid parameter was still written.
    let g = c.core_get_config(&vec![0x30]);
    assert_eq!(g.status, Status::Success);
    assert_eq!(g.parameters[0].value, vec![2]);
    let bytes = Reply::CoreSetConfigResponse(r).to_bytes();
    assert_eq!(bytes, vec![0x40, 0x02, 0x04, 0x09, 0x02, 0x04, 0xff]);
}

fn conn_create_bytes() -> Vec<u8> {
    // dest type RemoteNfcEndpoint, one parameter: RfDiscovery [0x01, 0x04].
    vec![0x20, 0x04, 0x06, 0x02, 0x01, 0x00, 0x02, 0x01, 0x04]
}

fn conn_create_response(r: &[Reply]) -> CoreConnCreateResponse {
    match &r[0] {
        Reply::CoreConnCreateResponse(c) => *c,
        _ => panic!("expected a conn create response"),
    }
}

#[test]
fn conn_create_then_close() {
    let mut c = Controller::new(0);
    let r = conn_create_response(&reply_of(&mut c, &conn_create_bytes()));
    assert_eq!(r.status, Status::Success);
    assert_eq!(r.conn_id, 0);
    assert_eq!(r.max_data_packet_payload_size, 255);
    assert_eq!(r.initial_number_of_credits, 255);
    let again = conn_create_response(&reply_of(&mut c, &conn_create_bytes()));
    assert_eq!(again.status, Status::Rejected);
    let close = reply_of(&mut c, &[0x20, 0x05, 0x01, 0x00]);
    assert!(matches!(close[0], Reply::CoreConnCloseResponse(Status::Success)));
    let close = reply_of(&mut c, &[0x20, 0x05, 0x01, 0x00]);
    assert!(matches!(close[0], Reply::CoreConnCloseResponse(Status::Rejected)));
}

#[test]
fn conn_create_rejections() {
    let mut c = Controller::new(0);
    let rf = |id: u8, proto: u8| vec![ConfigParameter { id: 0x00, value: vec![id, proto] }];
    // Loopback and NFCEE destinations are not supported.
    assert_eq!(c.core_conn_create(DestinationType::NfccLoopback, &vec![]).status, Status::Rejected);
    assert_eq!(c.core_conn_create(DestinationType::Nfcee, &rf(1, 4)).status, Status::Rejected);
    // Unknown parameter type, missing protocol, unknown protocol.
    let other = vec![ConfigParameter { id: 0x01, value: vec![1, 4] }];
    assert_eq!(c.core_conn_create(DestinationType::RemoteNfcEndpoint, &other).status, Status::Rejected);
    let short = vec![ConfigParameter { id: 0x00, value: vec![1] }];
    assert_eq!(c.core_conn_create(DestinationType::RemoteNfcEndpoint, &short).status, Status::Rejected);
    assert_eq!(c.core_conn_create(DestinationType::RemoteNfcEndpoint, &rf(1, 9)).status, Status::Rejected);
    // Two slots, then full.
    assert_eq!(c.core_conn_create(DestinationType::RemoteNfcEndpoint, &rf(1, 4)).conn_id, 0);
    let second = c.core_conn_create(DestinationType::RemoteNfcEndpoint, &rf(2, 4));
    assert_eq!((second.status, second.conn_id), (Status::Success, 1));
    let third = c.core_conn_create(DestinationType::RemoteNfcEndpoint, &rf(3, 4));
    assert_eq!(third.status, Status::Rejected);
    assert_eq!(third.max_data_packet_payload_size, 0);
    // Closing slot 0 frees the lowest slot again.
    assert_eq!(c.core_conn_close(0), Status::Success);
    assert_eq!(c.core_conn_create(DestinationType::RemoteNfcEndpoint, &rf(3, 4)).conn_id, 0);
    assert_eq!(c.core_conn_close(MAX_LOGICAL_CONNECTIONS), Status::Rejected);
}

#[test]
fn conn_create_response_bytes() {
    let r = Reply::CoreConnCreateResponse(CoreConnCreateResponse {
        status: Status::Success,
        max_data_packet_payload_size: 255,
        initial_number_of_credits: 255,
        conn_id: 1,
    });
    assert_eq!(r.to_bytes(), vec![0x40, 0x04, 0x04, 0x00, 0xff, 0xff, 0x01]);
}

#[test]
fn init_response_bytes() {
    let c = Controller::new(0);
    let bytes = Reply::CoreInitResponse(c.core_init()).to_bytes();
    assert_eq!(
        bytes,
        vec![
            0x40, 0x01, 0x10, 0x00, 0x00, 0x00, 0x00, 0x00, 0x02, 0x02, 0x00, 0xff, 0xff, 0x00,
            0x02, 0x00, 0x01, 0x03, 0x00
        ]
    );
}

#[test]
fn rf_and_nfcee_stubs() {
    let mut c = Controller::new(0);
    let r = reply_of(&mut c, &[0x21, 0x06, 0x01, 0x03]);
    assert_eq!(r.len(), 2);
    assert!(matches!(r[0], Reply::RfDeactivateResponse(Status::Success)));
    assert!(matches!(
        r[1],
        Reply::RfDeactivateNotification { deactivation_type: 3, deactivation_reason: 0 }
    ));
    assert_eq!(r[1].to_bytes(), vec![0x61, 0x06, 0x02, 0x03, 0x00]);
    let r = reply_of(&mut c, &[0x21, 0x02, 0x00]);
    assert!(matches!(
        r[0],
        Reply::RfGetListenModeRoutingResponse { status: Status::Success, more_to_follow: 0 }
    ));
    let r = reply_of(&mut c, &[0x22, 0x00, 0x00]);
    assert!(matches!(
        r[0],
        Reply::NfceeDiscoverResponse { status: Status::Success, number_of_nfcees: 0 }
    ));
    for b in [[0x21u8, 0x00, 0x00], [0x21, 0x01, 0x00], [0x21, 0x03, 0x00]] {
        let r = reply_of(&mut c, &b);
        assert_eq!(r.len(), 1);
        assert_eq!(r[0].payload(), vec![0x00]);
    }
    let r = reply_of(&mut c, &[0x20, 0x09, 0x01, 0x00]);
    assert!(matches!(r[0], Reply::CoreSetPowerSubStateResponse(Status::Success)));
}

#[test]
fn command_decoding_errors() {
    assert!(matches!(parse_command(&[0x20, 0x00]), Err(CommandError::Truncated)));
    assert!(matches!(parse_command(&[0x40, 0x00, 0x00]), Err(CommandError::NotACommand)));
    assert!(matches!(
        parse_command(&[0x20, 0x07, 0x00]),
        Err(CommandError::Unsupported(Opcode { gid: 0, oid: 7 }))
    ));
    assert!(matches!(
        parse_command(&[0x2f, 0x00, 0x00]),
        Err(CommandError::Unsupported(Opcode { gid: 15, oid: 0 }))
    ));
    assert!(matches!(
        parse_command(&[0x20, 0x00, 0x01, 0x05]),
        Err(CommandError::Malformed(Opcode { gid: 0, oid: 0 }))
    ));
    // A set-config entry longer than the payload.
    assert!(matches!(
        parse_command(&[0x20, 0x02, 0x04, 0x01, 0x00, 0x05, 0x11]),
        Err(CommandError::Malformed(Opcode { gid: 0, oid: 2 }))
    ));
    assert!(matches!(parse_command(&[0x20, 0x05, 0x01, 0x01]), Ok(Command::CoreConnClose(1))));
}

#[test]
fn large_reply_is_segmented() {
    let mut c = Controller::new(0);
    let params = vec![
        ConfigParameter { id: 0x00, value: vec![7; 200] },
        ConfigParameter { id: 0x02, value: vec![8; 200] },
    ];
    c.core_set_config(&params);
    let g = c.core_get_config(&vec![0x00, 0x02]);
    assert_eq!(g.status, Status::Success);
    let bytes = Reply::CoreGetConfigResponse(g).to_bytes();
    // status, count, then two entries of 2 + 200 bytes.
    assert_eq!(bytes.len(), 3 + 2 + 404);
    let frames = segment_frames(&bytes);
    assert_eq!(frames.len(), 2);
    assert_eq!(frames[0][0], 0x50);
    assert_eq!(frames[0][2], 255);
    assert_eq!(frames[1][0], 0x40);
    assert_eq!(frames[1][2], 151);
}

#[test]
fn scene_slots_and_routing() {
    let mut s: Scene<u32> = Scene::new();
    assert_eq!(s.add_device(10), Ok(0));
    assert_eq!(s.add_device(11), Ok(1));
    assert_eq!(s.add_device(12), Err(SceneError::MaxConnectionsReached));
    assert_eq!(s.recipients(0), vec![1]);
    assert_eq!(s.recipients(1), vec![0]);
    assert_eq!(s.remove_device(0), Some(10));
    assert_eq!(s.recipients(1), Vec::<usize>::new());
    assert_eq!(s.device(1), Some(&11));
    assert_eq!(s.device(0), None);
    assert_eq!(s.add_device(13), Ok(0));
    assert_eq!(s.first_free(), None);
    let d = s.remove_device(1).unwrap();
    assert_eq!(s.first_free(), Some(1));
    s.put_device(1, d);
    assert_eq!(s.device(1), Some(&11));
    assert_eq!(s.recipients(0), vec![1]);
}

#[test]
fn rf_names_convert() {
    assert_eq!(RfProtocolType::from(Protocol::IsoDep), RfProtocolType::IsoDep);
    assert_eq!(RfProtocolType::from(Protocol::Ndef), RfProtocolType::Ndef);
    assert_eq!(Protocol::from(RfProtocolType::NfcDep), Protocol::NfcDep);
    assert_eq!(Protocol::from(RfProtocolType::Undetermined), Protocol::Undetermined);
    assert_eq!(Technology::try_from(RfTechnologyAndMode::NfcAPassiveListenMode), Ok(Technology::NfcA));
    assert_eq!(Technology::try_from(RfTechnologyAndMode::NfcVPassivePollMode), Ok(Technology::NfcV));
    assert_eq!(
        Technology::try_from(RfTechnologyAndMode::NfcFActivePollMode),
        Err(RfTechnologyAndMode::NfcFActivePollMode)
    );
}
