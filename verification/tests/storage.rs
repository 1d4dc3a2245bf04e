use esp_radar::protocol::node;
use esp_radar::receiver::link::{
    after_poll, resolve_role, role_name, rx_link_for, Association, POLL_STEPS,
};
use esp_radar::storage::nvs::{
    after_erase_key, after_init, after_length_query, after_open, after_recovery_step,
    after_transfer, keys_to_clear, link_key, NvsCode, NvsError, TakeStep, KEY_CONFIG,
};
use esp_radar::storage::{RadarConfig, RxLink, CONFIG_VERSION};

#[test]
fn config_defaults_are_sane() {
    let c = RadarConfig::default();
    assert_eq!(c.version, CONFIG_VERSION);
    assert_eq!(c.channel, 6);
    assert_eq!(c.tx_rate_hz, 200);
    assert_eq!(c.tx_power_db, 0);
    assert_eq!(c.node_role, 0);
    assert_eq!(c.antenna_offset_txrx1_mm, 0);
}

#[test]
fn config_roundtrip_default() {
    let c = RadarConfig::default();
    let bytes = c.to_bytes();
    assert_eq!(bytes.len(), RadarConfig::SERIALIZED_LEN);
    assert_eq!(RadarConfig::from_bytes(&bytes), c);
}

#[test]
fn config_roundtrip_nondefault() {
    let c = RadarConfig {
        version: 1,
        channel: 11,
        tx_rate_hz: 500,
        report_every: 50,
        pair_tolerance: 32,
        tx_power_db: 20,
        node_role: node::TX,
        antenna_offset_txrx1_mm: 55,
        antenna_offset_txrx2_mm: 42,
        csi_shift: 1,
        sim_mode: 1,
        reserved: [7, 8],
    };
    let bytes = c.to_bytes();
    assert_eq!(RadarConfig::from_bytes(&bytes), c);
}

#[test]
fn config_byte_layout_is_backward_compatible() {
    let legacy = [
        0x01, 0x00, 0x00, 0x00, //
        0x06, //
        0xc8, 0x00, //
        0x14, 0x00, //
        0x0a, 0x00, //
        0x00, //
        0x03, //
        0x00, 0x00, 0x00, 0x00, //
        0x00, //
        0x00, 0x00, 0x00,
    ];
    assert_eq!(legacy.len(), 21);
    let c = RadarConfig::from_bytes(&legacy);
    assert_eq!(c.sim_mode, 0);
    assert_eq!(c.node_role, node::RX2);
    assert_eq!(c.channel, 6);
    let mut sim = legacy;
    sim[18] = 1;
    let c2 = RadarConfig::from_bytes(&sim);
    assert_eq!(c2.sim_mode, 1);
    assert_eq!(c2.reserved, [0, 0]);
}

#[test]
fn config_short_blob_falls_back_to_defaults() {
    let short = [0x01, 0x00, 0x00, 0x00];
    let c = RadarConfig::from_bytes(&short);
    assert_eq!(c.channel, 6);
    assert_eq!(c.version, CONFIG_VERSION);
}

#[test]
fn rx_link_maps_to_protocol_nodes() {
    assert_eq!(RxLink::Rx1.node_id(), node::RX1);
    assert_eq!(RxLink::Rx2.node_id(), node::RX2);
}

#[test]
fn nvs_codes_become_errors() {
    assert_eq!(after_init(NvsCode::Success, false), Ok(TakeStep::Open));
    assert_eq!(after_init(NvsCode::NoFreePages(4362), true), Ok(TakeStep::EraseAndRetry));
    assert_eq!(after_init(NvsCode::NewVersionFound(4368), true), Ok(TakeStep::EraseAndRetry));
    assert_eq!(after_init(NvsCode::NoFreePages(4362), false), Err(NvsError::Init(4362)));
    assert_eq!(after_init(NvsCode::Other(-1), true), Err(NvsError::Init(-1)));
    assert_eq!(after_recovery_step(NvsCode::Other(5)), Err(NvsError::Init(5)));
    assert_eq!(after_open(NvsCode::Other(6)), Err(NvsError::Open(6)));
    assert_eq!(after_length_query(NvsCode::NotFound(4354), 0, 21), Err(NvsError::NotFound));
    assert_eq!(
        after_length_query(NvsCode::Success, 20, 21),
        Err(NvsError::SizeMismatch { expected: 21, actual: 20 })
    );
    assert_eq!(after_length_query(NvsCode::Success, 21, 21), Ok(()));
    assert_eq!(after_transfer(NvsCode::Success), Ok(()));
    assert_eq!(after_erase_key(NvsCode::NotFound(4354)), Ok(()));
}

#[test]
fn nvs_errors_have_messages() {
    assert!(NvsError::SizeMismatch { expected: 21, actual: 20 }.text().contains("21"));
    assert!(!NvsError::NotFound.text().is_empty());
    assert_ne!(NvsError::Init(1).text(), NvsError::Open(1).text());
}

#[test]
fn keys_belong_to_links() {
    assert_ne!(link_key(RxLink::Rx1), link_key(RxLink::Rx2));
    let keys = keys_to_clear();
    assert!(keys.contains(&link_key(RxLink::Rx1)));
    assert!(keys.contains(&KEY_CONFIG));
    assert_eq!(keys.len(), 5);
}

#[test]
fn roles_resolve_once() {
    assert_eq!(rx_link_for(node::RX1), Some(RxLink::Rx1));
    assert_eq!(rx_link_for(node::RX2), Some(RxLink::Rx2));
    assert_eq!(rx_link_for(node::TX), None);
    assert_eq!(role_name(node::RX1), "RADAR-RX1");

    let mut config = RadarConfig::default();
    let r = resolve_role(&mut config, false);
    assert!(r.inferred);
    let again = resolve_role(&mut config, true);
    assert!(!again.inferred);
    assert_eq!(again.node_id, r.node_id);
}

#[test]
fn association_is_retried_in_rounds() {
    assert_eq!(after_poll(true, 0), Association::Done);
    assert_eq!(after_poll(false, 1), Association::Wait);
    assert_eq!(after_poll(false, POLL_STEPS), Association::Reconnect);
}
