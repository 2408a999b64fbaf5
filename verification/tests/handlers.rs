use arproxy_macfilter_agent::address::{Ipv4Address, MacAddress};
use arproxy_macfilter_agent::config::{AdministrationConfig, ArpProxyConfig, Config};
use arproxy_macfilter_agent::networks::{NetworkError, PacketListener, PacketSender};
use arproxy_macfilter_agent::repositories::allowed_mac::{
    add_all, AllowedMacRepository, AllowedMacRepositoryForMemory, AllowedMacs,
};
use arproxy_macfilter_agent::repositories::arplog::{
    ArpLog, ArpLogRepository, ArpLogRepositoryForMemory, Records,
};
use arproxy_macfilter_agent::repositories::config::ConfigRepositoryForMemory;
use arproxy_macfilter_agent::repositories::RepositoryError;
use arproxy_macfilter_agent::web::api::handlers::{
    add_allowedmac, add_parsed, all_allowedmac, delete_allowedmac, delete_parsed, StatusCode,
    ValidatedJson,
};
use arproxy_macfilter_agent::web::api::schema::{
    AllowedMacDeleteSchema, AllowedMacPostResponseSchema, AllowedMacPostSchema, AllowedMacSchema,
    Validate,
};

fn create_dummy_allowedmac_repo() -> AllowedMacRepositoryForMemory {
    let mut repo = AllowedMacRepositoryForMemory::new();
    repo.add(MacAddress::new(2, 0, 0, 0, 0xf, 1)).expect("SyncErr");
    repo.add(MacAddress::new(2, 0, 0, 0, 0xf, 2)).expect("SyncErr");
    repo.add(MacAddress::new(2, 0, 0, 0, 0xf, 3)).expect("SyncErr");
    repo
}

/// Decodes a request body as the administration interface does: a JSON
/// object whose `mac_address` is a string.
fn decode(body: &[u8]) -> Option<AllowedMacSchema> {
    let value: serde_json::Value = serde_json::from_slice(body).ok()?;
    let text = value.as_object()?.get("mac_address")?.as_str()?;
    Some(AllowedMacSchema {
        mac_address: text.to_string(),
    })
}

fn parse(text: &str) -> MacAddress {
    let m: pnet::util::MacAddr = text.parse().unwrap();
    MacAddress::new(m.0, m.1, m.2, m.3, m.4, m.5)
}

#[test]
fn should_getall_allowedmac() {
    let repo = create_dummy_allowedmac_repo();
    let (status, maddrs_str) = all_allowedmac(&repo).unwrap();
    assert_eq!(status, StatusCode::Success);
    assert_eq!(status.as_u16(), 200);
    let maddrs: Vec<MacAddress> = maddrs_str.iter().map(|m| parse(m)).collect();
    assert_eq!(maddrs.len(), 3);
    assert!(maddrs.contains(&MacAddress::new(2, 0, 0, 0, 0xf, 1)));
    assert!(maddrs.contains(&MacAddress::new(2, 0, 0, 0, 0xf, 2)));
    assert!(maddrs.contains(&MacAddress::new(2, 0, 0, 0, 0xf, 3)));
}

#[test]
fn should_add_allowedmac() {
    let mut repo = create_dummy_allowedmac_repo();
    let req_body = AllowedMacPostSchema {
        mac_address: pnet::util::MacAddr::new(2, 0, 0, 0, 0xf, 5).to_string(),
    };
    let payload = ValidatedJson::from_request(Some(req_body.clone())).unwrap();
    let (status, res_body): (StatusCode, AllowedMacPostResponseSchema) =
        add_allowedmac(&mut repo, &payload).unwrap();
    assert_eq!(status, StatusCode::Created);
    assert_eq!(status.as_u16(), 201);
    res_body.validate().expect("Unexpected response");
    assert_eq!(res_body, req_body);
    let maddrs = repo.getall().unwrap();
    assert_eq!(maddrs.len(), 4);
    assert!(maddrs.contains(&MacAddress::new(2, 0, 0, 0, 0xf, 1)));
    assert!(maddrs.contains(&MacAddress::new(2, 0, 0, 0, 0xf, 2)));
    assert!(maddrs.contains(&MacAddress::new(2, 0, 0, 0, 0xf, 3)));
    assert!(maddrs.contains(&MacAddress::new(2, 0, 0, 0, 0xf, 5)));
}

#[test]
fn should_delete_allowedmac() {
    let mut repo = create_dummy_allowedmac_repo();
    let req_body = AllowedMacDeleteSchema {
        mac_address: pnet::util::MacAddr::new(2, 0, 0, 0, 0xf, 2).to_string(),
    };
    let payload = ValidatedJson::from_request(Some(req_body)).unwrap();
    let status = delete_allowedmac(&mut repo, &payload).unwrap();
    assert_eq!(status, StatusCode::NoContent);
    assert_eq!(status.as_u16(), 204);
    let maddrs = repo.getall().unwrap();
    assert_eq!(maddrs.len(), 2);
    assert!(maddrs.contains(&MacAddress::new(2, 0, 0, 0, 0xf, 1)));
    assert!(!maddrs.contains(&MacAddress::new(2, 0, 0, 0, 0xf, 2)));
    assert!(maddrs.contains(&MacAddress::new(2, 0, 0, 0, 0xf, 3)));
}

#[test]
fn invalid_input_allowedmac() {
    let repo = create_dummy_allowedmac_repo();
    // not JSON, and not a hardware address
    let req_bodys = vec![
        "{ maddr: true }".to_string().into_bytes(),
        r#"{ "mac_address": "hello, world" }"#.to_string().into_bytes(),
    ];
    let texts = ["Json parse error.", "Invalid schema"];
    for (req_body, text) in req_bodys.iter().zip(texts) {
        match ValidatedJson::<AllowedMacDeleteSchema>::from_request(decode(req_body)) {
            Err((status, why)) => {
                assert_eq!(status, StatusCode::BadRequest);
                assert_eq!(status.as_u16(), 400);
                assert_eq!(why, text);
            }
            Ok(_) => panic!("accepted"),
        }
    }
    for (req_body, text) in req_bodys.iter().zip(texts) {
        match ValidatedJson::<AllowedMacPostSchema>::from_request(decode(req_body)) {
            Err((status, why)) => {
                assert_eq!(status, StatusCode::BadRequest);
                assert_eq!(why, text);
            }
            Ok(_) => panic!("accepted"),
        }
    }
    // the allowlist is as it was
    let maddrs = repo.getall().unwrap();
    assert_eq!(maddrs.len(), 3);
    assert!(maddrs.contains(&MacAddress::new(2, 0, 0, 0, 0xf, 1)));
    assert!(maddrs.contains(&MacAddress::new(2, 0, 0, 0, 0xf, 2)));
    assert!(maddrs.contains(&MacAddress::new(2, 0, 0, 0, 0xf, 3)));
}

#[test]
fn decoded_and_valid_payload_is_accepted() {
    let body = br#"{ "mac_address": "02:00:00:00:0F:05" }"#;
    let accepted = ValidatedJson::<AllowedMacPostSchema>::from_request(decode(body)).unwrap();
    assert_eq!(accepted.0.mac_address, "02:00:00:00:0F:05");
}

#[test]
fn a_payload_that_names_no_address_is_a_bad_request() {
    let mut repo = create_dummy_allowedmac_repo();
    let payload = ValidatedJson(AllowedMacSchema {
        mac_address: "hello, world".to_string(),
    });
    assert_eq!(add_allowedmac(&mut repo, &payload), Err(StatusCode::BadRequest));
    assert_eq!(delete_allowedmac(&mut repo, &payload), Err(StatusCode::BadRequest));
    assert_eq!(add_parsed(&mut repo, None), Err(StatusCode::BadRequest));
    assert_eq!(delete_parsed(&mut repo, None), Err(StatusCode::BadRequest));
    assert_eq!(repo.getall().unwrap().len(), 3);
}

#[test]
fn addresses_are_written_in_lower_case_with_two_digits_a_byte() {
    let mut repo = AllowedMacRepositoryForMemory::new();
    let addr = MacAddress::new(0x00, 0x0a, 0xA0, 0xff, 0x9f, 0x10);
    let (status, body) = add_parsed(&mut repo, Some(addr)).unwrap();
    assert_eq!(status, StatusCode::Created);
    assert_eq!(body.mac_address, "00:0a:a0:ff:9f:10");
    body.validate().unwrap();
    assert_eq!(
        all_allowedmac(&repo),
        Ok((StatusCode::Success, vec!["00:0a:a0:ff:9f:10".to_string()]))
    );
    assert_eq!(delete_parsed(&mut repo, Some(addr)), Ok(StatusCode::NoContent));
    assert_eq!(all_allowedmac(&repo), Ok((StatusCode::Success, Vec::new())));
    // deleting what is not there is no error
    assert_eq!(delete_parsed(&mut repo, Some(addr)), Ok(StatusCode::NoContent));
}

#[test]
fn upper_case_payload_is_answered_in_lower_case() {
    let mut repo = AllowedMacRepositoryForMemory::new();
    let payload = ValidatedJson(AllowedMacSchema {
        mac_address: "02:AB:CD:EF:09:00".to_string(),
    });
    let (_, body) = add_allowedmac(&mut repo, &payload).unwrap();
    assert_eq!(body.mac_address, "02:ab:cd:ef:09:00");
    assert_eq!(
        repo.contains(&MacAddress::new(0x02, 0xab, 0xcd, 0xef, 0x09, 0x00)),
        Ok(true)
    );
}

/// An allowlist that cannot be reached.
struct BrokenAllowedMacs;

impl AllowedMacRepository for BrokenAllowedMacs {
    fn well_formed(&self) -> bool {
        unreachable!()
    }

    fn infallible(&self) -> bool {
        unreachable!()
    }

    fn macs(&self) -> AllowedMacs {
        unreachable!()
    }

    fn contains(&self, _address: &MacAddress) -> Result<bool, RepositoryError> {
        Err(RepositoryError::SyncFailed)
    }

    fn getall(&self) -> Result<Vec<MacAddress>, RepositoryError> {
        Err(RepositoryError::SyncFailed)
    }

    fn add(&mut self, _address: MacAddress) -> Result<MacAddress, RepositoryError> {
        Err(RepositoryError::SyncFailed)
    }

    fn remove(&mut self, _address: &MacAddress) -> Result<(), RepositoryError> {
        Err(RepositoryError::SyncFailed)
    }

    fn clear(&mut self) -> Result<(), RepositoryError> {
        Err(RepositoryError::SyncFailed)
    }
}

/// A cache that cannot be reached.
struct BrokenArpLog;

impl ArpLogRepository for BrokenArpLog {
    fn well_formed(&self) -> bool {
        unreachable!()
    }

    fn infallible(&self) -> bool {
        unreachable!()
    }

    fn records(&self) -> Records {
        unreachable!()
    }

    fn put(&mut self, _arplog: ArpLog) -> Result<(), RepositoryError> {
        Err(RepositoryError::SyncFailed)
    }

    fn getall_autoclear(&mut self, _duration: u64, _now: u64) -> Result<Vec<ArpLog>, RepositoryError> {
        Err(RepositoryError::SyncFailed)
    }

    fn getall_without_autoclear(&self) -> Result<Vec<ArpLog>, RepositoryError> {
        Err(RepositoryError::SyncFailed)
    }

    fn clear(&mut self) -> Result<(), RepositoryError> {
        Err(RepositoryError::SyncFailed)
    }
}

#[test]
fn a_failing_allowlist_is_an_internal_server_error() {
    let mut repo = BrokenAllowedMacs;
    let addr = MacAddress::new(2, 0, 0, 0, 0xf, 5);
    assert_eq!(add_parsed(&mut repo, Some(addr)), Err(StatusCode::InternalServerError));
    assert_eq!(delete_parsed(&mut repo, Some(addr)), Err(StatusCode::InternalServerError));
    assert_eq!(all_allowedmac(&repo), Err(StatusCode::InternalServerError));
    assert_eq!(StatusCode::InternalServerError.as_u16(), 500);
    assert_eq!(add_all(&mut repo, &vec![addr]), Err(RepositoryError::SyncFailed));
    assert_eq!(add_all(&mut repo, &Vec::new()), Ok(()));
}

fn config(proxy_allowed_macs: bool) -> ConfigRepositoryForMemory {
    ConfigRepositoryForMemory::new(Config {
        interface: "eth0".to_string(),
        allowed_mac_list: None,
        arp_proxy: ArpProxyConfig {
            proxy_allowed_macs,
            arp_reply_interval: 1,
            arp_reply_duration: 3,
        },
        administration: AdministrationConfig {
            enable_api: false,
            listen_address: Ipv4Address::new(127, 0, 0, 1),
            listen_port: 8080,
        },
    })
}

fn request() -> Vec<u8> {
    let mut f = Vec::new();
    f.extend_from_slice(&[0xff; 6]);
    f.extend_from_slice(&[0xaa; 6]);
    f.extend_from_slice(&[0x08, 0x06, 0x00, 0x01, 0x08, 0x00, 0x06, 0x04, 0x00, 0x01]);
    f.extend_from_slice(&[0xaa; 6]);
    f.extend_from_slice(&[10, 0, 0, 5]);
    f.extend_from_slice(&[0; 6]);
    f.extend_from_slice(&[10, 0, 0, 1]);
    f
}

#[test]
fn a_failing_store_fails_the_frame_and_leaves_the_cache() {
    let local = MacAddress::new(0xbb, 0xbb, 0xbb, 0xbb, 0xbb, 0xbb);
    let l = PacketListener::new(local, PacketSender::new(local));

    // the allowlist fails: nothing is recorded
    let mut arplog = ArpLogRepositoryForMemory::new();
    let r = l.handle_frame(&config(false), &BrokenAllowedMacs, &mut arplog, &request(), 1);
    assert!(matches!(
        r,
        Err(NetworkError::StoreError(RepositoryError::SyncFailed))
    ));
    assert_eq!(arplog.getall_without_autoclear().unwrap(), Vec::new());

    // the allowlist is not asked where every sender is answered
    let r = l.handle_frame(&config(true), &BrokenAllowedMacs, &mut arplog, &request(), 1);
    assert!(matches!(r, Ok(Some(_))));
    assert_eq!(arplog.getall_without_autoclear().unwrap().len(), 1);

    // the cache fails
    let allowed = AllowedMacRepositoryForMemory::new();
    let mut broken = BrokenArpLog;
    let r = l.handle_frame(&config(false), &allowed, &mut broken, &request(), 1);
    assert!(matches!(
        r,
        Err(NetworkError::StoreError(RepositoryError::SyncFailed))
    ));
    assert_eq!(
        l.packet_sender.resend_tick(&config(false), &mut broken, 1),
        Err(RepositoryError::SyncFailed)
    );
    // a frame that asks nothing of the stores is handled all the same
    let r = l.handle_frame(&config(false), &BrokenAllowedMacs, &mut broken, &request()[..10], 1);
    assert!(matches!(r, Err(NetworkError::UnitSizeError(_))));
}
