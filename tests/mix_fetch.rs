use coconut_dkg::mix_fetch::{
    check_setup, mix_fetch_client, set_mix_fetch_client, ClientSlot, MixFetchError, MixFetchOpts,
    MixFetchOptsSimple,
};

fn opts(api: Option<&str>, requester: Option<&str>) -> MixFetchOpts {
    MixFetchOpts {
        base: MixFetchOptsSimple {
            preferred_gateway: None,
            preferred_network_requester: requester.map(|s| s.to_string()),
            storage_passphrase: None,
        },
        client_id: Some("client".to_string()),
        nym_api_url: api.map(|s| s.to_string()),
        nyxd_url: None,
    }
}

#[test]
fn setup_checks() {
    assert_eq!(check_setup(&opts(None, None), false), Ok(()));
    assert_eq!(check_setup(&opts(Some("http://api"), Some("nr")), false), Ok(()));
    assert_eq!(
        check_setup(&opts(Some("http://api"), None), false),
        Err(MixFetchError::NoNetworkRequesters)
    );
    assert_eq!(check_setup(&opts(None, None), true), Err(MixFetchError::AlreadyInitialised));
}

#[test]
fn config_opts_copy_fields() {
    let c = opts(Some("http://api"), None).config_opts();
    assert_eq!(c.id.as_deref(), Some("client"));
    assert_eq!(c.nym_api.as_deref(), Some("http://api"));
    assert_eq!(c.nyxd, None);
}

#[test]
fn client_slot_set_once() {
    let mut slot: ClientSlot<u32> = ClientSlot::new();
    assert_eq!(mix_fetch_client(&slot), Err(MixFetchError::Uninitialised));
    assert_eq!(set_mix_fetch_client(&mut slot, 5), Ok(()));
    assert_eq!(set_mix_fetch_client(&mut slot, 6), Err(MixFetchError::AlreadyInitialised));
    assert_eq!(mix_fetch_client(&slot), Ok(&5));
}
