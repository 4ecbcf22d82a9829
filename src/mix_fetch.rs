use vstd::prelude::*;

verus! {

/// Why setting up the fetch client failed.
#[derive(Clone, Copy, Debug, PartialEq, Eq, Structural)]
pub enum MixFetchError {
    AlreadyInitialised,
    Uninitialised,
    /// A custom API endpoint was given without a network requester to use with it.
    NoNetworkRequesters,
}

/// The options of the fetch client that need no custom configuration.
pub struct MixFetchOptsSimple {
    pub preferred_gateway: Option<String>,
    pub preferred_network_requester: Option<String>,
    pub storage_passphrase: Option<String>,
}

/// The full options of the fetch client.
pub struct MixFetchOpts {
    pub base: MixFetchOptsSimple,
    pub client_id: Option<String>,
    pub nym_api_url: Option<String>,
    pub nyxd_url: Option<String>,
}

/// The part of the options that goes into the client's configuration.
pub struct MixFetchConfigOpts {
    pub id: Option<String>,
    pub nym_api: Option<String>,
    pub nyxd: Option<String>,
}

/// The view of an optional string.
pub open spec fn opt_view(o: Option<String>) -> Option<Seq<char>> {
    match o {
        Some(s) => Some(s@),
        None => None,
    }
}

fn clone_opt(o: &Option<String>) -> (r: Option<String>)
    ensures
        opt_view(r) == opt_view(*o),
{
    match o {
        Some(s) => Some(s.clone()),
        None => None,
    }
}

impl MixFetchOpts {
    /// The configuration options these options name: client id, API and chain endpoints.
    pub fn config_opts(&self) -> (r: MixFetchConfigOpts)
        ensures
            opt_view(r.id) == opt_view(self.client_id),
            opt_view(r.nym_api) == opt_view(self.nym_api_url),
            opt_view(r.nyxd) == opt_view(self.nyxd_url),
    {
        MixFetchConfigOpts {
            id: clone_opt(&self.client_id),
            nym_api: clone_opt(&self.nym_api_url),
            nyxd: clone_opt(&self.nyxd_url),
        }
    }
}

/// Whether setup may start: the client is not set up yet, and a custom API endpoint comes
/// with a preferred network requester (none can be looked up for such a network).
pub fn check_setup(opts: &MixFetchOpts, initialised: bool) -> (r: Result<(), MixFetchError>)
    ensures
        initialised ==> r == Err::<(), MixFetchError>(MixFetchError::AlreadyInitialised),
        !initialised && opts.nym_api_url is Some && opts.base.preferred_network_requester is None
            ==> r == Err::<(), MixFetchError>(MixFetchError::NoNetworkRequesters),
        r is Ok <==> !initialised && (opts.nym_api_url is None
            || opts.base.preferred_network_requester is Some),
{
    if initialised {
        return Err(MixFetchError::AlreadyInitialised);
    }
    if opts.nym_api_url.is_some() && opts.base.preferred_network_requester.is_none() {
        return Err(MixFetchError::NoNetworkRequesters);
    }
    Ok(())
}

/// A place for the one fetch client of a process: set once, read after.
pub struct ClientSlot<T> {
    pub client: Option<T>,
}

impl<T> ClientSlot<T> {
    pub fn new() -> (r: ClientSlot<T>)
        ensures
            r.client is None,
    {
        ClientSlot { client: None }
    }
}

/// Stores the client; a second one is refused and the first stays.
pub fn set_mix_fetch_client<T>(slot: &mut ClientSlot<T>, client: T) -> (r: Result<(), MixFetchError>)
    ensures
        old(slot).client is Some ==> r == Err::<(), MixFetchError>(MixFetchError::AlreadyInitialised)
            && *final(slot) == *old(slot),
        old(slot).client is None ==> r is Ok && final(slot).client == Some(client),
{
    if slot.client.is_some() {
        return Err(MixFetchError::AlreadyInitialised);
    }
    slot.client = Some(client);
    Ok(())
}

/// The stored client, or `Uninitialised` before one was stored.
pub fn mix_fetch_client<T>(slot: &ClientSlot<T>) -> (r: Result<&T, MixFetchError>)
    ensures
        slot.client is None ==> r == Err::<&T, MixFetchError>(MixFetchError::Uninitialised),
        slot.client matches Some(c) ==> r == Ok::<&T, MixFetchError>(&c),
{
    match &slot.client {
        Some(c) => Ok(c),
        None => Err(MixFetchError::Uninitialised),
    }
}

} // verus!
