//! Startup: open the first image, check that it answers, and install it.

use crate::database::opened;
use crate::database::OpenFault;
use crate::database::Snapshot;
use crate::resolver::get_country_from_ip;
use crate::resolver::reported;
use crate::resolver::resolution;
use crate::resolver::GetCountryFromIpError;
use crate::resolver::Resolution;
use crate::state::AppState;
use vstd::prelude::*;
use vstd::string::*;

verus! {

/// The address that the first snapshot is probed with.
pub const PROBE_ADDRESS: &'static str = "1.1.1.1";

/// Why the service did not start.
#[derive(Debug)]
pub enum StartupFault {
    /// The image did not open.
    DatabaseOpen(OpenFault),
    /// The database did not resolve the probe address.
    SelfCheck(GetCountryFromIpError),
}

/// Resolves the probe address against `snapshot`.
pub fn self_check(snapshot: &Snapshot) -> (r: Result<String, GetCountryFromIpError>)
    ensures
        reported(r) == resolution(PROBE_ADDRESS.spec_bytes(), snapshot@),
{
    get_country_from_ip(PROBE_ADDRESS, snapshot)
}

/// Opens `image`, probes it, and installs it. The service starts only on a
/// database that resolves the probe address; the code found is handed back.
pub fn bootstrap(image: Vec<u8>) -> (r: Result<(AppState, String), StartupFault>)
    ensures
        match opened(image@) {
            None => r matches Err(StartupFault::DatabaseOpen(_)),
            Some(entries) => match resolution(PROBE_ADDRESS.spec_bytes(), entries) {
                Resolution::Country(code) => r matches Ok(started) && started.0.database@
                    == entries && started.1@ == code,
                failed => r matches Err(StartupFault::SelfCheck(cause)) && reported(Err(cause))
                    == failed,
            },
        },
{
    let snapshot = match Snapshot::open(image) {
        Ok(snapshot) => snapshot,
        Err(cause) => {
            return Err(StartupFault::DatabaseOpen(cause));
        },
    };
    match self_check(&snapshot) {
        Ok(code) => Ok((AppState::new(snapshot), code)),
        Err(cause) => Err(StartupFault::SelfCheck(cause)),
    }
}

} // verus!
