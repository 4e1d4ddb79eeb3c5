//! Resolution of an address text to a country code against one snapshot.

use crate::address::address_of;
use crate::address::IpAddress;
use crate::database::CountryRecord;
use crate::database::Entry;
use crate::database::Lookup;
use crate::database::Snapshot;
use crate::parse::parse_ip;
use maxminddb::MaxMindDBError;
use vstd::prelude::*;
use vstd::string::*;

verus! {

/// Why a text did not resolve to a country.
#[derive(Debug)]
pub enum GetCountryFromIpError {
    /// The database failed on the lookup; the cause is carried along.
    MaxMindDbError(MaxMindDBError),
    /// The text is not the text of an address.
    AddrParseError,
    /// The database holds no country for the address.
    NoCountryFound,
}

/// What resolving a text against a database comes to.
pub enum Resolution {
    Country(Seq<char>),
    InvalidAddress,
    DatabaseFault(MaxMindDBError),
    NotFound,
}

/// The country code that a record states, if it states one.
pub open spec fn record_code(record: CountryRecord) -> Option<String> {
    match record.country {
        Some(entry) => entry.iso_code,
        None => None,
    }
}

/// The resolution of the text `text` against a database that holds `entries`:
/// a text that is no address is invalid; an address that the database does not
/// cover, or whose record states no country code, is not found; data that
/// cannot be read is a fault, with the error that reading it gives.
pub open spec fn resolution(text: Seq<u8>, entries: Map<IpAddress, Entry>) -> Resolution {
    match address_of(text) {
        None => Resolution::InvalidAddress,
        Some(address) => if !entries.dom().contains(address) {
            Resolution::NotFound
        } else {
            match entries[address] {
                Entry::Corrupt(cause) => Resolution::DatabaseFault(cause),
                Entry::Record(record) => match record_code(record) {
                    Some(code) => Resolution::Country(code@),
                    None => Resolution::NotFound,
                },
            }
        },
    }
}

/// The resolution that a result reports.
pub open spec fn reported(result: Result<String, GetCountryFromIpError>) -> Resolution {
    match result {
        Ok(code) => Resolution::Country(code@),
        Err(GetCountryFromIpError::AddrParseError) => Resolution::InvalidAddress,
        Err(GetCountryFromIpError::MaxMindDbError(cause)) => Resolution::DatabaseFault(cause),
        Err(GetCountryFromIpError::NoCountryFound) => Resolution::NotFound,
    }
}

/// The result that a lookup's outcome comes to.
pub open spec fn country_of_lookup(lookup: Lookup) -> Result<String, GetCountryFromIpError> {
    match lookup {
        Lookup::Found(record) => match record_code(record) {
            Some(code) => Ok(code),
            None => Err(GetCountryFromIpError::NoCountryFound),
        },
        Lookup::Absent => Err(GetCountryFromIpError::NoCountryFound),
        Lookup::Fault(cause) => Err(GetCountryFromIpError::MaxMindDbError(cause)),
    }
}

/// Turns the outcome of a lookup into a country code or the reason why there is none.
pub fn country_of(lookup: Lookup) -> (r: Result<String, GetCountryFromIpError>)
    ensures
        r == country_of_lookup(lookup),
{
    match lookup {
        Lookup::Found(record) => match record.country {
            Some(entry) => match entry.iso_code {
                Some(code) => Ok(code),
                None => Err(GetCountryFromIpError::NoCountryFound),
            },
            None => Err(GetCountryFromIpError::NoCountryFound),
        },
        Lookup::Absent => Err(GetCountryFromIpError::NoCountryFound),
        Lookup::Fault(cause) => Err(GetCountryFromIpError::MaxMindDbError(cause)),
    }
}

/// Resolves the text `ip` against `database`. The result is fixed by the text
/// and by what the database holds, down to the cause that a fault carries.
pub fn get_country_from_ip(ip: &str, database: &Snapshot) -> (r: Result<
    String,
    GetCountryFromIpError,
>)
    ensures
        reported(r) == resolution(ip.spec_bytes(), database@),
        r matches Err(GetCountryFromIpError::MaxMindDbError(cause)) ==> database@[address_of(
            ip.spec_bytes(),
        ).unwrap()] == Entry::Corrupt(cause),
{
    let address = match parse_ip(ip) {
        Some(address) => address,
        None => {
            return Err(GetCountryFromIpError::AddrParseError);
        },
    };
    country_of(database.lookup(address))
}

/// A text that is no address resolves to nothing but `InvalidAddress`, whatever
/// the database holds.
pub proof fn lemma_invalid_text_is_rejected(text: Seq<u8>, entries: Map<IpAddress, Entry>)
    requires
        address_of(text) is None,
    ensures
        resolution(text, entries) == Resolution::InvalidAddress,
{
}

/// The text of an address for which the database holds a record with a country
/// code resolves to exactly that code.
pub proof fn lemma_mapped_address_resolves_to_its_code(
    text: Seq<u8>,
    entries: Map<IpAddress, Entry>,
    address: IpAddress,
    record: CountryRecord,
    code: String,
)
    requires
        address_of(text) == Some(address),
        entries.dom().contains(address),
        entries[address] == Entry::Record(record),
        record_code(record) == Some(code),
    ensures
        resolution(text, entries) == Resolution::Country(code@),
{
}

/// Resolution depends on the text and on what the database holds, and on
/// nothing else: two results for one text against databases that hold the same
/// report the same.
pub proof fn lemma_resolution_is_deterministic(
    text: Seq<u8>,
    first: Snapshot,
    second: Snapshot,
    a: Result<String, GetCountryFromIpError>,
    b: Result<String, GetCountryFromIpError>,
)
    requires
        first@ == second@,
        reported(a) == resolution(text, first@),
        reported(b) == resolution(text, second@),
    ensures
        reported(a) == reported(b),
{
}

} // verus!
