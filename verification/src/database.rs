//! The geolocation database: an image opened in memory and queried by address.
//!
//! Opening and querying are the work of the `maxminddb` crate. What it computes
//! is not restated here: the entries that a database holds are a name,
//! `snapshot_entries`, and the contracts of the two calls speak of that name.
//! Everything above the two calls is proved from those contracts.
//!
//! The reader follows record values and pointers through the image without
//! testing them against its length. So an image is handed to it only after
//! `check_image` has found it in order: `sound_image` is what the call that
//! opens requires. A snapshot can be made by that call alone, so every lookup
//! runs on an image that is in order.

use crate::address::IpAddress;
use crate::image::check_image;
use crate::image::sound_image;
use maxminddb::geoip2::Country;
use maxminddb::MaxMindDBError;
use maxminddb::Reader;
use vstd::prelude::*;

verus! {

/// The error type of the `maxminddb` crate. Its variants are hidden from the verifier.
#[verifier::external_type_specification]
#[verifier::external_body]
pub struct ExMaxMindDBError(MaxMindDBError);

/// The country part of a record.
#[derive(Debug)]
pub struct CountryEntry {
    pub iso_code: Option<String>,
}

/// What a database stores for a network, as far as countries go.
#[derive(Debug)]
pub struct CountryRecord {
    pub country: Option<CountryEntry>,
}

/// What a database holds for one address that it covers: a record, or data
/// that cannot be read back, with the error that reading it gives.
pub enum Entry {
    Record(CountryRecord),
    Corrupt(MaxMindDBError),
}

/// The outcome of one lookup.
#[derive(Debug)]
pub enum Lookup {
    Found(CountryRecord),
    Absent,
    Fault(MaxMindDBError),
}

/// Why an image did not open.
#[derive(Debug)]
pub enum OpenFault {
    /// The image is not in order: a reader would leave it.
    Malformed,
    /// The reader refused the image, or the image could not be had at all.
    Reader(MaxMindDBError),
}

/// Whether `lookup` is what a database with the entries `entries` answers for `address`.
pub open spec fn answers(entries: Map<IpAddress, Entry>, address: IpAddress, lookup: Lookup) -> bool {
    match lookup {
        Lookup::Found(record) => entries.dom().contains(address) && entries[address]
            == Entry::Record(record),
        Lookup::Absent => !entries.dom().contains(address),
        Lookup::Fault(cause) => entries.dom().contains(address) && entries[address]
            == Entry::Corrupt(cause),
    }
}

/// One database image held in memory, as `maxminddb::Reader` keeps it. A
/// snapshot never changes once it is opened.
///
/// The reader is generic over its buffer with a bound that the verifier does
/// not know, so the type cannot be declared to it; the whole struct is hidden
/// instead, and `snapshot_entries` stands for what it holds.
#[verifier::external_body]
pub struct Snapshot {
    reader: Reader<Vec<u8>>,
}

/// The entries of a snapshot: for each address that it covers, what it holds.
/// An address outside the domain is one that the search tree does not cover.
pub uninterp spec fn snapshot_entries(snapshot: Snapshot) -> Map<IpAddress, Entry>;

/// The entries of the database that `image` is, and `None` where `image` is
/// no database: what `maxminddb::Reader::from_source` makes of the bytes.
pub uninterp spec fn image_entries(image: Seq<u8>) -> Option<Map<IpAddress, Entry>>;

impl View for Snapshot {
    type V = Map<IpAddress, Entry>;

    open spec fn view(&self) -> Map<IpAddress, Entry> {
        snapshot_entries(*self)
    }
}

/// What opening `image` gives: the entries of the database that it is, where
/// it is in order and the reader takes it.
pub open spec fn opened(image: Seq<u8>) -> Option<Map<IpAddress, Entry>> {
    if sound_image(image) {
        image_entries(image)
    } else {
        None
    }
}

/// Calls `maxminddb::Reader::from_source` on an owned buffer. The call is made
/// only on an image that is in order, on which the reader's steps through the
/// metadata and the search tree stay inside the buffer. The reader is built
/// from the bytes alone, so whether the call succeeds and what the reader then
/// holds depend on nothing but the image: that is all the contract claims.
#[verifier::external_body]
fn snapshot_from_source(image: Vec<u8>) -> (r: Result<Snapshot, MaxMindDBError>)
    requires
        sound_image(image@),
    ensures
        match r {
            Ok(snapshot) => image_entries(image@) == Some(snapshot_entries(snapshot)),
            Err(_) => image_entries(image@) is None,
        },
{
    Ok(Snapshot { reader: Reader::from_source(image)? })
}

/// Calls `maxminddb::Reader::lookup` for a country record, with the address in
/// network byte order. A snapshot holds an image that is in order, so the walk
/// through the tree and the reading of the record stay inside it. The call
/// reads the snapshot and nothing else, so the answer depends on the snapshot
/// and the address alone. The contract claims that, and how the answer is
/// sorted: the crate's "address not found" error is an absent entry, a record
/// is handed on field by field, and every other error is a fault that carries
/// the crate's error.
#[verifier::external_body]
fn snapshot_lookup(snapshot: &Snapshot, address: IpAddress) -> (r: Lookup)
    ensures
        answers(snapshot_entries(*snapshot), address, r),
{
    let found = match address {
        IpAddress::V4(bits) => snapshot.reader.lookup::<Option<Country>>(bits.to_be_bytes().into()),
        IpAddress::V6(bits) => snapshot.reader.lookup::<Option<Country>>(bits.to_be_bytes().into()),
    };
    match found {
        Ok(Some(c)) => Lookup::Found(CountryRecord {
            country: c.country.map(|e| CountryEntry { iso_code: e.iso_code.map(String::from) }),
        }),
        Ok(None) => Lookup::Absent,
        Err(MaxMindDBError::AddressNotFoundError(_)) => Lookup::Absent,
        Err(e) => Lookup::Fault(e),
    }
}

impl Snapshot {
    /// Opens the image of a database. An image that is not in order is refused
    /// before any reader sees it; one that is in order opens exactly where the
    /// reader takes it.
    pub fn open(image: Vec<u8>) -> (r: Result<Snapshot, OpenFault>)
        ensures
            match r {
                Ok(snapshot) => opened(image@) == Some(snapshot@),
                Err(OpenFault::Malformed) => !sound_image(image@),
                Err(OpenFault::Reader(_)) => sound_image(image@) && image_entries(image@) is None,
            },
    {
        if !check_image(image.as_slice()) {
            return Err(OpenFault::Malformed);
        }
        match snapshot_from_source(image) {
            Ok(snapshot) => Ok(snapshot),
            Err(cause) => Err(OpenFault::Reader(cause)),
        }
    }

    /// Looks `address` up: the record that the snapshot holds for it, the fault
    /// where what it holds cannot be read, or that it holds nothing.
    pub fn lookup(&self, address: IpAddress) -> (r: Lookup)
        ensures
            answers(self@, address, r),
    {
        snapshot_lookup(self, address)
    }
}

} // verus!
