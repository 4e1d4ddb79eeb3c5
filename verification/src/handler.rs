//! The answers to requests: what is sent back, and what is reported on the
//! server's side.

use crate::address::address_of;
use crate::database::Snapshot;
use crate::resolver::get_country_from_ip;
use crate::resolver::reported;
use crate::resolver::resolution;
use crate::resolver::GetCountryFromIpError;
use crate::resolver::Resolution;
use vstd::prelude::*;
use vstd::string::*;

verus! {

/// The payload of the informational endpoint.
pub const GREETING: &'static str = "Se Deus quiser, há-de brilhar
De novo a Coroa sobre as Lusas armas
Que a nossa Pátria soube, sempre honrar
Que a nossa Pátria soube, sempre honrar";

/// The body sent for a text that is no address.
pub const INVALID_ADDRESS_BODY: &'static str = "IP is not valid";

/// The body sent for every fault on the server's side.
pub const SERVER_FAULT_BODY: &'static str = "Internal server error";

/// The status of a successful resolution and of the informational endpoint.
pub const STATUS_OK: u16 = 200;

/// The status for a text that is no address.
pub const STATUS_NOT_FOUND: u16 = 404;

/// The status for every fault on the server's side.
pub const STATUS_SERVER_FAULT: u16 = 500;

/// The body of a successful resolution, sent as a JSON object.
#[derive(Debug)]
pub struct CountryResponse {
    pub country: String,
}

/// The body of a reply.
#[derive(Debug)]
pub enum ReplyBody {
    Json(CountryResponse),
    Text(&'static str),
}

/// A fault that is reported on the server's side and not to the client.
#[derive(Debug)]
pub enum RequestFault {
    /// The holder of the snapshot could not be accessed.
    HandleAcquisition,
    /// The resolution failed on a valid address.
    Resolution(GetCountryFromIpError),
}

/// What a request is answered with.
#[derive(Debug)]
pub struct Reply {
    pub status: u16,
    pub body: ReplyBody,
    /// The fault to report on the server's side, if there is one.
    pub report: Option<RequestFault>,
}

/// The body of a reply, as text.
pub enum BodyModel {
    Country(Seq<char>),
    Text(Seq<char>),
}

/// A reply with its body as text.
pub struct ReplyModel {
    pub status: u16,
    pub body: BodyModel,
    pub report: Option<RequestFault>,
}

impl View for Reply {
    type V = ReplyModel;

    open spec fn view(&self) -> ReplyModel {
        ReplyModel {
            status: self.status,
            body: match self.body {
                ReplyBody::Json(response) => BodyModel::Country(response.country@),
                ReplyBody::Text(text) => BodyModel::Text(text@),
            },
            report: self.report,
        }
    }
}

/// The reply to every fault on the server's side: the same body whatever the cause.
pub open spec fn server_fault(cause: RequestFault) -> ReplyModel {
    ReplyModel {
        status: STATUS_SERVER_FAULT,
        body: BodyModel::Text(SERVER_FAULT_BODY@),
        report: Some(cause),
    }
}

/// The reply to a request. `resolution` is what the text resolved to, or `None`
/// where the holder of the snapshot could not be accessed. What is reported on
/// the server's side is the cause of the fault and of no other.
pub open spec fn reply_for(resolution: Option<Resolution>) -> ReplyModel {
    match resolution {
        None => server_fault(RequestFault::HandleAcquisition),
        Some(Resolution::Country(code)) => ReplyModel {
            status: STATUS_OK,
            body: BodyModel::Country(code),
            report: None,
        },
        Some(Resolution::InvalidAddress) => ReplyModel {
            status: STATUS_NOT_FOUND,
            body: BodyModel::Text(INVALID_ADDRESS_BODY@),
            report: None,
        },
        Some(Resolution::DatabaseFault(cause)) => server_fault(
            RequestFault::Resolution(GetCountryFromIpError::MaxMindDbError(cause)),
        ),
        Some(Resolution::NotFound) => server_fault(
            RequestFault::Resolution(GetCountryFromIpError::NoCountryFound),
        ),
    }
}

/// The informational endpoint: always the same payload.
pub fn hello() -> (r: Reply)
    ensures
        r.status == STATUS_OK,
        r.body == ReplyBody::Text(GREETING),
        r.report is None,
{
    Reply { status: STATUS_OK, body: ReplyBody::Text(GREETING), report: None }
}

/// The reply where the holder of the snapshot could not be accessed.
pub fn unavailable() -> (r: Reply)
    ensures
        r@ == reply_for(None),
{
    Reply {
        status: STATUS_SERVER_FAULT,
        body: ReplyBody::Text(SERVER_FAULT_BODY),
        report: Some(RequestFault::HandleAcquisition),
    }
}

/// The reply to the result of a resolution.
pub fn respond(outcome: Result<String, GetCountryFromIpError>) -> (r: Reply)
    ensures
        r@ == reply_for(Some(reported(outcome))),
        outcome matches Ok(code) ==> r.body == ReplyBody::Json(CountryResponse { country: code }),
{
    match outcome {
        Ok(country) => Reply {
            status: STATUS_OK,
            body: ReplyBody::Json(CountryResponse { country }),
            report: None,
        },
        Err(GetCountryFromIpError::AddrParseError) => Reply {
            status: STATUS_NOT_FOUND,
            body: ReplyBody::Text(INVALID_ADDRESS_BODY),
            report: None,
        },
        Err(cause) => Reply {
            status: STATUS_SERVER_FAULT,
            body: ReplyBody::Text(SERVER_FAULT_BODY),
            report: Some(RequestFault::Resolution(cause)),
        },
    }
}

/// Answers a request for the country of the text `ip`. `database` is the
/// current snapshot, or `None` where the holder could not be accessed. Status,
/// body and what is reported are fixed by the text and the snapshot.
pub fn echo(ip: &str, database: Option<&Snapshot>) -> (r: Reply)
    ensures
        r@ == reply_for(
            match database {
                Some(snapshot) => Some(resolution(ip.spec_bytes(), snapshot@)),
                None => None,
            },
        ),
        match database {
            Some(snapshot) => match r.report {
                None => true,
                Some(RequestFault::Resolution(cause)) => !(cause is AddrParseError) && reported(
                    Err(cause),
                ) == resolution(ip.spec_bytes(), snapshot@),
                Some(RequestFault::HandleAcquisition) => false,
            },
            None => r.report == Some(RequestFault::HandleAcquisition),
        },
{
    match database {
        Some(snapshot) => respond(get_country_from_ip(ip, snapshot)),
        None => unavailable(),
    }
}

/// A text that is no address is answered with "not found" where the snapshot
/// could be read, and never with success.
pub proof fn lemma_invalid_text_is_not_found(text: Seq<u8>, snapshot: Option<Snapshot>)
    requires
        address_of(text) is None,
    ensures
        snapshot matches Some(s) ==> reply_for(Some(resolution(text, s@))).status
            == STATUS_NOT_FOUND,
        reply_for(
            match snapshot {
                Some(s) => Some(resolution(text, s@)),
                None => None,
            },
        ).status != STATUS_OK,
{
}

/// Success carries the code and nothing is reported; every server fault carries
/// the same body, so the cause reaches the report and not the client.
pub proof fn lemma_cause_stays_on_server(resolution: Option<Resolution>)
    ensures
        reply_for(resolution).status == STATUS_OK || reply_for(resolution).status
            == STATUS_NOT_FOUND || reply_for(resolution).status == STATUS_SERVER_FAULT,
        reply_for(resolution).status == STATUS_OK <==> resolution matches Some(
            Resolution::Country(_),
        ),
        reply_for(resolution).status == STATUS_SERVER_FAULT <==> reply_for(resolution).report
            is Some,
        reply_for(resolution).status == STATUS_SERVER_FAULT ==> reply_for(resolution).body
            == BodyModel::Text(SERVER_FAULT_BODY@),
        resolution matches Some(Resolution::NotFound) ==> reply_for(resolution).report == Some(
            RequestFault::Resolution(GetCountryFromIpError::NoCountryFound),
        ),
        resolution matches Some(Resolution::DatabaseFault(cause)) ==> reply_for(
            resolution,
        ).report == Some(RequestFault::Resolution(GetCountryFromIpError::MaxMindDbError(cause))),
        resolution is None ==> reply_for(resolution).report == Some(
            RequestFault::HandleAcquisition,
        ),
{
}

} // verus!
