//! The client of the services, without the transport: it says which request
//! each operation sends, and what is made of the answer. Sending a request
//! and reading the answer into records is left to the caller.

use vstd::prelude::*;
use crate::bookings::{bookings_of, filter_bookings};
use crate::date::{iso_date, Date};
use crate::models::Impegno;
use crate::requests::{
    aula_request, borrowed_texts, calendario_request, lessons_address, lezioni_url,
    lists_bookings, lists_rooms, AulaRequest, CalendarioRequest, Config, Window, AULE_PATH,
    CAL_RISORGIMENTO, CLIENT, HOST, IMPEGNI_PATH, USER_AGENT, WINDOW_END, WINDOW_START,
};

verus! {

/// How a request is sent.
#[derive(Debug, Clone, Copy, PartialEq, Eq)]
pub enum Method {
    Get,
    Post,
}

/// What a request carries as its body.
#[derive(Debug)]
pub enum Payload {
    Nothing,
    Rooms(AulaRequest),
    Bookings(CalendarioRequest),
}

/// A request to one of the services.
#[derive(Debug)]
pub struct Request {
    pub method: Method,
    pub url: String,
    pub payload: Payload,
}

/// Why a fetch gave no records: the service could not be reached, or what it
/// sent could not be read as the records that were expected.
#[derive(Debug)]
pub enum FetchError {
    Transport(String),
    Decode(String),
}

/// The client of the services. It holds the configuration it was made with
/// and nothing else: no session, and nothing of earlier answers.
#[derive(Debug, Clone)]
pub struct Client {
    pub config: Config,
}

/// The request asks the configured service for the list of rooms.
pub open spec fn asks_rooms(request: Request, config: Config) -> bool {
    &&& request.method is Post
    &&& request.url@ == config.host@ + AULE_PATH@
    &&& request.payload matches Payload::Rooms(body)
    &&& lists_rooms(body, config)
}

/// The request asks the configured service for the bookings of the given
/// rooms between the two timestamps.
pub open spec fn asks_bookings(
    request: Request,
    config: Config,
    ids: Seq<Seq<char>>,
    start: Seq<char>,
    end: Seq<char>,
) -> bool {
    &&& request.method is Post
    &&& request.url@ == config.host@ + IMPEGNI_PATH@
    &&& request.payload matches Payload::Bookings(body)
    &&& lists_bookings(body, config, ids, start, end)
}

/// The request asks for the lessons of a course and year on the days from
/// `start` to `end`.
pub open spec fn asks_lessons(
    request: Request,
    corso: Seq<char>,
    anno: nat,
    start: Date,
    end: Date,
) -> bool {
    &&& request.method is Get
    &&& request.url@ == lessons_address(
        corso,
        anno,
        iso_date(start.year as int, start.month as int, start.day as int),
        iso_date(end.year as int, end.month as int, end.day as int),
    )
    &&& request.payload is Nothing
}

/// What a fetch of bookings gives for what came back from the service: the
/// error that came back, or the bookings that concern the rooms.
pub open spec fn bookings_outcome(
    response: Result<Vec<Impegno>, FetchError>,
    ids: Seq<String>,
    outcome: Result<Vec<Impegno>, FetchError>,
) -> bool {
    match response {
        Ok(all) => outcome is Ok && outcome->Ok_0@ == bookings_of(all@, ids),
        Err(error) => outcome == Err::<Vec<Impegno>, FetchError>(error),
    }
}

impl Client {
    /// The client of the university's services.
    pub fn new() -> (client: Client)
        ensures
            client.config.host@ == HOST@,
            client.config.link_calendario_id@ == CAL_RISORGIMENTO@,
            client.config.cliente_id@ == CLIENT@,
            client.config.user_agent@ == USER_AGENT@,
    {
        Client { config: Config::fixed() }
    }

    /// A client of the services that the configuration names.
    pub fn with_config(config: Config) -> (client: Client)
        ensures
            client.config == config,
    {
        Client { config }
    }

    /// The request that fetches the rooms. The answer is the list of rooms.
    pub fn get_aule(&self) -> (request: Request)
        ensures
            asks_rooms(request, self.config),
    {
        Request {
            method: Method::Post,
            url: self.config.aule_endpoint(),
            payload: Payload::Rooms(aula_request(&self.config)),
        }
    }

    /// The request that fetches the lessons of a course and year on the days
    /// from `start` to `end`. The answer is the list of lessons. There is no
    /// request where one of the two is no day of the calendar.
    pub fn get_lezioni(&self, corso: &str, anno: u8, start: &Date, end: &Date) -> (r: Option<
        Request,
    >)
        ensures
            start.valid() && end.valid() ==> r is Some && asks_lessons(
                r.unwrap(),
                corso@,
                anno as nat,
                *start,
                *end,
            ),
            !(start.valid() && end.valid()) ==> r is None,
    {
        match lezioni_url(corso, anno, start, end) {
            Some(url) => Some(Request { method: Method::Get, url, payload: Payload::Nothing }),
            None => None,
        }
    }

    /// The request that fetches the bookings of the given rooms on the one
    /// day that is built in. The answer is to be handed to
    /// `fetched_bookings`.
    pub fn get_impegni_calendario(&self, aule_ids: Vec<&str>) -> (request: Request)
        ensures
            asks_bookings(
                request,
                self.config,
                borrowed_texts(aule_ids@),
                WINDOW_START@,
                WINDOW_END@,
            ),
    {
        let window = Window::fixed();
        self.get_impegni_in(aule_ids, &window)
    }

    /// The request that fetches the bookings of the given rooms in a window
    /// of the caller's choice. The answer is to be handed to
    /// `fetched_bookings`.
    pub fn get_impegni_in(&self, aule_ids: Vec<&str>, window: &Window) -> (request: Request)
        ensures
            asks_bookings(
                request,
                self.config,
                borrowed_texts(aule_ids@),
                window.data_inizio@,
                window.data_fine@,
            ),
    {
        Request {
            method: Method::Post,
            url: self.config.calendario_endpoint(),
            payload: Payload::Bookings(calendario_request(&self.config, &aule_ids, window)),
        }
    }
}

/// Ends a fetch of bookings: an error is handed on as it came, with nothing
/// tried again; of the bookings that came, those that concern the rooms are
/// kept.
pub fn fetched_bookings(
    response: Result<Vec<Impegno>, FetchError>,
    aule_ids: &Vec<String>,
) -> (outcome: Result<Vec<Impegno>, FetchError>)
    ensures
        bookings_outcome(response, aule_ids@, outcome),
{
    match response {
        Ok(all) => Ok(filter_bookings(all, aule_ids)),
        Err(error) => Err(error),
    }
}

} // verus!
