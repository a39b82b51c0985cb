//! What is sent to the services: where each request goes and what it asks.

use vstd::prelude::*;
use vstd::string::*;
use crate::date::{digit, iso_date, Date};
use crate::text::texts;

verus! {

/// The host of the room and booking services.
pub const HOST: &'static str = "https://apache.prod.up.cineca.it";

/// The calendar that the rooms and bookings are read from.
pub const CAL_RISORGIMENTO: &'static str = "5e9996a228a649001237296d";

/// The client that the calendar belongs to.
pub const CLIENT: &'static str = "5ad08435b6ca5357dbac609e";

/// How the client names itself to the services.
pub const USER_AGENT: &'static str =
    "Mozilla/5.0 (Windows NT 10.0; Win64; x64) AppleWebKit/537.36 (KHTML, like Gecko) Chrome/80.0.3987.149 Safari/537.36";

/// The path of the room listing, below the host.
pub const AULE_PATH: &'static str = "/api/Aule/getAulePerCalendarioPubblico";

/// The path of the booking listing, below the host.
pub const IMPEGNI_PATH: &'static str = "/api/Impegni/getImpegniCalendariopubblico";

/// The key that the room listing is sorted by: the building's code.
pub const ORDER: &'static str = "edificio.codice";

/// The largest number of rooms that a listing returns.
pub const LIMIT: i32 = 100;

/// The start of the day that bookings are listed for.
pub const WINDOW_START: &'static str = "2023-05-26T00:00:00.000Z";

/// The end of the day that bookings are listed for.
pub const WINDOW_END: &'static str = "2023-05-26T23:59:59.999Z";

/// The fixed part of the configuration of a client: which services it talks
/// to, for which calendar, and under which name.
#[derive(Debug, Clone)]
pub struct Config {
    pub host: String,
    pub link_calendario_id: String,
    pub cliente_id: String,
    pub user_agent: String,
}

/// The span of time that bookings are listed for, as two timestamps.
#[derive(Debug, Clone)]
pub struct Window {
    pub data_inizio: String,
    pub data_fine: String,
}

/// The body of the request that lists the rooms.
#[derive(Debug)]
pub struct AulaRequest {
    pub link_calendario_id: String,
    pub cliente_id: String,
    pub aule_ids: Vec<String>,
    pub edifici_ids: Vec<String>,
    pub limit: i32,
    pub order: String,
}

/// The body of the request that lists the bookings.
#[derive(Debug)]
pub struct CalendarioRequest {
    pub mostra_impegni_annullati: bool,
    pub mostra_indisponibilita_totali: bool,
    pub link_calendario_id: String,
    pub cliente_id: String,
    pub pianificazione_template: bool,
    pub aule_ids: Vec<String>,
    pub limita_risultati: bool,
    pub data_inizio: String,
    pub data_fine: String,
}

/// The texts of a list of borrowed identifiers.
pub open spec fn borrowed_texts(ids: Seq<&str>) -> Seq<Seq<char>> {
    Seq::new(ids.len(), |j: int| ids[j]@)
}

/// The request is the one that lists every room of the configured calendar:
/// no filter by room or building, at most `LIMIT` rooms, sorted by `ORDER`.
pub open spec fn lists_rooms(request: AulaRequest, config: Config) -> bool {
    &&& request.link_calendario_id@ == config.link_calendario_id@
    &&& request.cliente_id@ == config.cliente_id@
    &&& request.aule_ids@.len() == 0
    &&& request.edifici_ids@.len() == 0
    &&& request.limit == LIMIT
    &&& request.order@ == ORDER@
}

/// The request is the one that lists the bookings of the given rooms in the
/// given window: cancelled bookings are shown, total unavailability is not,
/// and neither templates nor a limit on the results are asked for.
pub open spec fn lists_bookings(
    request: CalendarioRequest,
    config: Config,
    ids: Seq<Seq<char>>,
    start: Seq<char>,
    end: Seq<char>,
) -> bool {
    &&& request.mostra_impegni_annullati
    &&& !request.mostra_indisponibilita_totali
    &&& request.link_calendario_id@ == config.link_calendario_id@
    &&& request.cliente_id@ == config.cliente_id@
    &&& !request.pianificazione_template
    &&& texts(request.aule_ids@) == ids
    &&& !request.limita_risultati
    &&& request.data_inizio@ == start
    &&& request.data_fine@ == end
}

/// A number in decimal digits.
pub open spec fn decimal(n: nat) -> Seq<char>
    decreases n,
{
    if n < 10 {
        seq![digit(n as int)]
    } else {
        decimal(n / 10).push(digit((n % 10) as int))
    }
}

/// The address that the lessons of a course are read from: the course, its
/// year, and the first and last day as texts.
pub open spec fn lessons_address(
    corso: Seq<char>,
    anno: nat,
    start: Seq<char>,
    end: Seq<char>,
) -> Seq<char> {
    "https://corsi.unibo.it/laurea/"@ + corso + "/orario-lezioni/@@orario_reale_json?anno="@
        + decimal(anno) + "&start="@ + start + "&end="@ + end
}

impl Config {
    /// The configuration for the services of the university.
    pub fn fixed() -> (config: Config)
        ensures
            config.host@ == HOST@,
            config.link_calendario_id@ == CAL_RISORGIMENTO@,
            config.cliente_id@ == CLIENT@,
            config.user_agent@ == USER_AGENT@,
    {
        Config {
            host: HOST.to_owned(),
            link_calendario_id: CAL_RISORGIMENTO.to_owned(),
            cliente_id: CLIENT.to_owned(),
            user_agent: USER_AGENT.to_owned(),
        }
    }

    /// The address of the room listing.
    pub fn aule_endpoint(&self) -> (r: String)
        ensures
            r@ == self.host@ + AULE_PATH@,
    {
        let mut r: String = self.host.clone();
        r.append(AULE_PATH);
        r
    }

    /// The address of the booking listing.
    pub fn calendario_endpoint(&self) -> (r: String)
        ensures
            r@ == self.host@ + IMPEGNI_PATH@,
    {
        let mut r: String = self.host.clone();
        r.append(IMPEGNI_PATH);
        r
    }
}

impl Window {
    /// The one day that bookings have always been listed for.
    pub fn fixed() -> (window: Window)
        ensures
            window.data_inizio@ == WINDOW_START@,
            window.data_fine@ == WINDOW_END@,
    {
        Window { data_inizio: WINDOW_START.to_owned(), data_fine: WINDOW_END.to_owned() }
    }
}

/// The address of the room listing of the university.
pub fn get_aule_endpoint() -> (r: String)
    ensures
        r@ == HOST@ + AULE_PATH@,
{
    let mut r: String = HOST.to_owned();
    r.append(AULE_PATH);
    r
}

/// The address of the booking listing of the university.
pub fn get_calendario_endpoint() -> (r: String)
    ensures
        r@ == HOST@ + IMPEGNI_PATH@,
{
    let mut r: String = HOST.to_owned();
    r.append(IMPEGNI_PATH);
    r
}

/// The request that lists the rooms.
pub fn aula_request(config: &Config) -> (request: AulaRequest)
    ensures
        lists_rooms(request, *config),
{
    AulaRequest {
        link_calendario_id: config.link_calendario_id.clone(),
        cliente_id: config.cliente_id.clone(),
        aule_ids: Vec::new(),
        edifici_ids: Vec::new(),
        limit: LIMIT,
        order: ORDER.to_owned(),
    }
}

/// The request that lists the bookings of the given rooms in the window.
pub fn calendario_request(config: &Config, aule_ids: &Vec<&str>, window: &Window) -> (request:
    CalendarioRequest)
    ensures
        lists_bookings(
            request,
            *config,
            borrowed_texts(aule_ids@),
            window.data_inizio@,
            window.data_fine@,
        ),
{
    let mut ids: Vec<String> = Vec::new();
    let mut j: usize = 0;
    while j < aule_ids.len()
        invariant
            j <= aule_ids.len(),
            ids@.len() == j,
            forall|l: int| 0 <= l < j ==> (#[trigger] ids@[l])@ == aule_ids@[l]@,
        decreases aule_ids.len() - j,
    {
        ids.push(aule_ids[j].to_owned());
        j += 1;
    }
    proof {
        assert(texts(ids@) =~= borrowed_texts(aule_ids@));
    }
    CalendarioRequest {
        mostra_impegni_annullati: true,
        mostra_indisponibilita_totali: false,
        link_calendario_id: config.link_calendario_id.clone(),
        cliente_id: config.cliente_id.clone(),
        pianificazione_template: false,
        aule_ids: ids,
        limita_risultati: false,
        data_inizio: window.data_inizio.clone(),
        data_fine: window.data_fine.clone(),
    }
}

/// The text of one decimal digit.
fn digit_text(d: u8) -> (r: &'static str)
    requires
        d < 10,
    ensures
        r@ == seq![digit(d as int)],
{
    proof {
        reveal_strlit("0");
        reveal_strlit("1");
        reveal_strlit("2");
        reveal_strlit("3");
        reveal_strlit("4");
        reveal_strlit("5");
        reveal_strlit("6");
        reveal_strlit("7");
        reveal_strlit("8");
        reveal_strlit("9");
    }
    let r: &'static str = if d == 0 {
        "0"
    } else if d == 1 {
        "1"
    } else if d == 2 {
        "2"
    } else if d == 3 {
        "3"
    } else if d == 4 {
        "4"
    } else if d == 5 {
        "5"
    } else if d == 6 {
        "6"
    } else if d == 7 {
        "7"
    } else if d == 8 {
        "8"
    } else {
        "9"
    };
    assert(r@ =~= seq![digit(d as int)]);
    r
}

/// A small number in decimal digits.
pub fn decimal_text(n: u8) -> (r: String)
    ensures
        r@ == decimal(n as nat),
{
    let mut r: String = String::new();
    if n >= 100 {
        r.append(digit_text(n / 100));
    }
    if n >= 10 {
        r.append(digit_text((n / 10) % 10));
    }
    r.append(digit_text(n % 10));
    proof {
        reveal_with_fuel(decimal, 3);
        assert(r@ =~= decimal(n as nat));
    }
    r
}

/// The address that the lessons of a course and year are read from, for the
/// days from `start` to `end`. There is none where one of the two is no day
/// of the calendar.
pub fn lezioni_url(corso: &str, anno: u8, start: &Date, end: &Date) -> (r: Option<String>)
    ensures
        start.valid() && end.valid() ==> r is Some && r.unwrap()@ == lessons_address(
            corso@,
            anno as nat,
            iso_date(start.year as int, start.month as int, start.day as int),
            iso_date(end.year as int, end.month as int, end.day as int),
        ),
        !(start.valid() && end.valid()) ==> r is None,
{
    let first: String = match start.iso() {
        Some(text) => text,
        None => {
            return None;
        },
    };
    let last: String = match end.iso() {
        Some(text) => text,
        None => {
            return None;
        },
    };
    let year: String = decimal_text(anno);
    let mut url: String = "https://corsi.unibo.it/laurea/".to_owned();
    url.append(corso);
    url.append("/orario-lezioni/@@orario_reale_json?anno=");
    url.append(year.as_str());
    url.append("&start=");
    url.append(first.as_str());
    url.append("&end=");
    url.append(last.as_str());
    Some(url)
}

} // verus!
