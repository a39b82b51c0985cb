//! The lines and rows that the commands show: a room's card, the list of
//! candidate rooms, a room's bookings, and the timetable of a course.

use vstd::prelude::*;
use vstd::string::*;
use crate::date::{italian_date, Date};
use crate::highlight::{highlight, highlight_text};
use crate::models::{Aula, Impegno, Lezione};
use crate::style::{bold, bold_text, green, green_text, red, red_text};

verus! {

/// The title over the list of candidate rooms.
pub const FOUND_TITLE: &'static str = "Aule trovate:";

/// What is said when no room matches.
pub const NO_ROOM: &'static str = "Nessuna aula trovata";

/// What is said when a course has no lessons on the day.
pub const NO_LESSONS: &'static str = "Nessuna lezione trovata";

/// What is shown of one room. A capacity or a number of seats that the
/// service did not give counts as zero.
#[derive(Debug)]
pub struct RoomCard {
    pub title: String,
    pub capienza: i32,
    pub postazioni: i32,
    pub piano: String,
}

/// One row of the timetable: the lesson, who gives it, when, and in which
/// room.
#[derive(Debug)]
pub struct LessonRow {
    pub title: String,
    pub docente: String,
    pub time: String,
    pub aula: String,
}

/// The timetable of a course on one day.
#[derive(Debug)]
pub enum Listing {
    NoLessons,
    Rows(Vec<LessonRow>),
}

/// A number that may be missing, zero standing for a missing one.
pub open spec fn or_zero(n: Option<i32>) -> i32 {
    match n {
        Some(n) => n,
        None => 0,
    }
}

/// The card shows this room: its name in green, its capacity and seats, and
/// the floor it is on.
pub open spec fn shows_room(card: RoomCard, aula: Aula) -> bool {
    &&& card.title@ == green_text(aula.descrizione@)
    &&& card.capienza == or_zero(aula.capienza)
    &&& card.postazioni == or_zero(aula.numero_postazioni)
    &&& card.piano@ == aula.piano.descrizione@
}

/// The line for a candidate room: a tab, then the room's name with the
/// query marked in it.
pub open spec fn found_line(name: Seq<char>, query: Seq<char>) -> Seq<char> {
    seq!['\t'] + highlight_text(name, query)
}

/// The line for a booking: a tab, the booking's name, and from when to when
/// it runs.
pub open spec fn booking_text(impegno: Impegno) -> Seq<char> {
    seq!['\t'] + impegno.nome@ + seq![':', ' '] + impegno.data_inizio@ + seq![' ', '-', ' ']
        + impegno.data_fine@
}

/// The line over a timetable: the course, and the day as a text.
pub open spec fn heading_text(corso: Seq<char>, day: Seq<char>) -> Seq<char> {
    "Lezioni di "@ + corso + " di "@ + day + seq![':']
}

/// The row shows this lesson, with the first of its rooms.
pub open spec fn shows_lesson(row: LessonRow, lezione: Lezione) -> bool {
    &&& lezione.aule@.len() > 0
    &&& row.title@ == lezione.title@
    &&& row.docente@ == lezione.docente@
    &&& row.time@ == lezione.time@
    &&& row.aula@ == lezione.aule@[0].des_risorsa@
}

/// Every lesson has at least one room.
pub open spec fn all_have_rooms(lezioni: Seq<Lezione>) -> bool {
    forall|i: int| 0 <= i < lezioni.len() ==> (#[trigger] lezioni[i]).aule@.len() > 0
}

/// The timetable shows these lessons: a note where there are none, else one
/// row for each lesson, in their order.
pub open spec fn shows_lessons(listing: Listing, lezioni: Seq<Lezione>) -> bool {
    match listing {
        Listing::NoLessons => lezioni.len() == 0,
        Listing::Rows(rows) => {
            &&& lezioni.len() > 0
            &&& rows@.len() == lezioni.len()
            &&& forall|i: int|
                0 <= i < lezioni.len() ==> shows_lesson(#[trigger] rows@[i], lezioni[i])
        },
    }
}

/// The title over the list of candidate rooms, in bold.
pub fn found_title() -> (r: String)
    ensures
        r@ == bold_text(FOUND_TITLE@),
{
    bold(FOUND_TITLE)
}

/// The note that a course has no lessons on the day, in red.
pub fn no_lessons_note() -> (r: String)
    ensures
        r@ == red_text(NO_LESSONS@),
{
    red(NO_LESSONS)
}

/// The card of a room.
pub fn room_card(aula: &Aula) -> (card: RoomCard)
    ensures
        shows_room(card, *aula),
{
    RoomCard {
        title: green(aula.descrizione.as_str()),
        capienza: match aula.capienza {
            Some(n) => n,
            None => 0,
        },
        postazioni: match aula.numero_postazioni {
            Some(n) => n,
            None => 0,
        },
        piano: aula.piano.descrizione.clone(),
    }
}

/// The lines of the list of candidate rooms, one for each room and in their
/// order.
pub fn found_lines(query: &str, aule: &Vec<&Aula>) -> (lines: Vec<String>)
    ensures
        lines@.len() == aule@.len(),
        forall|i: int|
            0 <= i < aule@.len() ==> (#[trigger] lines@[i])@ == found_line(
                aule@[i].descrizione@,
                query@,
            ),
{
    let mut lines: Vec<String> = Vec::new();
    let mut i: usize = 0;
    while i < aule.len()
        invariant
            i <= aule.len(),
            lines@.len() == i,
            forall|l: int|
                0 <= l < i ==> (#[trigger] lines@[l])@ == found_line(
                    aule@[l].descrizione@,
                    query@,
                ),
        decreases aule.len() - i,
    {
        let shown: String = highlight(aule[i].descrizione.as_str(), query);
        let line: String = tabbed(shown.as_str());
        lines.push(line);
        i += 1;
    }
    lines
}

/// A line of a list: a tab, then what is shown.
pub fn tabbed(shown: &str) -> (line: String)
    ensures
        line@ == seq!['\t'] + shown@,
{
    proof {
        reveal_strlit("\t");
    }
    let mut line: String = String::new();
    line.append("\t");
    line.append(shown);
    assert(line@ =~= seq!['\t'] + shown@);
    line
}

/// The line for a booking.
pub fn booking_line(impegno: &Impegno) -> (line: String)
    ensures
        line@ == booking_text(*impegno),
{
    proof {
        reveal_strlit("\t");
        reveal_strlit(": ");
        reveal_strlit(" - ");
    }
    let mut line: String = String::new();
    line.append("\t");
    line.append(impegno.nome.as_str());
    line.append(": ");
    line.append(impegno.data_inizio.as_str());
    line.append(" - ");
    line.append(impegno.data_fine.as_str());
    assert(line@ =~= booking_text(*impegno));
    line
}

/// The line over the timetable of a course on a day. There is none where
/// the day is no day of the calendar.
pub fn lessons_heading(corso: &str, day: &Date) -> (r: Option<String>)
    ensures
        day.valid() ==> r is Some && r.unwrap()@ == heading_text(
            corso@,
            italian_date(day.year as int, day.month as int, day.day as int),
        ),
        !day.valid() ==> r is None,
{
    match day.italian() {
        Some(written) => Some(heading(corso, written.as_str())),
        None => None,
    }
}

/// The line over a timetable, for a course and a day that is already
/// written out.
pub fn heading(corso: &str, written: &str) -> (r: String)
    ensures
        r@ == heading_text(corso@, written@),
{
    proof {
        reveal_strlit(":");
    }
    let mut line: String = "Lezioni di ".to_owned();
    line.append(corso);
    line.append(" di ");
    line.append(written);
    line.append(":");
    assert(line@ =~= heading_text(corso@, written@));
    line
}

/// The timetable to show for the lessons that the service returned: a note
/// that there are none, or one row for each lesson, in their order. A lesson
/// without a room cannot be shown, and then there is no timetable.
pub fn lessons_listing(lezioni: &Vec<Lezione>) -> (r: Option<Listing>)
    ensures
        all_have_rooms(lezioni@) <==> r is Some,
        r is Some ==> shows_lessons(r.unwrap(), lezioni@),
{
    if lezioni.len() == 0 {
        return Some(Listing::NoLessons);
    }
    let mut rows: Vec<LessonRow> = Vec::new();
    let mut i: usize = 0;
    while i < lezioni.len()
        invariant
            i <= lezioni.len(),
            rows@.len() == i,
            forall|l: int| 0 <= l < i ==> shows_lesson(#[trigger] rows@[l], lezioni@[l]),
        decreases lezioni.len() - i,
    {
        let lezione: &Lezione = &lezioni[i];
        if lezione.aule.len() == 0 {
            return None;
        }
        rows.push(
            LessonRow {
                title: lezione.title.clone(),
                docente: lezione.docente.clone(),
                time: lezione.time.clone(),
                aula: lezione.aule[0].des_risorsa.clone(),
            },
        );
        i += 1;
    }
    proof {
        assert forall|l: int| 0 <= l < lezioni@.len() implies (#[trigger] lezioni@[l]).aule@.len()
            > 0 by {
            assert(shows_lesson(rows@[l], lezioni@[l]));
        }
    }
    Some(Listing::Rows(rows))
}

} // verus!
