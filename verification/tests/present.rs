use unibo::date::Date;
use unibo::models::{Aula, Impegno, Lezione, LezioneAule, Piano};
use unibo::present::{
    booking_line, found_lines, found_title, heading, lessons_heading, lessons_listing,
    no_lessons_note, room_card, tabbed, Listing, FOUND_TITLE, NO_LESSONS, NO_ROOM,
};
use unibo::search::{cerca, Search};

fn shown_room(name: &str, capienza: Option<i32>, postazioni: Option<i32>) -> Aula {
    Aula {
        id: "r1".to_string(),
        capienza,
        metri_quadri_bits: 80.0f32.to_bits(),
        numero_postazioni: postazioni,
        tipo_aula_id: "t".to_string(),
        descrizione: name.to_string(),
        codice: "c".to_string(),
        abilitato: true,
        divisore_capienza: Some(2),
        piano: Piano { codice: "0".to_string(), descrizione: "Piano Terra".to_string() },
    }
}

fn lesson_room(name: &str) -> LezioneAule {
    LezioneAule {
        des_indirizzo: "Viale del Risorgimento 2".to_string(),
        des_piano: "Piano Primo".to_string(),
        des_edificio: "Ingegneria".to_string(),
        des_ubicazione: "Bologna".to_string(),
        des_risorsa: name.to_string(),
    }
}

fn lesson(title: &str, teacher: &str, time: &str, room_names: &[&str]) -> Lezione {
    Lezione {
        title: title.to_string(),
        docente: teacher.to_string(),
        time: time.to_string(),
        teams: String::new(),
        cfu: 6,
        val_crediti: 6,
        aule: room_names.iter().map(|n| lesson_room(n)).collect(),
    }
}

#[test]
fn fixed_texts() {
    assert_eq!(FOUND_TITLE, "Aule trovate:");
    assert_eq!(NO_ROOM, "Nessuna aula trovata");
    assert_eq!(NO_LESSONS, "Nessuna lezione trovata");
}

#[test]
fn title_of_the_candidates_is_bold() {
    assert_eq!(found_title(), "\x1b[1mAule trovate:\x1b[0m");
}

#[test]
fn note_of_no_lessons_is_red() {
    assert_eq!(no_lessons_note(), "\x1b[31mNessuna lezione trovata\x1b[39m");
}

#[test]
fn card_of_a_room() {
    let card = room_card(&shown_room("Aula Magna", Some(250), Some(12)));
    assert_eq!(card.title, "\x1b[32mAula Magna\x1b[39m");
    assert_eq!(card.capienza, 250);
    assert_eq!(card.postazioni, 12);
    assert_eq!(card.piano, "Piano Terra");
}

#[test]
fn missing_numbers_count_as_zero() {
    let card = room_card(&shown_room("Lab", None, None));
    assert_eq!(card.capienza, 0);
    assert_eq!(card.postazioni, 0);
}

#[test]
fn candidate_rooms_are_listed_with_the_query_marked() {
    let all = vec![
        shown_room("Laboratorio 1", None, None),
        shown_room("Aula Magna", None, None),
        shown_room("laboratorio 2", None, None),
    ];
    match cerca(&all, "lab") {
        Search::Several(found) => {
            assert_eq!(
                found_lines("lab", &found),
                vec![
                    "\t\x1b[32mLab\x1b[39moratorio 1".to_string(),
                    "\t\x1b[32mlab\x1b[39moratorio 2".to_string(),
                ]
            );
        }
        _ => panic!("two rooms were expected"),
    }
}

#[test]
fn line_of_a_list_begins_with_a_tab() {
    assert_eq!(tabbed("Aula 1"), "\tAula 1");
    assert_eq!(tabbed(""), "\t");
}

#[test]
fn no_lines_for_no_rooms() {
    assert!(found_lines("lab", &Vec::new()).is_empty());
}

#[test]
fn line_of_a_booking() {
    let impegno = Impegno {
        data_inizio: "2023-05-26T09:00:00.000Z".to_string(),
        data_fine: "2023-05-26T11:00:00.000Z".to_string(),
        indisponibilita: false,
        indisponibilita_totale: false,
        stato: "confermato".to_string(),
        nome: "Analisi Matematica".to_string(),
        aule: Vec::new(),
    };
    assert_eq!(
        booking_line(&impegno),
        "\tAnalisi Matematica: 2023-05-26T09:00:00.000Z - 2023-05-26T11:00:00.000Z"
    );
}

#[test]
fn heading_for_a_day_already_written_out() {
    assert_eq!(
        heading("fisica", "lunedì 8 gennaio 2024"),
        "Lezioni di fisica di lunedì 8 gennaio 2024:"
    );
    assert_eq!(heading("", ""), "Lezioni di  di :");
}

#[test]
fn heading_of_a_timetable() {
    let day = Date { year: 2023, month: 5, day: 26 };
    assert_eq!(
        lessons_heading("informatica", &day),
        Some("Lezioni di informatica di venerdì 26 maggio 2023:".to_string())
    );
}

#[test]
fn no_heading_for_what_is_no_day() {
    assert_eq!(lessons_heading("informatica", &Date { year: 2023, month: 13, day: 1 }), None);
}

#[test]
fn timetable_without_lessons() {
    assert!(matches!(lessons_listing(&Vec::new()), Some(Listing::NoLessons)));
}

#[test]
fn timetable_rows_show_the_first_room() {
    let lessons = vec![
        lesson("Analisi", "Rossi", "09:00 - 11:00", &["Aula 1.1", "Aula 1.2"]),
        lesson("Fisica", "Bianchi", "11:00 - 13:00", &["Lab 2"]),
    ];
    match lessons_listing(&lessons) {
        Some(Listing::Rows(rows)) => {
            assert_eq!(rows.len(), 2);
            assert_eq!(rows[0].title, "Analisi");
            assert_eq!(rows[0].docente, "Rossi");
            assert_eq!(rows[0].time, "09:00 - 11:00");
            assert_eq!(rows[0].aula, "Aula 1.1");
            assert_eq!(rows[1].title, "Fisica");
            assert_eq!(rows[1].docente, "Bianchi");
            assert_eq!(rows[1].time, "11:00 - 13:00");
            assert_eq!(rows[1].aula, "Lab 2");
        }
        _ => panic!("two rows were expected"),
    }
}

#[test]
fn no_timetable_where_a_lesson_has_no_room() {
    let lessons = vec![
        lesson("Analisi", "Rossi", "09:00 - 11:00", &["Aula 1.1"]),
        lesson("Fisica", "Bianchi", "11:00 - 13:00", &[]),
    ];
    assert!(lessons_listing(&lessons).is_none());
}
