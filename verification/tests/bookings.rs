use unibo::bookings::{concerns_rooms, filter_bookings, is_listed};
use unibo::client::{fetched_bookings, FetchError};
use unibo::models::{Aula, Impegno, Piano};

fn booked_room(id: &str) -> Aula {
    Aula {
        id: id.to_string(),
        capienza: None,
        metri_quadri_bits: 0,
        numero_postazioni: None,
        tipo_aula_id: String::new(),
        descrizione: format!("Aula {}", id),
        codice: String::new(),
        abilitato: true,
        divisore_capienza: None,
        piano: Piano { codice: String::new(), descrizione: String::new() },
    }
}

fn booking(name: &str, room_ids: &[&str]) -> Impegno {
    Impegno {
        data_inizio: "2023-05-26T09:00:00.000Z".to_string(),
        data_fine: "2023-05-26T11:00:00.000Z".to_string(),
        indisponibilita: false,
        indisponibilita_totale: false,
        stato: "confermato".to_string(),
        nome: name.to_string(),
        aule: room_ids.iter().map(|id| booked_room(id)).collect(),
    }
}

fn names(impegni: &Vec<Impegno>) -> Vec<String> {
    impegni.iter().map(|i| i.nome.clone()).collect()
}

#[test]
fn only_bookings_of_the_room_are_kept() {
    let all = vec![booking("first", &["r1", "r2"]), booking("second", &["r3"])];
    let kept = filter_bookings(all, &vec!["r1".to_string()]);
    assert_eq!(names(&kept), vec!["first".to_string()]);
    assert_eq!(kept[0].aule.len(), 2);
    assert_eq!(kept[0].aule[1].id, "r2");
}

#[test]
fn kept_bookings_stay_in_order() {
    let all = vec![
        booking("a", &["r2"]),
        booking("b", &["r9"]),
        booking("c", &["r7", "r1"]),
        booking("d", &[]),
        booking("e", &["r1"]),
    ];
    let kept = filter_bookings(all, &vec!["r1".to_string(), "r2".to_string()]);
    assert_eq!(names(&kept), vec!["a".to_string(), "c".to_string(), "e".to_string()]);
}

#[test]
fn nothing_is_kept_for_no_rooms() {
    let all = vec![booking("a", &["r1"]), booking("b", &[])];
    assert!(filter_bookings(all, &Vec::new()).is_empty());
}

#[test]
fn identifiers_are_compared_as_they_are() {
    let all = vec![booking("a", &["R1"]), booking("b", &["r10"]), booking("c", &["r1"])];
    let kept = filter_bookings(all, &vec!["r1".to_string()]);
    assert_eq!(names(&kept), vec!["c".to_string()]);
}

#[test]
fn booking_without_rooms_concerns_none() {
    assert!(!concerns_rooms(&booking("a", &[]), &vec!["r1".to_string()]));
    assert!(concerns_rooms(&booking("a", &["r0", "r1"]), &vec!["r1".to_string()]));
}

#[test]
fn identifier_is_looked_up_in_the_list() {
    let ids = vec!["r1".to_string(), "r2".to_string()];
    assert!(is_listed(&ids, &"r2".to_string()));
    assert!(!is_listed(&ids, &"r3".to_string()));
    assert!(!is_listed(&Vec::new(), &"r1".to_string()));
}

#[test]
fn fetched_bookings_are_filtered() {
    let all = vec![booking("first", &["r1", "r2"]), booking("second", &["r3"])];
    let outcome = fetched_bookings(Ok(all), &vec!["r3".to_string()]);
    assert_eq!(names(&outcome.expect("bookings")), vec!["second".to_string()]);
}

#[test]
fn transport_error_is_handed_on() {
    let outcome = fetched_bookings(
        Err(FetchError::Transport("connection refused".to_string())),
        &vec!["r1".to_string()],
    );
    match outcome {
        Err(FetchError::Transport(why)) => assert_eq!(why, "connection refused"),
        _ => panic!("a transport error was expected"),
    }
}

#[test]
fn decode_error_is_handed_on() {
    let outcome = fetched_bookings(
        Err(FetchError::Decode("expected an array".to_string())),
        &vec!["r1".to_string()],
    );
    match outcome {
        Err(FetchError::Decode(why)) => assert_eq!(why, "expected an array"),
        _ => panic!("a decode error was expected"),
    }
}
