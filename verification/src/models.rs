//! The records returned by the room, booking and lesson services.

use vstd::prelude::*;

verus! {

/// The building level a room is on.
#[derive(Debug, Clone)]
pub struct Piano {
    pub codice: String,
    pub descrizione: String,
}

/// A classroom or laboratory.
///
/// The area is kept as the bit pattern of the single-precision number the
/// service sends, so that a room can be carried through the library and
/// handed back without loss.
#[derive(Debug, Clone)]
pub struct Aula {
    pub id: String,
    pub capienza: Option<i32>,
    pub metri_quadri_bits: u32,
    pub numero_postazioni: Option<i32>,
    pub tipo_aula_id: String,
    pub descrizione: String,
    pub codice: String,
    pub abilitato: bool,
    pub divisore_capienza: Option<i32>,
    pub piano: Piano,
}

/// A scheduled occupation of one or more rooms. The two timestamps are kept
/// as the service sends them.
#[derive(Debug, Clone)]
pub struct Impegno {
    pub data_inizio: String,
    pub data_fine: String,
    pub indisponibilita: bool,
    pub indisponibilita_totale: bool,
    pub stato: String,
    pub nome: String,
    pub aule: Vec<Aula>,
}

/// A room as the lessons service describes it.
#[derive(Debug)]
pub struct LezioneAule {
    pub des_indirizzo: String,
    pub des_piano: String,
    pub des_edificio: String,
    pub des_ubicazione: String,
    pub des_risorsa: String,
}

/// A scheduled course meeting.
#[derive(Debug)]
pub struct Lezione {
    pub title: String,
    pub docente: String,
    pub time: String,
    pub teams: String,
    pub cfu: u8,
    pub val_crediti: u8,
    pub aule: Vec<LezioneAule>,
}

} // verus!
