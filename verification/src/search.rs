//! Resolving a typed room name against the list of rooms.
//!
//! A name is compared with the query on the lower-case copies of both. The
//! first room whose name equals the query is the answer whatever else the
//! list holds; failing that, the rooms whose name contains the query are the
//! candidates.

use vstd::prelude::*;
use vstd::utf8::encode_utf8;
use crate::models::Aula;
use crate::text::{contains, contains_bytes, lowercase, lowercase_bytes, occurs_at, offsets, texts};

verus! {

/// The places of a list that are marked, in ascending order.
pub open spec fn positions(marks: Seq<bool>) -> Seq<int>
    decreases marks.len(),
{
    if marks.len() == 0 {
        Seq::empty()
    } else {
        let before = positions(marks.drop_last());
        if marks.last() {
            before.push(marks.len() - 1)
        } else {
            before
        }
    }
}

/// The first of a list of places, if it has one.
pub open spec fn first_of(places: Seq<int>) -> Option<int> {
    if places.len() > 0 {
        Some(places.first())
    } else {
        None
    }
}

/// For each name, whether it is the query.
pub open spec fn equal_marks(names: Seq<Seq<char>>, query: Seq<char>) -> Seq<bool> {
    Seq::new(names.len(), |i: int| names[i] == query)
}

/// For each name, whether the query stands in it.
pub open spec fn within_marks(names: Seq<Seq<char>>, query: Seq<char>) -> Seq<bool> {
    Seq::new(names.len(), |i: int| contains(encode_utf8(names[i]), encode_utf8(query)))
}

/// What a choice among names came to, as places in the list.
pub ghost enum Chosen {
    Single(int),
    Several(Seq<int>),
    NotFound,
}

/// What a choice among names came to: the place of one name, the places of
/// several candidates, or nothing.
#[derive(Debug, PartialEq, Eq)]
pub enum Choice {
    Single(usize),
    Several(Vec<usize>),
    NotFound,
}

impl View for Choice {
    type V = Chosen;

    open spec fn view(&self) -> Chosen {
        match *self {
            Choice::Single(i) => Chosen::Single(i as int),
            Choice::Several(v) => Chosen::Several(offsets(v@)),
            Choice::NotFound => Chosen::NotFound,
        }
    }
}

/// The choice among names for a query, both taken as they are: the first
/// name that is the query, if there is one; else the only name that the
/// query stands in; else all the names that it stands in; else nothing.
pub open spec fn chosen(names: Seq<Seq<char>>, query: Seq<char>) -> Chosen {
    let equal = positions(equal_marks(names, query));
    let within = positions(within_marks(names, query));
    if equal.len() > 0 {
        Chosen::Single(equal.first())
    } else if within.len() == 1 {
        Chosen::Single(within[0])
    } else if within.len() >= 2 {
        Chosen::Several(within)
    } else {
        Chosen::NotFound
    }
}

/// The one name that a query stands for where exactly one is wanted: the
/// first name that is the query, else the first that the query stands in.
pub open spec fn chosen_one(names: Seq<Seq<char>>, query: Seq<char>) -> Option<int> {
    let equal = positions(equal_marks(names, query));
    let within = positions(within_marks(names, query));
    if equal.len() > 0 {
        Some(equal.first())
    } else {
        first_of(within)
    }
}

/// The name equals the query, case ignored.
pub open spec fn same_name(name: Seq<char>, query: Seq<char>) -> bool {
    lowercase(name) == lowercase(query)
}

/// The name contains the query, case ignored.
pub open spec fn name_contains(name: Seq<char>, query: Seq<char>) -> bool {
    contains(lowercase_bytes(name), lowercase_bytes(query))
}

/// The lower-case copies of the names of the rooms.
pub open spec fn lowered_names(aule: Seq<Aula>) -> Seq<Seq<char>> {
    Seq::new(aule.len(), |i: int| lowercase(aule[i].descrizione@))
}

/// The rooms that stand at the given places of a list.
pub open spec fn rooms_at(aule: Seq<Aula>, places: Seq<int>) -> Seq<Aula> {
    Seq::new(places.len(), |k: int| aule[places[k]])
}

/// The rooms of a list whose name contains the query, in list order.
pub open spec fn partial_matches(aule: Seq<Aula>, query: Seq<char>) -> Seq<Aula> {
    rooms_at(aule, positions(within_marks(lowered_names(aule), lowercase(query))))
}

/// What a search found, as values.
pub ghost enum Matches {
    Single(Aula),
    Several(Seq<Aula>),
    NotFound,
}

/// What a search found: one room, several candidates, or nothing. The rooms
/// are those of the list that was searched.
#[derive(Debug)]
pub enum Search<'a> {
    Single(&'a Aula),
    Several(Vec<&'a Aula>),
    NotFound,
}

/// The rooms that a sequence of references points at.
pub open spec fn rooms_of(refs: Seq<&Aula>) -> Seq<Aula> {
    Seq::new(refs.len(), |k: int| *refs[k])
}

impl<'a> View for Search<'a> {
    type V = Matches;

    open spec fn view(&self) -> Matches {
        match *self {
            Search::Single(a) => Matches::Single(*a),
            Search::Several(v) => Matches::Several(rooms_of(v@)),
            Search::NotFound => Matches::NotFound,
        }
    }
}

/// The answer to a query over a list of rooms: the first room whose name
/// equals the query, if there is one; else the only room whose name contains
/// it; else all the rooms whose name contains it; else nothing.
pub open spec fn matches(aule: Seq<Aula>, query: Seq<char>) -> Matches {
    match chosen(lowered_names(aule), lowercase(query)) {
        Chosen::Single(i) => Matches::Single(aule[i]),
        Chosen::Several(places) => Matches::Several(rooms_at(aule, places)),
        Chosen::NotFound => Matches::NotFound,
    }
}

/// The room that a query stands for where exactly one is wanted: the first
/// room whose name equals the query, else the first whose name contains it.
pub open spec fn resolved(aule: Seq<Aula>, query: Seq<char>) -> Option<Aula> {
    match chosen_one(lowered_names(aule), lowercase(query)) {
        Some(i) => Some(aule[i]),
        None => None,
    }
}

/// The room a reference points at, if there is one.
pub open spec fn room_of(r: Option<&Aula>) -> Option<Aula> {
    match r {
        Some(a) => Some(*a),
        None => None,
    }
}

/// The marked places of a list that grew by one.
proof fn lemma_positions_step(marks: Seq<bool>, i: int)
    requires
        0 <= i < marks.len(),
    ensures
        positions(marks.take(i + 1)) == if marks[i] {
            positions(marks.take(i)).push(i)
        } else {
            positions(marks.take(i))
        },
{
    assert(marks.take(i + 1).drop_last() =~= marks.take(i));
}

/// Every place that `positions` gives lies in the list and is marked.
pub proof fn lemma_positions_marked(marks: Seq<bool>, k: int)
    requires
        0 <= k < positions(marks).len(),
    ensures
        0 <= positions(marks)[k] < marks.len(),
        marks[positions(marks)[k]],
    decreases marks.len(),
{
    let before = positions(marks.drop_last());
    if k < before.len() {
        lemma_positions_marked(marks.drop_last(), k);
    }
}

/// Every marked place is among those that `positions` gives.
pub proof fn lemma_positions_complete(marks: Seq<bool>, i: int)
    requires
        0 <= i < marks.len(),
        marks[i],
    ensures
        positions(marks).contains(i),
    decreases marks.len(),
{
    let all = positions(marks);
    if i == marks.len() - 1 {
        assert(all[all.len() - 1] == i);
    } else {
        let before = positions(marks.drop_last());
        lemma_positions_complete(marks.drop_last(), i);
        let k = choose|k: int| 0 <= k < before.len() && before[k] == i;
        assert(all[k] == i);
    }
}

/// A list without marks has no marked places.
proof fn lemma_positions_none(marks: Seq<bool>)
    requires
        forall|j: int| 0 <= j < marks.len() ==> !marks[j],
    ensures
        positions(marks).len() == 0,
    decreases marks.len(),
{
    if marks.len() > 0 {
        lemma_positions_none(marks.drop_last());
    }
}

/// The first marked place is the first that `positions` gives.
proof fn lemma_positions_first(marks: Seq<bool>, i: int)
    requires
        0 <= i < marks.len(),
        marks[i],
        forall|j: int| 0 <= j < i ==> !marks[j],
    ensures
        positions(marks).len() > 0,
        positions(marks).first() == i,
    decreases marks.len(),
{
    if i < marks.len() - 1 {
        lemma_positions_first(marks.drop_last(), i);
    } else {
        lemma_positions_none(marks.drop_last());
    }
}

/// Where one place alone is marked, it alone is given.
proof fn lemma_positions_only(marks: Seq<bool>, i: int)
    requires
        0 <= i < marks.len(),
        marks[i],
        forall|j: int| 0 <= j < marks.len() && j != i ==> !marks[j],
    ensures
        positions(marks) == seq![i],
    decreases marks.len(),
{
    if i < marks.len() - 1 {
        lemma_positions_only(marks.drop_last(), i);
    } else {
        lemma_positions_none(marks.drop_last());
        assert(positions(marks) =~= seq![i]);
    }
}

/// Two marked places give at least two.
proof fn lemma_positions_two(marks: Seq<bool>, i: int, j: int)
    requires
        0 <= i < j < marks.len(),
        marks[i],
        marks[j],
    ensures
        positions(marks).len() >= 2,
    decreases marks.len(),
{
    if j < marks.len() - 1 {
        lemma_positions_two(marks.drop_last(), i, j);
    } else {
        lemma_positions_complete(marks.drop_last(), i);
    }
}

/// A name that equals the query also contains it.
pub proof fn lemma_same_name_contains(name: Seq<char>, query: Seq<char>)
    requires
        same_name(name, query),
    ensures
        name_contains(name, query),
{
    let text = lowercase_bytes(name);
    assert(text.subrange(0, text.len() as int) =~= text);
    assert(occurs_at(text, lowercase_bytes(query), 0));
}

/// Goes through the names once: the place of the first name that is the
/// query, and the places of the names that the query stands in.
fn scan(names: &Vec<String>, query: &str) -> (r: (Option<usize>, Vec<usize>))
    ensures
        first_of(positions(equal_marks(texts(names@), query@))) == match r.0 {
            Some(i) => Some(i as int),
            None => None,
        },
        offsets(r.1@) == positions(within_marks(texts(names@), query@)),
{
    let wanted: String = query.to_owned();
    let mut first: Option<usize> = None;
    let mut within: Vec<usize> = Vec::new();
    let ghost equal_all = equal_marks(texts(names@), query@);
    let ghost within_all = within_marks(texts(names@), query@);
    proof {
        assert(offsets(within@) =~= positions(within_all.take(0)));
    }
    let mut i: usize = 0;
    while i < names.len()
        invariant
            i <= names.len(),
            wanted@ == query@,
            equal_all == equal_marks(texts(names@), query@),
            within_all == within_marks(texts(names@), query@),
            first_of(positions(equal_all.take(i as int))) == match first {
                Some(i) => Some(i as int),
                None => None,
            },
            offsets(within@) == positions(within_all.take(i as int)),
        decreases names.len() - i,
    {
        let name: &String = &names[i];
        let equal: bool = *name == wanted;
        let ghost before = offsets(within@);
        proof {
            lemma_positions_step(equal_all, i as int);
            lemma_positions_step(within_all, i as int);
            assert(texts(names@)[i as int] == name@);
            if equal {
                let text = encode_utf8(name@);
                assert(text.subrange(0, text.len() as int) =~= text);
                assert(occurs_at(text, encode_utf8(query@), 0));
            }
        }
        if equal && first.is_none() {
            first = Some(i);
        }
        if equal || contains_bytes(name.as_str().as_bytes(), query.as_bytes()) {
            within.push(i);
            proof {
                assert(offsets(within@) =~= before.push(i as int));
            }
        }
        i += 1;
    }
    proof {
        assert(equal_all.take(i as int) =~= equal_all);
        assert(within_all.take(i as int) =~= within_all);
    }
    (first, within)
}

/// Chooses among names for a query, both taken as they are.
pub fn choose_rooms(names: &Vec<String>, query: &str) -> (r: Choice)
    ensures
        r@ == chosen(texts(names@), query@),
{
    let (first, within) = scan(names, query);
    match first {
        Some(i) => Choice::Single(i),
        None => {
            if within.len() == 1 {
                assert(offsets(within@)[0] == within@[0]);
                Choice::Single(within[0])
            } else if within.len() >= 2 {
                Choice::Several(within)
            } else {
                Choice::NotFound
            }
        },
    }
}

/// Chooses the one name that a query stands for, both taken as they are.
pub fn choose_room(names: &Vec<String>, query: &str) -> (r: Option<usize>)
    ensures
        chosen_one(texts(names@), query@) == match r {
            Some(i) => Some(i as int),
            None => None,
        },
{
    let (first, within) = scan(names, query);
    match first {
        Some(i) => Some(i),
        None => {
            if within.len() > 0 {
                assert(offsets(within@)[0] == within@[0]);
                Some(within[0])
            } else {
                None
            }
        },
    }
}

/// The lower-case copies of the names of the rooms.
fn lower_names(aule: &Vec<Aula>) -> (names: Vec<String>)
    ensures
        texts(names@) == lowered_names(aule@),
{
    let mut names: Vec<String> = Vec::new();
    let mut i: usize = 0;
    while i < aule.len()
        invariant
            i <= aule.len(),
            names@.len() == i,
            forall|j: int| 0 <= j < i ==> (#[trigger] names@[j])@ == lowercase(aule@[j].descrizione@),
        decreases aule.len() - i,
    {
        names.push(aule[i].descrizione.as_str().to_lowercase());
        i += 1;
    }
    proof {
        assert(texts(names@) =~= lowered_names(aule@));
    }
    names
}

/// Searches the list for the room that the query names.
pub fn cerca<'a>(aule: &'a Vec<Aula>, nome: &str) -> (r: Search<'a>)
    ensures
        r@ == matches(aule@, nome@),
{
    let query: String = nome.to_lowercase();
    let names: Vec<String> = lower_names(aule);
    let ghost equal = equal_marks(lowered_names(aule@), lowercase(nome@));
    let ghost within = within_marks(lowered_names(aule@), lowercase(nome@));
    match choose_rooms(&names, query.as_str()) {
        Choice::Single(i) => {
            proof {
                if positions(equal).len() > 0 {
                    lemma_positions_marked(equal, 0);
                } else {
                    lemma_positions_marked(within, 0);
                }
            }
            Search::Single(&aule[i])
        },
        Choice::Several(places) => {
            let mut found: Vec<&'a Aula> = Vec::new();
            let mut k: usize = 0;
            while k < places.len()
                invariant
                    k <= places.len(),
                    within.len() == aule@.len(),
                    offsets(places@) == positions(within),
                    found@.len() == k,
                    forall|l: int| 0 <= l < k ==> *(#[trigger] found@[l]) == aule@[places@[l] as int],
                decreases places.len() - k,
            {
                proof {
                    assert(offsets(places@)[k as int] == places@[k as int]);
                    lemma_positions_marked(within, k as int);
                }
                found.push(&aule[places[k]]);
                k += 1;
            }
            proof {
                assert(rooms_of(found@) =~= rooms_at(aule@, offsets(places@)));
            }
            Search::Several(found)
        },
        Choice::NotFound => Search::NotFound,
    }
}

/// Resolves the query to one room, for the callers that cannot show a list of
/// candidates.
pub fn resolve_room<'a>(aule: &'a Vec<Aula>, nome: &str) -> (r: Option<&'a Aula>)
    ensures
        room_of(r) == resolved(aule@, nome@),
{
    let query: String = nome.to_lowercase();
    let names: Vec<String> = lower_names(aule);
    let ghost equal = equal_marks(lowered_names(aule@), lowercase(nome@));
    let ghost within = within_marks(lowered_names(aule@), lowercase(nome@));
    match choose_room(&names, query.as_str()) {
        Some(i) => {
            proof {
                if positions(equal).len() > 0 {
                    lemma_positions_marked(equal, 0);
                } else {
                    lemma_positions_marked(within, 0);
                }
            }
            Some(&aule[i])
        },
        None => None,
    }
}

/// A room whose name equals the query is the answer, whatever other rooms
/// contain the query: the search gives that room alone. Where several rooms
/// bear the name, it is the first of them in the list.
pub proof fn law_exact_match_wins(aule: Seq<Aula>, query: Seq<char>, i: int)
    requires
        0 <= i < aule.len(),
        same_name(aule[i].descrizione@, query),
        forall|j: int| 0 <= j < i ==> !same_name(#[trigger] aule[j].descrizione@, query),
    ensures
        matches(aule, query) == Matches::Single(aule[i]),
{
    let equal = equal_marks(lowered_names(aule), lowercase(query));
    assert forall|j: int| 0 <= j < i implies !equal[j] by {
        assert(!same_name(aule[j].descrizione@, query));
    }
    lemma_positions_first(equal, i);
}

/// With no room of that name, a single room whose name contains the query is
/// the answer.
pub proof fn law_single_partial_match(aule: Seq<Aula>, query: Seq<char>, i: int)
    requires
        0 <= i < aule.len(),
        forall|j: int| 0 <= j < aule.len() ==> !same_name(#[trigger] aule[j].descrizione@, query),
        name_contains(aule[i].descrizione@, query),
        forall|j: int|
            0 <= j < aule.len() && j != i ==> !name_contains(
                #[trigger] aule[j].descrizione@,
                query,
            ),
    ensures
        matches(aule, query) == Matches::Single(aule[i]),
{
    let equal = equal_marks(lowered_names(aule), lowercase(query));
    let within = within_marks(lowered_names(aule), lowercase(query));
    assert forall|j: int| 0 <= j < equal.len() implies !equal[j] by {
        assert(!same_name(aule[j].descrizione@, query));
    }
    assert forall|j: int| 0 <= j < within.len() && j != i implies !within[j] by {
        assert(!name_contains(aule[j].descrizione@, query));
    }
    lemma_positions_none(equal);
    lemma_positions_only(within, i);
}

/// With no room of that name and two or more rooms whose name contains the
/// query, the answer is the list of exactly those rooms, in list order: each
/// of them contains the query, and every room of the list that contains it is
/// among them.
pub proof fn law_several_partial_matches(aule: Seq<Aula>, query: Seq<char>, i: int, j: int)
    requires
        0 <= i < j < aule.len(),
        forall|k: int| 0 <= k < aule.len() ==> !same_name(#[trigger] aule[k].descrizione@, query),
        name_contains(aule[i].descrizione@, query),
        name_contains(aule[j].descrizione@, query),
    ensures
        matches(aule, query) == Matches::Several(partial_matches(aule, query)),
        forall|k: int|
            0 <= k < partial_matches(aule, query).len() ==> name_contains(
                #[trigger] partial_matches(aule, query)[k].descrizione@,
                query,
            ),
        forall|k: int|
            0 <= k < aule.len() && name_contains(aule[k].descrizione@, query)
                ==> partial_matches(aule, query).contains(#[trigger] aule[k]),
{
    let equal = equal_marks(lowered_names(aule), lowercase(query));
    let within = within_marks(lowered_names(aule), lowercase(query));
    let places = positions(within);
    let listed = partial_matches(aule, query);
    assert forall|k: int| 0 <= k < equal.len() implies !equal[k] by {
        assert(!same_name(aule[k].descrizione@, query));
    }
    lemma_positions_none(equal);
    lemma_positions_two(within, i, j);
    assert forall|k: int| 0 <= k < listed.len() implies name_contains(
        #[trigger] listed[k].descrizione@,
        query,
    ) by {
        lemma_positions_marked(within, k);
    }
    assert forall|k: int|
        0 <= k < aule.len() && name_contains(aule[k].descrizione@, query) implies listed.contains(
        #[trigger] aule[k],
    ) by {
        lemma_positions_complete(within, k);
        let m = choose|m: int| 0 <= m < places.len() && places[m] == k;
        assert(listed[m] == aule[k]);
    }
}

/// With no room whose name equals or contains the query, nothing is found.
pub proof fn law_no_match(aule: Seq<Aula>, query: Seq<char>)
    requires
        forall|j: int|
            0 <= j < aule.len() ==> !name_contains(#[trigger] aule[j].descrizione@, query),
    ensures
        matches(aule, query) == Matches::NotFound,
{
    let equal = equal_marks(lowered_names(aule), lowercase(query));
    let within = within_marks(lowered_names(aule), lowercase(query));
    assert forall|j: int| 0 <= j < equal.len() implies !equal[j] by {
        assert(!name_contains(aule[j].descrizione@, query));
        if same_name(aule[j].descrizione@, query) {
            lemma_same_name_contains(aule[j].descrizione@, query);
        }
    }
    assert forall|j: int| 0 <= j < within.len() implies !within[j] by {
        assert(!name_contains(aule[j].descrizione@, query));
    }
    lemma_positions_none(equal);
    lemma_positions_none(within);
}

} // verus!
