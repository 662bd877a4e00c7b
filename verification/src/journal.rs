//! The journal: the list of wines kept, and the operations on it that the
//! commands carry out (add, find, update, remove, summarise).
use vstd::prelude::*;
use vstd::string::*;

use crate::text::{
    decimal, has_visible_char, lemma_blank_iff_no_visible_char, lemma_blank_iff_trimmed_blank,
    push_decimal, text_is_blank, trim, trimmed,
};
use crate::wine::{
    check_price, check_rating, check_vintage, date_accepted, error_message, ids_below_max,
    input_accepted, lemma_max_id, made_from, max_id, price_accepted,
    lemma_price_acceptance, price_is_finite, price_is_negative, rating_in_range, refusal_of, vintage_in_range,
    wine_is_sound, Wine, WineError, WineInput,
};

verus! {

/// Whether some wine of `wines` has id `id`.
pub open spec fn has_id(wines: Seq<Wine>, id: u64) -> bool {
    exists|i: int| 0 <= i < wines.len() && #[trigger] wines[i].id == id
}

/// Whether `i` is the first position in `wines` of a wine with id `id`.
pub open spec fn is_first_index(wines: Seq<Wine>, id: u64, i: int) -> bool {
    &&& 0 <= i < wines.len()
    &&& wines[i].id == id
    &&& forall|j: int| 0 <= j < i ==> #[trigger] wines[j].id != id
}

/// Whether no two wines of `wines` share an id.
pub open spec fn ids_unique(wines: Seq<Wine>) -> bool {
    forall|i: int, j: int|
        0 <= i < wines.len() && 0 <= j < wines.len() && i != j ==> #[trigger] wines[i].id
            != #[trigger] wines[j].id
}

/// Whether the journal keeps its rules: ids are unique and every wine keeps
/// the rules of a wine record.
pub open spec fn journal_is_sound(wines: Seq<Wine>) -> bool {
    &&& ids_unique(wines)
    &&& forall|i: int| 0 <= i < wines.len() ==> wine_is_sound(#[trigger] wines[i])
}

/// The position of the first wine with id `id`, if there is one.
pub fn position_of(wines: &[Wine], id: u64) -> (r: Option<usize>)
    ensures
        r is None <==> !has_id(wines@, id),
        r matches Some(i) ==> is_first_index(wines@, id, i as int),
{
    let mut i: usize = 0;
    while i < wines.len()
        invariant
            i <= wines.len(),
            forall|j: int| 0 <= j < i ==> #[trigger] wines@[j].id != id,
        decreases wines.len() - i,
    {
        if wines[i].id == id {
            return Some(i);
        }
        i = i + 1;
    }
    None
}

/// Why a command on the journal was refused.
#[derive(Debug)]
pub enum JournalError {
    /// No wine has this id.
    NotFound(u64),
    /// The change breaks a rule of the wine record.
    Invalid(WineError),
}

/// The text of each refusal, as the user reads it.
pub open spec fn journal_error_message(e: JournalError) -> Seq<char> {
    match e {
        JournalError::NotFound(id) => "Wine with ID "@ + decimal(id as nat) + " not found"@,
        JournalError::Invalid(w) => error_message(w),
    }
}

impl JournalError {
    /// The text of the refusal.
    pub fn message(&self) -> (m: String)
        ensures
            m@ == journal_error_message(*self),
    {
        match self {
            JournalError::NotFound(id) => {
                let mut m = String::from_str("Wine with ID ");
                push_decimal(&mut m, *id);
                m.append(" not found");
                m
            },
            JournalError::Invalid(w) => w.message(),
        }
    }
}

/// Adds the wine made from `input` to the journal, under the next id.
/// Returns that id, or the refusal of the input, in which case the journal
/// is unchanged.
pub fn add_wine(wines: &mut Vec<Wine>, input: WineInput) -> (r: Result<u64, WineError>)
    requires
        ids_below_max(old(wines)@),
    ensures
        r is Ok <==> input_accepted(input),
        r matches Ok(id) ==> {
            &&& id == max_id(old(wines)@) + 1
            &&& final(wines)@.len() == old(wines)@.len() + 1
            &&& final(wines)@.drop_last() == old(wines)@
            &&& made_from(final(wines)@.last(), id, input)
        },
        r matches Err(e) ==> refusal_of(e, input) && final(wines)@ == old(wines)@,
        ids_unique(old(wines)@) ==> ids_unique(final(wines)@),
        journal_is_sound(old(wines)@) ==> journal_is_sound(final(wines)@),
{
    let id = Wine::next_id(wines.as_slice());
    match Wine::from_input(id, input) {
        Ok(w) => {
            wines.push(w);
            assert(wines@.drop_last() == old(wines)@);
            assert forall|i: int| 0 <= i < wines@.len() - 1 implies #[trigger] wines@[i] == old(
                wines,
            )@[i] by {}
            Ok(id)
        },
        Err(e) => Err(e),
    }
}

/// Removes the first wine with id `id` and returns it; `None`, with the
/// journal unchanged, where no wine has that id.
pub fn remove_wine(wines: &mut Vec<Wine>, id: u64) -> (r: Option<Wine>)
    ensures
        r is None <==> !has_id(old(wines)@, id),
        r is None ==> final(wines)@ == old(wines)@,
        r matches Some(w) ==> exists|i: int|
            is_first_index(old(wines)@, id, i) && w == old(wines)@[i] && final(wines)@ == old(
                wines,
            )@.remove(i),
        ids_unique(old(wines)@) ==> ids_unique(final(wines)@),
        ids_unique(old(wines)@) ==> !has_id(final(wines)@, id),
        journal_is_sound(old(wines)@) ==> journal_is_sound(final(wines)@),
{
    match position_of(wines.as_slice(), id) {
        Some(i) => {
            let ghost before = wines@;
            let w = wines.remove(i);
            assert forall|k: int| 0 <= k < wines@.len() implies #[trigger] wines@[k] == before[if k
                < i {
                k
            } else {
                k + 1
            }] by {}
            Some(w)
        },
        None => None,
    }
}

/// Removing a wine whose id is below the largest id leaves the largest id,
/// and so the next id, as it was.
pub proof fn lemma_remove_below_max_keeps_next_id(wines: Seq<Wine>, i: int)
    requires
        0 <= i < wines.len(),
        wines[i].id < max_id(wines),
    ensures
        max_id(wines.remove(i)) == max_id(wines),
{
    let r = wines.remove(i);
    lemma_max_id(wines);
    lemma_max_id(r);
    let j = choose|j: int| 0 <= j < wines.len() && wines[j].id == max_id(wines);
    let k = if j < i {
        j
    } else {
        j - 1
    };
    assert(r[k] == wines[j]);
    if max_id(r) != 0 {
        let m = choose|m: int| 0 <= m < r.len() && r[m].id == max_id(r);
        let from = if m < i {
            m
        } else {
            m + 1
        };
        assert(r[m] == wines[from]);
    }
}

/// The changes that an update asks for: each field that is given replaces
/// the wine's.
#[derive(Debug)]
pub struct WineChanges {
    pub vintage: Option<u32>,
    /// A price as the bit pattern of an IEEE 754 binary32 number.
    pub price_bits: Option<u32>,
    pub purchase_date: Option<String>,
    pub drink_by: Option<String>,
    pub producer: Option<String>,
    pub region: Option<String>,
    pub country: Option<String>,
    pub grape: Option<String>,
    pub rating: Option<u8>,
    pub notes: Option<String>,
    pub tags: Option<Vec<String>>,
}

/// An optional field after an update: the trimmed replacement where one is
/// given, else the old value.
pub open spec fn replaced_text(old: Option<Seq<char>>, new: Option<Seq<char>>) -> Option<
    Seq<char>,
> {
    match new {
        Some(s) => Some(trimmed(s)),
        None => old,
    }
}

/// Each text of `texts`, trimmed, in order.
pub open spec fn trimmed_all(texts: Seq<Seq<char>>) -> Seq<Seq<char>> {
    texts.map_values(|t: Seq<char>| trimmed(t))
}

/// Whether `new` is `old` with `changes` applied: the given fields replaced
/// (texts trimmed, a grape as the only grape), every other field kept.
pub open spec fn changed_by(new: Wine, old: Wine, changes: WineChanges) -> bool {
    &&& new.id == old.id
    &&& new.name@ == old.name@
    &&& new.price_bits == (if changes.price_bits is Some {
        changes.price_bits
    } else {
        old.price_bits
    })
    &&& new.purchase_date.deep_view() == replaced_text(
        old.purchase_date.deep_view(),
        changes.purchase_date.deep_view(),
    )
    &&& new.drink_by.deep_view() == replaced_text(
        old.drink_by.deep_view(),
        changes.drink_by.deep_view(),
    )
    &&& new.vintage == (if changes.vintage is Some {
        changes.vintage
    } else {
        old.vintage
    })
    &&& new.rating == (if changes.rating is Some {
        changes.rating
    } else {
        old.rating
    })
    &&& new.producer.deep_view() == replaced_text(
        old.producer.deep_view(),
        changes.producer.deep_view(),
    )
    &&& new.region.deep_view() == replaced_text(old.region.deep_view(), changes.region.deep_view())
    &&& new.country.deep_view() == replaced_text(
        old.country.deep_view(),
        changes.country.deep_view(),
    )
    &&& new.notes.deep_view() == replaced_text(old.notes.deep_view(), changes.notes.deep_view())
    &&& new.grapes.deep_view() == (match changes.grape {
        Some(g) => Some(seq![trimmed(g@)]),
        None => old.grapes.deep_view(),
    })
    &&& new.tags.deep_view() == (match changes.tags {
        Some(t) => Some(trimmed_all(t.deep_view())),
        None => old.tags.deep_view(),
    })
}

/// Whether the update asked for by `changes` may be made.
pub open spec fn changes_accepted(changes: WineChanges) -> bool {
    &&& (changes.vintage matches Some(v) ==> vintage_in_range(v))
    &&& (changes.rating matches Some(r) ==> rating_in_range(r))
    &&& price_accepted(changes.price_bits)
    &&& date_accepted(changes.purchase_date.deep_view())
    &&& date_accepted(changes.drink_by.deep_view())
}

/// Whether `e` is the refusal of `changes` to a wine that exists: the first
/// rule that the changes break, checked in the order vintage, rating, price,
/// purchase date, drink-by date.
pub open spec fn change_refusal_of(e: WineError, changes: WineChanges) -> bool {
    if changes.vintage matches Some(v) && !vintage_in_range(v) {
        e is VintageOutOfRange
    } else if changes.rating matches Some(r) && !rating_in_range(r) {
        e is RatingOutOfRange
    } else if changes.price_bits matches Some(p) && !price_is_finite(p) {
        e is PriceNotFinite
    } else if changes.price_bits matches Some(p) && price_is_negative(p) {
        e is PriceNegative
    } else if !date_accepted(changes.purchase_date.deep_view()) {
        e matches WineError::EmptyField(f) && f@ == "Purchase date"@
    } else {
        e matches WineError::EmptyField(f) && f@ == "Drink-by date"@
    }
}

/// An updated wine keeps its id and name; each field the changes give is
/// replaced (texts trimmed, a grape as the only grape, each tag trimmed), and
/// each field they do not give is kept.
pub proof fn lemma_update_fields(new: Wine, old: Wine, changes: WineChanges)
    requires
        changed_by(new, old, changes),
    ensures
        new.id == old.id,
        new.name@ == old.name@,
        changes.vintage is Some ==> new.vintage == changes.vintage,
        changes.vintage is None ==> new.vintage == old.vintage,
        changes.rating is Some ==> new.rating == changes.rating,
        changes.rating is None ==> new.rating == old.rating,
        changes.price_bits is Some ==> new.price_bits == changes.price_bits,
        changes.price_bits is None ==> new.price_bits == old.price_bits,
        changes.producer is Some ==> new.producer is Some && new.producer->0@ == trimmed(
            changes.producer->0@,
        ),
        changes.producer is None ==> new.producer.deep_view() == old.producer.deep_view(),
        changes.region is Some ==> new.region is Some && new.region->0@ == trimmed(
            changes.region->0@,
        ),
        changes.region is None ==> new.region.deep_view() == old.region.deep_view(),
        changes.country is Some ==> new.country is Some && new.country->0@ == trimmed(
            changes.country->0@,
        ),
        changes.country is None ==> new.country.deep_view() == old.country.deep_view(),
        changes.notes is Some ==> new.notes is Some && new.notes->0@ == trimmed(
            changes.notes->0@,
        ),
        changes.notes is None ==> new.notes.deep_view() == old.notes.deep_view(),
        changes.purchase_date is Some ==> new.purchase_date is Some && new.purchase_date->0@
            == trimmed(changes.purchase_date->0@),
        changes.purchase_date is None ==> new.purchase_date.deep_view()
            == old.purchase_date.deep_view(),
        changes.drink_by is Some ==> new.drink_by is Some && new.drink_by->0@ == trimmed(
            changes.drink_by->0@,
        ),
        changes.drink_by is None ==> new.drink_by.deep_view() == old.drink_by.deep_view(),
        changes.grape is Some ==> new.grapes is Some && new.grapes->0@.len() == 1
            && new.grapes->0@[0]@ == trimmed(changes.grape->0@),
        changes.grape is None ==> new.grapes.deep_view() == old.grapes.deep_view(),
        changes.tags is Some ==> new.tags is Some && new.tags->0@.len() == changes.tags->0@.len()
            && forall|k: int|
            0 <= k < new.tags->0@.len() ==> #[trigger] new.tags->0@[k]@ == trimmed(
                changes.tags->0@[k]@,
            ),
        changes.tags is None ==> new.tags.deep_view() == old.tags.deep_view(),
{
    if new.grapes is Some {
        let g = new.grapes->0;
        assert(g.deep_view().len() == g@.len());
        if g@.len() > 0 {
            assert(g.deep_view()[0] == g@[0]@);
        }
    }
    if changes.tags is Some {
        let t = new.tags->0;
        let c = changes.tags->0;
        assert(t.deep_view().len() == t@.len());
        assert(c.deep_view().len() == c@.len());
        assert forall|k: int| 0 <= k < t@.len() implies #[trigger] t@[k]@ == trimmed(c@[k]@) by {
            assert(t.deep_view()[k] == t@[k]@);
            assert(c.deep_view()[k] == c@[k]@);
        }
    }
}

/// An update is accepted exactly where a given vintage lies in 1900 to 2100,
/// a given rating in 1 to 5, a given price is finite and not below zero, and
/// a given date has a character that is not white space.
pub proof fn lemma_changes_acceptance(changes: WineChanges)
    ensures
        changes_accepted(changes) <==> {
            &&& (changes.vintage matches Some(v) ==> 1900 <= v <= 2100)
            &&& (changes.rating matches Some(r) ==> 1 <= r <= 5)
            &&& (changes.price_bits matches Some(p) ==> p < 0x7F80_0000 || p == 0x8000_0000)
            &&& (changes.purchase_date matches Some(d) ==> has_visible_char(d@))
            &&& (changes.drink_by matches Some(d) ==> has_visible_char(d@))
        },
        changes.vintage is Some && (changes.vintage->0 < 1900 || changes.vintage->0 > 2100)
            ==> forall|e: WineError| #[trigger] change_refusal_of(e, changes) ==> e is VintageOutOfRange,
        (changes.vintage matches Some(v) ==> 1900 <= v <= 2100) && changes.rating is Some && (
        changes.rating->0 < 1 || changes.rating->0 > 5) ==> forall|e: WineError|
            #[trigger] change_refusal_of(e, changes) ==> e is RatingOutOfRange,
        (changes.vintage matches Some(v) ==> 1900 <= v <= 2100) && (changes.rating matches Some(r)
            ==> 1 <= r <= 5) && changes.price_bits is Some && (0x7F80_0000 <= changes.price_bits->0
            <= 0x7FFF_FFFF || 0xFF80_0000 <= changes.price_bits->0) ==> forall|e: WineError|
            #[trigger] change_refusal_of(e, changes) ==> e is PriceNotFinite,
        (changes.vintage matches Some(v) ==> 1900 <= v <= 2100) && (changes.rating matches Some(r)
            ==> 1 <= r <= 5) && changes.price_bits is Some && 0x8000_0000 < changes.price_bits->0
            < 0xFF80_0000 ==> forall|e: WineError|
            #[trigger] change_refusal_of(e, changes) ==> e is PriceNegative,
        (changes.vintage matches Some(v) ==> 1900 <= v <= 2100) && (changes.rating matches Some(r)
            ==> 1 <= r <= 5) && (changes.price_bits matches Some(p) ==> p < 0x7F80_0000 || p
            == 0x8000_0000) && changes.purchase_date is Some && !has_visible_char(
            changes.purchase_date->0@,
        ) ==> forall|e: WineError| #[trigger] change_refusal_of(e, changes) ==> (
        e matches WineError::EmptyField(f) && f@ == "Purchase date"@),
{
    if let Some(d) = changes.purchase_date {
        lemma_blank_iff_no_visible_char(d@);
    }
    if let Some(d) = changes.drink_by {
        lemma_blank_iff_no_visible_char(d@);
    }
    if let Some(p) = changes.price_bits {
        lemma_price_acceptance(p);
    }
}

/// The texts of `texts`, each trimmed.
fn trim_all(texts: &Vec<String>) -> (r: Vec<String>)
    ensures
        r.deep_view() == trimmed_all(texts.deep_view()),
{
    let mut out: Vec<String> = Vec::new();
    let mut i: usize = 0;
    while i < texts.len()
        invariant
            i <= texts.len(),
            out.deep_view() == trimmed_all(texts.deep_view().take(i as int)),
        decreases texts.len() - i,
    {
        let t = trim(texts[i].as_str());
        let ghost before = out.deep_view();
        out.push(t);
        assert(out.deep_view() == before.push(t@));
        assert(trimmed_all(texts.deep_view().take(i + 1)) == trimmed_all(
            texts.deep_view().take(i as int),
        ).push(trimmed(texts.deep_view()[i as int])));
        i = i + 1;
    }
    assert(texts.deep_view().take(texts.len() as int) == texts.deep_view());
    out
}

/// A replacement text, trimmed.
fn trimmed_some(s: Option<String>) -> (r: Option<String>)
    ensures
        s is Some <==> r is Some,
        s matches Some(t) ==> r.deep_view() == Some(trimmed(t@)),
{
    match s {
        Some(t) => Some(trim(t.as_str())),
        None => None,
    }
}

/// Checks `changes` against the rules of a wine record, in the order
/// vintage, rating, price, purchase date, drink-by date.
pub fn check_changes(changes: &WineChanges) -> (r: Result<(), WineError>)
    ensures
        r is Ok <==> changes_accepted(*changes),
        r matches Err(e) ==> change_refusal_of(e, *changes),
{
    match check_vintage(changes.vintage) {
        Ok(()) => {},
        Err(e) => {
            return Err(e);
        },
    }
    match check_rating(changes.rating) {
        Ok(()) => {},
        Err(e) => {
            return Err(e);
        },
    }
    match check_price(changes.price_bits) {
        Ok(()) => {},
        Err(e) => {
            return Err(e);
        },
    }
    match &changes.purchase_date {
        Some(d) => {
            if text_is_blank(d.as_str()) {
                return Err(WineError::EmptyField(String::from_str("Purchase date")));
            }
        },
        None => {},
    }
    match &changes.drink_by {
        Some(d) => {
            if text_is_blank(d.as_str()) {
                return Err(WineError::EmptyField(String::from_str("Drink-by date")));
            }
        },
        None => {},
    }
    Ok(())
}

/// `w` with `changes` applied.
pub fn apply_changes(w: Wine, changes: WineChanges) -> (n: Wine)
    requires
        changes_accepted(changes),
    ensures
        changed_by(n, w, changes),
        wine_is_sound(w) ==> wine_is_sound(n),
{
    let ghost given = changes;
    proof {
        if let Some(d) = given.purchase_date {
            lemma_blank_iff_trimmed_blank(d@);
        }
        if let Some(d) = given.drink_by {
            lemma_blank_iff_trimmed_blank(d@);
        }
    }
    let mut n = w;
    if changes.vintage.is_some() {
        n.vintage = changes.vintage;
    }
    if changes.rating.is_some() {
        n.rating = changes.rating;
    }
    if changes.price_bits.is_some() {
        n.price_bits = changes.price_bits;
    }
    if changes.purchase_date.is_some() {
        n.purchase_date = trimmed_some(changes.purchase_date);
    }
    if changes.drink_by.is_some() {
        n.drink_by = trimmed_some(changes.drink_by);
    }
    if changes.producer.is_some() {
        n.producer = trimmed_some(changes.producer);
    }
    if changes.region.is_some() {
        n.region = trimmed_some(changes.region);
    }
    if changes.country.is_some() {
        n.country = trimmed_some(changes.country);
    }
    if changes.notes.is_some() {
        n.notes = trimmed_some(changes.notes);
    }
    match changes.grape {
        Some(g) => {
            let mut v: Vec<String> = Vec::new();
            v.push(trim(g.as_str()));
            assert(v.deep_view() == seq![trimmed(g@)]);
            n.grapes = Some(v);
        },
        None => {},
    }
    match changes.tags {
        Some(t) => {
            n.tags = Some(trim_all(&t));
        },
        None => {},
    }
    n
}

/// Applies `changes` to the first wine with id `id` and returns its
/// position. Refuses, with the journal unchanged, where no wine has that id,
/// else where a given field breaks the rules of a wine record.
pub fn update_wine(wines: &mut Vec<Wine>, id: u64, changes: WineChanges) -> (r: Result<
    usize,
    JournalError,
>)
    ensures
        r is Ok <==> has_id(old(wines)@, id) && changes_accepted(changes),
        r matches Ok(i) ==> {
            &&& is_first_index(old(wines)@, id, i as int)
            &&& final(wines)@.len() == old(wines)@.len()
            &&& forall|j: int|
                0 <= j < old(wines)@.len() && j != i ==> #[trigger] final(wines)@[j] == old(
                    wines,
                )@[j]
            &&& changed_by(final(wines)@[i as int], old(wines)@[i as int], changes)
        },
        r matches Err(e) ==> {
            &&& final(wines)@ == old(wines)@
            &&& if !has_id(old(wines)@, id) {
                e == JournalError::NotFound(id)
            } else {
                e matches JournalError::Invalid(w) && change_refusal_of(w, changes)
            }
        },
        ids_unique(old(wines)@) ==> ids_unique(final(wines)@),
        journal_is_sound(old(wines)@) ==> journal_is_sound(final(wines)@),
{
    let pos = match position_of(wines.as_slice(), id) {
        Some(p) => p,
        None => {
            return Err(JournalError::NotFound(id));
        },
    };
    match check_changes(&changes) {
        Ok(()) => {},
        Err(e) => {
            return Err(JournalError::Invalid(e));
        },
    }
    let w = wines.remove(pos);
    let n = apply_changes(w, changes);
    wines.insert(pos, n);
    assert(wines@ == old(wines)@.update(pos as int, n));
    Ok(pos)
}

} // verus!
