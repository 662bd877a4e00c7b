//! The wine record, the input it is made from, and the rules by which an
//! input is checked and normalised.
use vstd::prelude::*;
use vstd::string::*;

use crate::text::{
    has_visible_char, is_blank, lemma_blank_iff_no_visible_char, lemma_blank_iff_trimmed_blank,
    lemma_trimmed_idempotent, trim, trimmed,
};

verus! {

/// A wine in the journal.
///
/// `price_bits` holds the price as the bit pattern of an IEEE 754 binary32
/// number, the value that `f32::to_bits` gives.
#[derive(Debug, Clone)]
pub struct Wine {
    pub id: u64,
    pub name: String,
    pub producer: Option<String>,
    pub vintage: Option<u32>,
    pub price_bits: Option<u32>,
    pub purchase_date: Option<String>,
    pub drink_by: Option<String>,
    pub region: Option<String>,
    pub country: Option<String>,
    pub grapes: Option<Vec<String>>,
    pub rating: Option<u8>,
    pub notes: Option<String>,
    pub tags: Option<Vec<String>>,
}

/// What a user enters for a new wine, before it is checked.
///
/// `price_bits` is a price as the bit pattern of an IEEE 754 binary32 number.
#[derive(Debug)]
pub struct WineInput {
    pub name: String,
    pub producer: Option<String>,
    pub vintage: Option<u32>,
    pub price_bits: Option<u32>,
    pub purchase_date: Option<String>,
    pub drink_by: Option<String>,
    pub region: Option<String>,
    pub country: Option<String>,
    pub grape: Option<String>,
    pub rating: Option<u8>,
    pub notes: Option<String>,
    pub tags: Option<Vec<String>>,
}

/// Why an input or a change was refused.
#[derive(Debug)]
pub enum WineError {
    EmptyName,
    RatingOutOfRange,
    VintageOutOfRange,
    PriceNotFinite,
    PriceNegative,
    /// A field that was given holds nothing but white space; the string is
    /// the field's name as the user reads it.
    EmptyField(String),
}

/// The lowest rating.
pub const MIN_RATING: u8 = 1;

/// The highest rating.
pub const MAX_RATING: u8 = 5;

/// The earliest vintage.
pub const MIN_VINTAGE: u32 = 1900;

/// The latest vintage.
pub const MAX_VINTAGE: u32 = 2100;

/// Whether a given rating lies on the 1 to 5 scale.
pub open spec fn rating_in_range(r: u8) -> bool {
    MIN_RATING <= r <= MAX_RATING
}

/// Whether a given vintage lies between 1900 and 2100.
pub open spec fn vintage_in_range(v: u32) -> bool {
    MIN_VINTAGE <= v <= MAX_VINTAGE
}

/// Whether the binary32 number with bit pattern `bits` is finite: its
/// exponent field is not all ones.
pub open spec fn price_is_finite(bits: u32) -> bool {
    (bits / 0x80_0000) % 0x100 != 0xFF
}

/// Whether the binary32 number with bit pattern `bits` compares below zero:
/// its sign bit is set, it is not negative zero, and it is not a NaN (the
/// patterns above that of negative infinity).
pub open spec fn price_is_negative(bits: u32) -> bool {
    0x8000_0000 < bits <= 0xFF80_0000
}

/// An optional text, trimmed, with a blank one dropped.
pub open spec fn normalized_text(text: Option<Seq<char>>) -> Option<Seq<char>> {
    match text {
        Some(s) => if is_blank(s) {
            None
        } else {
            Some(trimmed(s))
        },
        None => None,
    }
}

/// The texts of `texts` that are not blank, trimmed, in their order.
pub open spec fn normalized_list(texts: Seq<Seq<char>>) -> Seq<Seq<char>>
    decreases texts.len(),
{
    if texts.len() == 0 {
        Seq::empty()
    } else {
        let rest = normalized_list(texts.drop_last());
        if is_blank(texts.last()) {
            rest
        } else {
            rest.push(trimmed(texts.last()))
        }
    }
}

/// An optional list of texts, normalised item by item, with an empty result
/// dropped.
pub open spec fn normalized_text_vec(texts: Option<Seq<Seq<char>>>) -> Option<Seq<Seq<char>>> {
    match texts {
        Some(v) => if normalized_list(v).len() == 0 {
            None
        } else {
            Some(normalized_list(v))
        },
        None => None,
    }
}

/// The text of each refusal, as the user reads it.
pub open spec fn error_message(e: WineError) -> Seq<char> {
    match e {
        WineError::EmptyName => "Wine name cannot be empty"@,
        WineError::RatingOutOfRange => "Rating must be between 1 and 5"@,
        WineError::VintageOutOfRange => "Vintage must be between 1900 and 2100"@,
        WineError::PriceNotFinite => "Price must be finite"@,
        WineError::PriceNegative => "Price must be non-negative"@,
        WineError::EmptyField(field) => field@ + " cannot be empty"@,
    }
}

impl WineError {
    /// The text of the refusal.
    pub fn message(&self) -> (m: String)
        ensures
            m@ == error_message(*self),
    {
        match self {
            WineError::EmptyName => String::from_str("Wine name cannot be empty"),
            WineError::RatingOutOfRange => String::from_str("Rating must be between 1 and 5"),
            WineError::VintageOutOfRange => String::from_str(
                "Vintage must be between 1900 and 2100",
            ),
            WineError::PriceNotFinite => String::from_str("Price must be finite"),
            WineError::PriceNegative => String::from_str("Price must be non-negative"),
            WineError::EmptyField(field) => {
                let mut m = field.clone();
                m.append(" cannot be empty");
                m
            },
        }
    }
}

/// An optional text, trimmed, or `None` where it is blank.
pub fn normalize_optional_text(text: Option<String>) -> (r: Option<String>)
    ensures
        r.deep_view() == normalized_text(text.deep_view()),
{
    match text {
        Some(s) => {
            let t = trim(s.as_str());
            if t.as_str().is_empty() {
                None
            } else {
                Some(t)
            }
        },
        None => None,
    }
}

/// Normalising an optional text twice gives what normalising it once gives.
pub proof fn lemma_normalized_text_idempotent(text: Option<Seq<char>>)
    ensures
        normalized_text(normalized_text(text)) == normalized_text(text),
{
    if let Some(s) = text {
        lemma_trimmed_idempotent(s);
    }
}

/// Normalising a list of texts twice gives what normalising it once gives.
pub proof fn lemma_normalized_list_idempotent(texts: Seq<Seq<char>>)
    ensures
        normalized_list(normalized_list(texts)) == normalized_list(texts),
    decreases texts.len(),
{
    if texts.len() > 0 {
        let rest = texts.drop_last();
        lemma_normalized_list_idempotent(rest);
        let x = texts.last();
        if !is_blank(x) {
            let n = normalized_list(texts);
            lemma_trimmed_idempotent(x);
            assert(n.drop_last() == normalized_list(rest));
            assert(n.last() == trimmed(x));
        }
    }
}

/// Normalising an optional list of texts twice gives what normalising it
/// once gives.
pub proof fn lemma_normalized_text_vec_idempotent(texts: Option<Seq<Seq<char>>>)
    ensures
        normalized_text_vec(normalized_text_vec(texts)) == normalized_text_vec(texts),
{
    if let Some(v) = texts {
        lemma_normalized_list_idempotent(v);
    }
}

/// An optional list of texts with each text trimmed and blank ones dropped,
/// or `None` where nothing is left.
pub fn normalize_optional_text_vec(texts: Option<Vec<String>>) -> (r: Option<Vec<String>>)
    ensures
        r.deep_view() == normalized_text_vec(texts.deep_view()),
{
    match texts {
        None => None,
        Some(v) => {
            let ghost dv = v.deep_view();
            let mut out: Vec<String> = Vec::new();
            let mut i: usize = 0;
            while i < v.len()
                invariant
                    i <= v.len(),
                    dv == v.deep_view(),
                    out.deep_view() == normalized_list(dv.take(i as int)),
                decreases v.len() - i,
            {
                let n = normalize_optional_text(Some(v[i].clone()));
                let ghost before = out.deep_view();
                match n {
                    Some(t) => {
                        out.push(t);
                        assert(out.deep_view() == before.push(trimmed(dv[i as int])));
                    },
                    None => {},
                }
                assert(dv.take(i + 1).drop_last() == dv.take(i as int));
                i = i + 1;
            }
            assert(dv.take(v.len() as int) == dv);
            if out.len() == 0 {
                None
            } else {
                Some(out)
            }
        },
    }
}

/// The outcome of normalising an optional date field named `field`.
pub open spec fn date_accepted(date: Option<Seq<char>>) -> bool {
    match date {
        Some(s) => !is_blank(s),
        None => true,
    }
}

/// An optional date, trimmed; refused where it is given but blank.
pub fn normalize_optional_date(date: Option<String>, field_name: &str) -> (r: Result<
    Option<String>,
    WineError,
>)
    ensures
        r is Ok <==> date_accepted(date.deep_view()),
        r matches Ok(d) ==> d.deep_view() == normalized_text(date.deep_view()),
        r matches Err(e) ==> e matches WineError::EmptyField(f) && f@ == field_name@,
{
    match date {
        Some(s) => {
            let t = trim(s.as_str());
            if t.as_str().is_empty() {
                Err(WineError::EmptyField(String::from_str(field_name)))
            } else {
                Ok(Some(t))
            }
        },
        None => Ok(None),
    }
}


/// Whether an optional price is finite and not negative.
pub open spec fn price_accepted(price_bits: Option<u32>) -> bool {
    price_bits matches Some(p) ==> price_is_finite(p) && !price_is_negative(p)
}

/// Checks an optional rating against the 1 to 5 scale.
pub fn check_rating(rating: Option<u8>) -> (r: Result<(), WineError>)
    ensures
        r is Ok <==> (rating matches Some(v) ==> rating_in_range(v)),
        r matches Err(e) ==> e is RatingOutOfRange,
{
    match rating {
        Some(v) => if MIN_RATING <= v && v <= MAX_RATING {
            Ok(())
        } else {
            Err(WineError::RatingOutOfRange)
        },
        None => Ok(()),
    }
}

/// Checks an optional vintage against the years 1900 to 2100.
pub fn check_vintage(vintage: Option<u32>) -> (r: Result<(), WineError>)
    ensures
        r is Ok <==> (vintage matches Some(v) ==> vintage_in_range(v)),
        r matches Err(e) ==> e is VintageOutOfRange,
{
    match vintage {
        Some(v) => if MIN_VINTAGE <= v && v <= MAX_VINTAGE {
            Ok(())
        } else {
            Err(WineError::VintageOutOfRange)
        },
        None => Ok(()),
    }
}

/// Checks that an optional price is finite, then that it is not negative.
pub fn check_price(price_bits: Option<u32>) -> (r: Result<(), WineError>)
    ensures
        r is Ok <==> price_accepted(price_bits),
        r matches Err(e) ==> if price_bits matches Some(p) && !price_is_finite(p) {
            e is PriceNotFinite
        } else {
            e is PriceNegative
        },
{
    match price_bits {
        Some(bits) => {
            if (bits / 0x80_0000) % 0x100 == 0xFF {
                Err(WineError::PriceNotFinite)
            } else if 0x8000_0000 < bits && bits <= 0xFF80_0000 {
                Err(WineError::PriceNegative)
            } else {
                Ok(())
            }
        },
        None => Ok(()),
    }
}

/// Whether `w` keeps the rules of a wine record: a name that is not blank,
/// a rating and a vintage in range, a finite price that is not negative, and
/// dates that are not blank.
pub open spec fn wine_is_sound(w: Wine) -> bool {
    &&& !is_blank(w.name@)
    &&& (w.rating matches Some(r) ==> rating_in_range(r))
    &&& (w.vintage matches Some(v) ==> vintage_in_range(v))
    &&& price_accepted(w.price_bits)
    &&& date_accepted(w.purchase_date.deep_view())
    &&& date_accepted(w.drink_by.deep_view())
}

/// Whether a new wine may be made from `input`.
pub open spec fn input_accepted(input: WineInput) -> bool {
    &&& !is_blank(input.name@)
    &&& (input.rating matches Some(r) ==> rating_in_range(r))
    &&& (input.vintage matches Some(v) ==> vintage_in_range(v))
    &&& price_accepted(input.price_bits)
    &&& date_accepted(input.purchase_date.deep_view())
    &&& date_accepted(input.drink_by.deep_view())
}

/// Whether `e` is the refusal of `input`: the first rule that the input
/// breaks, checked in the order name, rating, vintage, price, purchase date,
/// drink-by date.
pub open spec fn refusal_of(e: WineError, input: WineInput) -> bool {
    if is_blank(input.name@) {
        e is EmptyName
    } else if input.rating matches Some(r) && !rating_in_range(r) {
        e is RatingOutOfRange
    } else if input.vintage matches Some(v) && !vintage_in_range(v) {
        e is VintageOutOfRange
    } else if input.price_bits matches Some(p) && !price_is_finite(p) {
        e is PriceNotFinite
    } else if input.price_bits matches Some(p) && price_is_negative(p) {
        e is PriceNegative
    } else if !date_accepted(input.purchase_date.deep_view()) {
        e matches WineError::EmptyField(f) && f@ == "Purchase date"@
    } else {
        e matches WineError::EmptyField(f) && f@ == "Drink-by date"@
    }
}

/// The grapes of a wine made from an optional grape: one grape, normalised.
pub open spec fn grapes_from(grape: Option<Seq<char>>) -> Option<Seq<Seq<char>>> {
    match normalized_text(grape) {
        Some(g) => Some(seq![g]),
        None => None,
    }
}

/// Whether `w` is the wine with id `id` made from `input`: every text
/// normalised, the numbers kept.
pub open spec fn made_from(w: Wine, id: u64, input: WineInput) -> bool {
    &&& w.id == id
    &&& w.name@ == trimmed(input.name@)
    &&& w.producer.deep_view() == normalized_text(input.producer.deep_view())
    &&& w.vintage == input.vintage
    &&& w.price_bits == input.price_bits
    &&& w.purchase_date.deep_view() == normalized_text(input.purchase_date.deep_view())
    &&& w.drink_by.deep_view() == normalized_text(input.drink_by.deep_view())
    &&& w.region.deep_view() == normalized_text(input.region.deep_view())
    &&& w.country.deep_view() == normalized_text(input.country.deep_view())
    &&& w.grapes.deep_view() == grapes_from(input.grape.deep_view())
    &&& w.rating == input.rating
    &&& w.notes.deep_view() == normalized_text(input.notes.deep_view())
    &&& w.tags.deep_view() == normalized_text_vec(input.tags.deep_view())
}

/// A price is accepted exactly where it is a positive or zero finite number
/// or negative zero; it is refused as not finite exactly where it is an
/// infinity or a NaN.
pub proof fn lemma_price_acceptance(bits: u32)
    ensures
        price_accepted(Some(bits)) <==> (bits < 0x7F80_0000 || bits == 0x8000_0000),
        !price_is_finite(bits) <==> (0x7F80_0000 <= bits <= 0x7FFF_FFFF || 0xFF80_0000 <= bits),
        price_is_finite(bits) && price_is_negative(bits) <==> 0x8000_0000 < bits < 0xFF80_0000,
{
}

/// An input is accepted exactly where its name has a character that is not
/// white space, a given rating lies in 1 to 5, a given vintage in 1900 to
/// 2100, a given price is finite and not below zero, and a given date has a
/// character that is not white space.
pub proof fn lemma_input_acceptance(input: WineInput)
    ensures
        input_accepted(input) <==> {
            &&& has_visible_char(input.name@)
            &&& (input.rating matches Some(r) ==> 1 <= r <= 5)
            &&& (input.vintage matches Some(v) ==> 1900 <= v <= 2100)
            &&& (input.price_bits matches Some(p) ==> p < 0x7F80_0000 || p == 0x8000_0000)
            &&& (input.purchase_date matches Some(d) ==> has_visible_char(d@))
            &&& (input.drink_by matches Some(d) ==> has_visible_char(d@))
        },
{
    lemma_blank_iff_no_visible_char(input.name@);
    if let Some(d) = input.purchase_date {
        lemma_blank_iff_no_visible_char(d@);
    }
    if let Some(d) = input.drink_by {
        lemma_blank_iff_no_visible_char(d@);
    }
    if let Some(p) = input.price_bits {
        lemma_price_acceptance(p);
    }
}

/// The refusal of an input names the first rule it breaks, in the order
/// name, rating, vintage, price (not finite, then negative), purchase date,
/// drink-by date.
pub proof fn lemma_refusal_order(e: WineError, input: WineInput)
    requires
        refusal_of(e, input),
    ensures
        !has_visible_char(input.name@) ==> e is EmptyName,
        has_visible_char(input.name@) && input.rating is Some && (input.rating->0 < 1 || input.rating->0 > 5)
            ==> e is RatingOutOfRange,
        has_visible_char(input.name@) && (input.rating matches Some(r) ==> 1 <= r <= 5)
            && input.vintage is Some && (input.vintage->0 < 1900 || input.vintage->0 > 2100) ==> e is VintageOutOfRange,
        has_visible_char(input.name@) && (input.rating matches Some(r) ==> 1 <= r <= 5) && (
        input.vintage matches Some(v) ==> 1900 <= v <= 2100) && input.price_bits is Some
            && (0x7F80_0000 <= input.price_bits->0 <= 0x7FFF_FFFF || 0xFF80_0000 <= input.price_bits->0) ==> e is PriceNotFinite,
        has_visible_char(input.name@) && (input.rating matches Some(r) ==> 1 <= r <= 5) && (
        input.vintage matches Some(v) ==> 1900 <= v <= 2100) && input.price_bits is Some
            && 0x8000_0000 < input.price_bits->0 < 0xFF80_0000 ==> e is PriceNegative,
        has_visible_char(input.name@) && (input.rating matches Some(r) ==> 1 <= r <= 5) && (
        input.vintage matches Some(v) ==> 1900 <= v <= 2100) && (input.price_bits matches Some(p)
            ==> p < 0x7F80_0000 || p == 0x8000_0000) && input.purchase_date is Some
            && !has_visible_char(input.purchase_date->0@) ==> (e matches WineError::EmptyField(f) && f@
            == "Purchase date"@),
{
    lemma_blank_iff_no_visible_char(input.name@);
    if let Some(d) = input.purchase_date {
        lemma_blank_iff_no_visible_char(d@);
    }
    if let Some(p) = input.price_bits {
        lemma_price_acceptance(p);
    }
}

/// What normalising an optional text gives: nothing for nothing or a blank
/// text, else the trimmed text, which has a character that is not white
/// space.
pub proof fn lemma_normalized_text_meaning(text: Option<Seq<char>>)
    ensures
        text is None ==> normalized_text(text) is None,
        text is Some && !has_visible_char(text->0) ==> normalized_text(text) is None,
        text is Some && has_visible_char(text->0) ==> normalized_text(text) == Some(trimmed(text->0))
            && has_visible_char(trimmed(text->0)),
{
    if let Some(s) = text {
        lemma_blank_iff_no_visible_char(s);
    }
}

/// Normalising a list of texts keeps, in order, the trimmed form of each
/// text that has a character that is not white space, and drops the others.
pub proof fn lemma_normalized_list_meaning(texts: Seq<Seq<char>>, x: Seq<char>)
    ensures
        normalized_list(Seq::empty()) == Seq::<Seq<char>>::empty(),
        has_visible_char(x) ==> normalized_list(texts.push(x)) == normalized_list(texts).push(
            trimmed(x),
        ),
        !has_visible_char(x) ==> normalized_list(texts.push(x)) == normalized_list(texts),
{
    lemma_blank_iff_no_visible_char(x);
    assert(texts.push(x).drop_last() == texts);
}

/// Normalising an optional list of texts keeps only texts with a character
/// that is not white space, each trimmed, and gives a list only where one
/// such text is left.
pub proof fn lemma_normalized_text_vec_meaning(texts: Option<Seq<Seq<char>>>)
    ensures
        texts is None ==> normalized_text_vec(texts) is None,
        normalized_text_vec(texts) is Some ==> normalized_text_vec(texts)->0.len() > 0 && forall|k: int|
            0 <= k < normalized_text_vec(texts)->0.len() ==> has_visible_char(
                #[trigger] normalized_text_vec(texts)->0[k],
            ) && normalized_text_vec(texts)->0[k] == trimmed(normalized_text_vec(texts)->0[k]),
        texts is Some && (exists|k: int|
            0 <= k < texts->0.len() && has_visible_char(#[trigger] texts->0[k]))
            ==> normalized_text_vec(texts) is Some,
{
    if let Some(v) = texts {
        lemma_normalized_list_items(v);
    }
}

/// Each text that normalising a list keeps has a character that is not
/// white space and is trimmed; and some text is kept where some text has a
/// character that is not white space.
proof fn lemma_normalized_list_items(v: Seq<Seq<char>>)
    ensures
        forall|k: int|
            0 <= k < normalized_list(v).len() ==> has_visible_char(#[trigger] normalized_list(v)[k])
                && normalized_list(v)[k] == trimmed(normalized_list(v)[k]),
        (exists|k: int| 0 <= k < v.len() && has_visible_char(#[trigger] v[k])) ==> normalized_list(
            v,
        ).len() > 0,
    decreases v.len(),
{
    if v.len() > 0 {
        let rest = v.drop_last();
        lemma_normalized_list_items(rest);
        let x = v.last();
        lemma_blank_iff_no_visible_char(x);
        lemma_trimmed_idempotent(x);
        let n = normalized_list(v);
        if !is_blank(x) {
            assert(n == normalized_list(rest).push(trimmed(x)));
            assert forall|k: int| 0 <= k < n.len() implies has_visible_char(#[trigger] n[k]) && n[k]
                == trimmed(n[k]) by {
                if k < n.len() - 1 {
                    assert(n[k] == normalized_list(rest)[k]);
                }
            }
        }
        if exists|k: int| 0 <= k < v.len() && has_visible_char(#[trigger] v[k]) {
            let k = choose|k: int| 0 <= k < v.len() && has_visible_char(#[trigger] v[k]);
            if k < v.len() - 1 {
                assert(rest[k] == v[k]);
            }
        }
    }
}

/// A wine made from an input keeps its id, its numbers and its trimmed name,
/// and holds each optional text normalised: absent where the input's is
/// absent or blank, else trimmed.
pub proof fn lemma_made_from_fields(w: Wine, id: u64, input: WineInput)
    requires
        made_from(w, id, input),
    ensures
        w.id == id,
        w.name@ == trimmed(input.name@),
        w.vintage == input.vintage,
        w.rating == input.rating,
        w.price_bits == input.price_bits,
        input.producer is None ==> w.producer is None,
        input.producer is Some && !has_visible_char(input.producer->0@) ==> w.producer is None,
        input.producer is Some && has_visible_char(input.producer->0@) ==> w.producer is Some
            && w.producer->0@ == trimmed(input.producer->0@),
        input.region is None ==> w.region is None,
        input.region is Some && !has_visible_char(input.region->0@) ==> w.region is None,
        input.region is Some && has_visible_char(input.region->0@) ==> w.region is Some && w.region->0@
            == trimmed(input.region->0@),
        input.country is None ==> w.country is None,
        input.country is Some && !has_visible_char(input.country->0@) ==> w.country is None,
        input.country is Some && has_visible_char(input.country->0@) ==> w.country is Some
            && w.country->0@ == trimmed(input.country->0@),
        input.notes is None ==> w.notes is None,
        input.notes is Some && !has_visible_char(input.notes->0@) ==> w.notes is None,
        input.notes is Some && has_visible_char(input.notes->0@) ==> w.notes is Some && w.notes->0@
            == trimmed(input.notes->0@),
        input.purchase_date is None ==> w.purchase_date is None,
        input.purchase_date is Some && has_visible_char(input.purchase_date->0@) ==> w.purchase_date is Some
            && w.purchase_date->0@ == trimmed(input.purchase_date->0@),
        input.drink_by is None ==> w.drink_by is None,
        input.drink_by is Some && has_visible_char(input.drink_by->0@) ==> w.drink_by is Some
            && w.drink_by->0@ == trimmed(input.drink_by->0@),
        input.grape is None ==> w.grapes is None,
        input.grape is Some && !has_visible_char(input.grape->0@) ==> w.grapes is None,
        input.grape is Some && has_visible_char(input.grape->0@) ==> w.grapes is Some
            && w.grapes->0@.len() == 1 && w.grapes->0@[0]@ == trimmed(input.grape->0@),
        input.tags is None ==> w.tags is None,
{
    lemma_normalized_text_meaning(input.producer.deep_view());
    lemma_normalized_text_meaning(input.region.deep_view());
    lemma_normalized_text_meaning(input.country.deep_view());
    lemma_normalized_text_meaning(input.notes.deep_view());
    lemma_normalized_text_meaning(input.purchase_date.deep_view());
    lemma_normalized_text_meaning(input.drink_by.deep_view());
    lemma_normalized_text_meaning(input.grape.deep_view());
    if w.grapes is Some {
        let g = w.grapes->0;
        assert(g.deep_view().len() == g@.len());
        if g@.len() > 0 {
            assert(g.deep_view()[0] == g@[0]@);
        }
    }
}

/// A sound wine has a name with a character that is not white space, a
/// rating in 1 to 5, a vintage in 1900 to 2100 and a price that is a
/// positive or zero finite number or negative zero, where these are given.
pub proof fn lemma_sound_wine_ranges(w: Wine)
    requires
        wine_is_sound(w),
    ensures
        has_visible_char(w.name@),
        w.rating matches Some(r) ==> 1 <= r <= 5,
        w.vintage matches Some(v) ==> 1900 <= v <= 2100,
        w.price_bits matches Some(p) ==> p < 0x7F80_0000 || p == 0x8000_0000,
{
    lemma_blank_iff_no_visible_char(w.name@);
    if let Some(p) = w.price_bits {
        lemma_price_acceptance(p);
    }
}

/// The largest id among `wines`, or 0 where there is none.
pub open spec fn max_id(wines: Seq<Wine>) -> nat
    decreases wines.len(),
{
    if wines.len() == 0 {
        0
    } else if wines.last().id > max_id(wines.drop_last()) {
        wines.last().id as nat
    } else {
        max_id(wines.drop_last())
    }
}

/// Whether no id among `wines` is `u64::MAX`, so that one past the largest
/// is an id.
pub open spec fn ids_below_max(wines: Seq<Wine>) -> bool {
    forall|i: int| 0 <= i < wines.len() ==> #[trigger] wines[i].id < u64::MAX
}

/// Every id among `wines` is at most `max_id(wines)`, and a nonzero
/// `max_id(wines)` is one of them.
pub proof fn lemma_max_id(wines: Seq<Wine>)
    ensures
        forall|i: int| 0 <= i < wines.len() ==> #[trigger] wines[i].id <= max_id(wines),
        max_id(wines) == 0 || exists|i: int| 0 <= i < wines.len() && wines[i].id == max_id(wines),
    decreases wines.len(),
{
    if wines.len() > 0 {
        let rest = wines.drop_last();
        lemma_max_id(rest);
        assert forall|i: int| 0 <= i < wines.len() implies #[trigger] wines[i].id <= max_id(wines) by {
            if i < wines.len() - 1 {
                assert(wines[i] == rest[i]);
            }
        }
        if max_id(wines) != 0 && max_id(wines) == max_id(rest) {
            let k = choose|k: int| 0 <= k < rest.len() && rest[k].id == max_id(rest);
            assert(wines[k] == rest[k]);
        }
    }
}

impl Wine {
    /// The id for the next wine: one past the largest id in the journal,
    /// or 1 for an empty journal.
    pub fn next_id(wines: &[Wine]) -> (r: u64)
        requires
            ids_below_max(wines@),
        ensures
            r == max_id(wines@) + 1,
            forall|i: int| 0 <= i < wines.len() ==> #[trigger] wines@[i].id < r,
    {
        let mut m: u64 = 0;
        let mut i: usize = 0;
        while i < wines.len()
            invariant
                i <= wines.len(),
                m == max_id(wines@.take(i as int)),
                m == 0 || m < u64::MAX,
                ids_below_max(wines@),
            decreases wines.len() - i,
        {
            assert(wines@.take(i + 1).drop_last() == wines@.take(i as int));
            if wines[i].id > m {
                m = wines[i].id;
            }
            i = i + 1;
        }
        assert(wines@.take(wines.len() as int) == wines@);
        proof {
            lemma_max_id(wines@);
        }
        m + 1
    }

    /// The wine with id `id` made from `input`, or the refusal of the input.
    pub fn from_input(id: u64, input: WineInput) -> (r: Result<Wine, WineError>)
        ensures
            r is Ok <==> input_accepted(input),
            r matches Ok(w) ==> made_from(w, id, input) && wine_is_sound(w),
            r matches Err(e) ==> refusal_of(e, input),
    {
        let ghost given = input;
        let name = trim(input.name.as_str());
        if name.as_str().is_empty() {
            return Err(WineError::EmptyName);
        }
        match check_rating(input.rating) {
            Ok(()) => {},
            Err(e) => {
                return Err(e);
            },
        }
        match check_vintage(input.vintage) {
            Ok(()) => {},
            Err(e) => {
                return Err(e);
            },
        }
        match check_price(input.price_bits) {
            Ok(()) => {},
            Err(e) => {
                return Err(e);
            },
        }
        let purchase_date = match normalize_optional_date(input.purchase_date, "Purchase date") {
            Ok(d) => d,
            Err(e) => {
                return Err(e);
            },
        };
        let drink_by = match normalize_optional_date(input.drink_by, "Drink-by date") {
            Ok(d) => d,
            Err(e) => {
                return Err(e);
            },
        };
        proof {
            lemma_blank_iff_trimmed_blank(given.name@);
            if let Some(d) = given.purchase_date {
                lemma_blank_iff_trimmed_blank(d@);
            }
            if let Some(d) = given.drink_by {
                lemma_blank_iff_trimmed_blank(d@);
            }
        }
        let grape = normalize_optional_text(input.grape);
        let grapes = match grape {
            Some(g) => {
                let mut v: Vec<String> = Vec::new();
                v.push(g);
                assert(v.deep_view() == seq![g@]);
                Some(v)
            },
            None => None,
        };
        Ok(
            Wine {
                id,
                name,
                producer: normalize_optional_text(input.producer),
                vintage: input.vintage,
                price_bits: input.price_bits,
                purchase_date,
                drink_by,
                region: normalize_optional_text(input.region),
                country: normalize_optional_text(input.country),
                grapes,
                rating: input.rating,
                notes: normalize_optional_text(input.notes),
                tags: normalize_optional_text_vec(input.tags),
            },
        )
    }
}

} // verus!
