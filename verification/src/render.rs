//! The lines the journal shows its user: a wine in full, a wine in a
//! listing, and the reports of the commands.
use vstd::prelude::*;
use vstd::string::*;

use crate::text::{decimal, push_decimal};
use crate::query::RatingStats;
use crate::wine::Wine;

verus! {

/// The texts of `items` joined with `sep` between each two.
pub open spec fn joined(items: Seq<Seq<char>>, sep: Seq<char>) -> Seq<char>
    decreases items.len(),
{
    if items.len() == 0 {
        Seq::empty()
    } else if items.len() == 1 {
        items[0]
    } else {
        joined(items.drop_last(), sep) + sep + items.last()
    }
}

/// The texts of `items` joined with `sep` between each two.
pub fn join_texts(items: &Vec<String>, sep: &str) -> (r: String)
    ensures
        r@ == joined(items.deep_view(), sep@),
{
    let ghost dv = items.deep_view();
    let mut r = String::new();
    let mut i: usize = 0;
    while i < items.len()
        invariant
            i <= items.len(),
            dv == items.deep_view(),
            dv.len() == items.len(),
            r@ == joined(dv.take(i as int), sep@),
        decreases items.len() - i,
    {
        if i > 0 {
            r.append(sep);
        }
        r.append(items[i].as_str());
        assert(dv.take(i + 1).drop_last() == dv.take(i as int));
        assert(dv.take(i + 1).last() == dv[i as int]);
        if i == 0 {
            assert(dv.take(0) == Seq::<Seq<char>>::empty());
        }
        i = i + 1;
    }
    assert(dv.take(items.len() as int) == dv);
    r
}

/// Joining texts: nothing gives the empty text, one text gives itself, and
/// one more text adds the separator and the text.
pub proof fn lemma_joined_meaning(items: Seq<Seq<char>>, x: Seq<char>, sep: Seq<char>)
    ensures
        joined(Seq::empty(), sep) == Seq::<char>::empty(),
        joined(seq![x], sep) == x,
        items.len() > 0 ==> joined(items.push(x), sep) == joined(items, sep) + sep + x,
{
    assert(items.push(x).drop_last() == items);
}

/// Whatever two sequences hold, their concatenation holds, and its length
/// is the sum of theirs.
proof fn lemma_concat_keeps(a: Seq<Seq<char>>, b: Seq<Seq<char>>)
    ensures
        forall|x: Seq<char>| a.contains(x) ==> #[trigger] (a + b).contains(x),
        forall|x: Seq<char>| b.contains(x) ==> #[trigger] (a + b).contains(x),
        (a + b).len() == a.len() + b.len(),
{
    assert forall|x: Seq<char>| a.contains(x) implies #[trigger] (a + b).contains(x) by {
        let k = choose|k: int| 0 <= k < a.len() && a[k] == x;
        assert((a + b)[k] == x);
    }
    assert forall|x: Seq<char>| b.contains(x) implies #[trigger] (a + b).contains(x) by {
        let k = choose|k: int| 0 <= k < b.len() && b[k] == x;
        assert((a + b)[a.len() + k] == x);
    }
}

/// A line in the first part is in the whole.
proof fn lemma_in_left(a: Seq<Seq<char>>, b: Seq<Seq<char>>, x: Seq<char>)
    requires
        a.contains(x),
    ensures
        (a + b).contains(x),
{
    let k = choose|k: int| 0 <= k < a.len() && a[k] == x;
    assert((a + b)[k] == x);
}

/// A line in the second part is in the whole.
proof fn lemma_in_right(a: Seq<Seq<char>>, b: Seq<Seq<char>>, x: Seq<char>)
    requires
        b.contains(x),
    ensures
        (a + b).contains(x),
{
    let k = choose|k: int| 0 <= k < b.len() && b[k] == x;
    assert((a + b)[a.len() + k] == x);
}

/// A line in the part `m` of `a + m + loc + g + n + t` is in the whole.
proof fn lemma_in_middle_m(
    a: Seq<Seq<char>>,
    m: Seq<Seq<char>>,
    x: Seq<char>,
    loc: Seq<Seq<char>>,
    g: Seq<Seq<char>>,
    n: Seq<Seq<char>>,
    t: Seq<Seq<char>>,
)
    requires
        m.contains(x),
    ensures
        (a + m + loc + g + n + t).contains(x),
{
    lemma_in_right(a, m, x);
    lemma_in_left(a + m, loc, x);
    lemma_in_left(a + m + loc, g, x);
    lemma_in_left(a + m + loc + g, n, x);
    lemma_in_left(a + m + loc + g + n, t, x);
}

/// 1 where an optional value is given, else 0.
pub open spec fn given<T>(o: Option<T>) -> int {
    if o is Some {
        1
    } else {
        0
    }
}

/// How many body lines a wine has.
proof fn lemma_body_len(
    w: Wine,
    indent: Seq<char>,
    full: bool,
    price_text: Option<Seq<char>>,
)
    ensures
        body_lines(w, indent, full, price_text).len() == given(w.producer) + given(w.vintage) + (
        if w.region is Some || w.country is Some {
            1int
        } else {
            0int
        }) + given(w.grapes) + given(w.notes) + (if full {
            given(price_text) + given(w.purchase_date) + given(w.drink_by) + given(w.tags)
        } else {
            0int
        }),
{
}

/// The producer and vintage lines are among the body lines.
proof fn lemma_body_head_fields(
    w: Wine,
    indent: Seq<char>,
    full: bool,
    price_text: Option<Seq<char>>,
)
    ensures
        ({
            let b = body_lines(w, indent, full, price_text);
            &&& w.producer is Some ==> b.contains(indent + "Producer: "@ + w.producer->0@)
            &&& w.vintage is Some ==> b.contains(indent + "Vintage: "@ + decimal(w.vintage->0 as nat))
        }),
{
    let p = labelled(indent + "Producer: "@, w.producer.deep_view());
    let v = labelled(indent + "Vintage: "@, optional_decimal(w.vintage));
    let pr = labelled(indent + "Price: "@, price_text);
    let pd = labelled(indent + "Purchase date: "@, w.purchase_date.deep_view());
    let db = labelled(indent + "Drink by: "@, w.drink_by.deep_view());
    let m = if full {
        pr + pd + db
    } else {
        Seq::empty()
    };
    let loc = location_lines(indent, w.region.deep_view(), w.country.deep_view());
    let g = labelled(indent + "Grapes: "@, optional_joined(w.grapes.deep_view()));
    let n = labelled(indent + "Notes: "@, w.notes.deep_view());
    let t = if full {
        labelled(indent + "Tags: "@, optional_joined(w.tags.deep_view()))
    } else {
        Seq::empty()
    };
    if w.producer is Some {
        let x = indent + "Producer: "@ + w.producer->0@;
        assert(p[0] == x);
        lemma_in_left(p, v, x);
        lemma_in_left(p + v, m, x);
        lemma_in_left(p + v + m, loc, x);
        lemma_in_left(p + v + m + loc, g, x);
        lemma_in_left(p + v + m + loc + g, n, x);
        lemma_in_left(p + v + m + loc + g + n, t, x);
    }
    if w.vintage is Some {
        let x = indent + "Vintage: "@ + decimal(w.vintage->0 as nat);
        assert(v[0] == x);
        lemma_in_right(p, v, x);
        lemma_in_left(p + v, m, x);
        lemma_in_left(p + v + m, loc, x);
        lemma_in_left(p + v + m + loc, g, x);
        lemma_in_left(p + v + m + loc + g, n, x);
        lemma_in_left(p + v + m + loc + g + n, t, x);
    }
}

/// With `full`, the price, date and tag lines are among the body lines.
proof fn lemma_body_full_fields(
    w: Wine,
    indent: Seq<char>,
    full: bool,
    price_text: Option<Seq<char>>,
)
    ensures
        ({
            let b = body_lines(w, indent, full, price_text);
            &&& full && price_text is Some ==> b.contains(indent + "Price: "@ + price_text->0)
            &&& full && w.purchase_date is Some ==> b.contains(
                indent + "Purchase date: "@ + w.purchase_date->0@,
            )
            &&& full && w.drink_by is Some ==> b.contains(
                indent + "Drink by: "@ + w.drink_by->0@,
            )
            &&& full && w.tags is Some ==> b.contains(
                indent + "Tags: "@ + joined(w.tags->0.deep_view(), ", "@),
            )
        }),
{
    let p = labelled(indent + "Producer: "@, w.producer.deep_view());
    let v = labelled(indent + "Vintage: "@, optional_decimal(w.vintage));
    let pr = labelled(indent + "Price: "@, price_text);
    let pd = labelled(indent + "Purchase date: "@, w.purchase_date.deep_view());
    let db = labelled(indent + "Drink by: "@, w.drink_by.deep_view());
    let m = if full {
        pr + pd + db
    } else {
        Seq::empty()
    };
    let loc = location_lines(indent, w.region.deep_view(), w.country.deep_view());
    let g = labelled(indent + "Grapes: "@, optional_joined(w.grapes.deep_view()));
    let n = labelled(indent + "Notes: "@, w.notes.deep_view());
    let t = if full {
        labelled(indent + "Tags: "@, optional_joined(w.tags.deep_view()))
    } else {
        Seq::empty()
    };
    if full {
        if price_text is Some {
            let x = indent + "Price: "@ + price_text->0;
            assert(pr[0] == x);
            lemma_in_left(pr, pd, x);
            lemma_in_left(pr + pd, db, x);
            lemma_in_middle_m(p + v, m, x, loc, g, n, t);
        }
        if w.purchase_date is Some {
            let x = indent + "Purchase date: "@ + w.purchase_date->0@;
            assert(pd[0] == x);
            lemma_in_right(pr, pd, x);
            lemma_in_left(pr + pd, db, x);
            lemma_in_middle_m(p + v, m, x, loc, g, n, t);
        }
        if w.drink_by is Some {
            let x = indent + "Drink by: "@ + w.drink_by->0@;
            assert(db[0] == x);
            lemma_in_right(pr + pd, db, x);
            lemma_in_middle_m(p + v, m, x, loc, g, n, t);
        }
        if w.tags is Some {
            let x = indent + "Tags: "@ + joined(w.tags->0.deep_view(), ", "@);
            assert(t[0] == x);
            lemma_in_right(p + v + m + loc + g + n, t, x);
        }
    }
}

/// The location, grapes and notes lines are among the body lines.
proof fn lemma_body_rest_fields(
    w: Wine,
    indent: Seq<char>,
    full: bool,
    price_text: Option<Seq<char>>,
)
    ensures
        ({
            let b = body_lines(w, indent, full, price_text);
            &&& w.region is Some && w.country is None ==> b.contains(
                indent + "Region: "@ + w.region->0@,
            )
            &&& w.region is Some && w.country is Some ==> b.contains(
                indent + "Region: "@ + w.region->0@ + ", "@ + w.country->0@,
            )
            &&& w.region is None && w.country is Some ==> b.contains(
                indent + "Country: "@ + w.country->0@,
            )
            &&& w.grapes is Some ==> b.contains(
                indent + "Grapes: "@ + joined(w.grapes->0.deep_view(), ", "@),
            )
            &&& w.notes is Some ==> b.contains(indent + "Notes: "@ + w.notes->0@)
        }),
{
    let p = labelled(indent + "Producer: "@, w.producer.deep_view());
    let v = labelled(indent + "Vintage: "@, optional_decimal(w.vintage));
    let pr = labelled(indent + "Price: "@, price_text);
    let pd = labelled(indent + "Purchase date: "@, w.purchase_date.deep_view());
    let db = labelled(indent + "Drink by: "@, w.drink_by.deep_view());
    let m = if full {
        pr + pd + db
    } else {
        Seq::empty()
    };
    let loc = location_lines(indent, w.region.deep_view(), w.country.deep_view());
    let g = labelled(indent + "Grapes: "@, optional_joined(w.grapes.deep_view()));
    let n = labelled(indent + "Notes: "@, w.notes.deep_view());
    let t = if full {
        labelled(indent + "Tags: "@, optional_joined(w.tags.deep_view()))
    } else {
        Seq::empty()
    };
    if w.region is Some || w.country is Some {
        let x = loc[0];
        lemma_in_right(p + v + m, loc, x);
        lemma_in_left(p + v + m + loc, g, x);
        lemma_in_left(p + v + m + loc + g, n, x);
        lemma_in_left(p + v + m + loc + g + n, t, x);
    }
    if w.grapes is Some {
        let x = indent + "Grapes: "@ + joined(w.grapes->0.deep_view(), ", "@);
        assert(g[0] == x);
        lemma_in_right(p + v + m + loc, g, x);
        lemma_in_left(p + v + m + loc + g, n, x);
        lemma_in_left(p + v + m + loc + g + n, t, x);
    }
    if w.notes is Some {
        let x = indent + "Notes: "@ + w.notes->0@;
        assert(n[0] == x);
        lemma_in_right(p + v + m + loc + g, n, x);
        lemma_in_left(p + v + m + loc + g + n, t, x);
    }
}

/// The body lines of a wine hold one line per field it has, each the label
/// followed by the field: producer, vintage, region (with its country) or
/// country alone, grapes and notes, and with `full` also price, dates and
/// tags; and no other lines.
pub proof fn lemma_body_lines_give_fields(
    w: Wine,
    indent: Seq<char>,
    full: bool,
    price_text: Option<Seq<char>>,
)
    ensures
        ({
            let b = body_lines(w, indent, full, price_text);
            &&& w.producer is Some ==> b.contains(indent + "Producer: "@ + w.producer->0@)
            &&& w.vintage is Some ==> b.contains(indent + "Vintage: "@ + decimal(w.vintage->0 as nat))
            &&& w.region is Some && w.country is None ==> b.contains(
                indent + "Region: "@ + w.region->0@,
            )
            &&& w.region is Some && w.country is Some ==> b.contains(
                indent + "Region: "@ + w.region->0@ + ", "@ + w.country->0@,
            )
            &&& w.region is None && w.country is Some ==> b.contains(
                indent + "Country: "@ + w.country->0@,
            )
            &&& w.grapes is Some ==> b.contains(
                indent + "Grapes: "@ + joined(w.grapes->0.deep_view(), ", "@),
            )
            &&& w.notes is Some ==> b.contains(indent + "Notes: "@ + w.notes->0@)
            &&& full && price_text is Some ==> b.contains(indent + "Price: "@ + price_text->0)
            &&& full && w.purchase_date is Some ==> b.contains(
                indent + "Purchase date: "@ + w.purchase_date->0@,
            )
            &&& full && w.drink_by is Some ==> b.contains(
                indent + "Drink by: "@ + w.drink_by->0@,
            )
            &&& full && w.tags is Some ==> b.contains(
                indent + "Tags: "@ + joined(w.tags->0.deep_view(), ", "@),
            )
            &&& b.len() == given(w.producer) + given(w.vintage) + (if w.region is Some
                || w.country is Some {
                1int
            } else {
                0int
            }) + given(w.grapes) + given(w.notes) + (if full {
                given(price_text) + given(w.purchase_date) + given(w.drink_by) + given(w.tags)
            } else {
                0int
            })
        }),
{
    lemma_body_len(w, indent, full, price_text);
    lemma_body_head_fields(w, indent, full, price_text);
    lemma_body_full_fields(w, indent, full, price_text);
    lemma_body_rest_fields(w, indent, full, price_text);
}

/// The lines that show a wine in full begin with its name and rating
/// (`n/5`, or `Unrated`), and hold one line per field it has: the label
/// followed by the field.
pub proof fn lemma_show_lines_give_fields(w: Wine, price_text: Option<Seq<char>>)
    ensures
        ({
            let lines = detail_lines(w, price_text);
            &&& lines[0] == w.name@ + " — "@ + (if w.rating is Some {
                decimal(w.rating->0 as nat) + "/5"@
            } else {
                "Unrated"@
            })
            &&& w.producer is Some ==> lines.contains("Producer: "@ + w.producer->0@)
            &&& w.vintage is Some ==> lines.contains("Vintage: "@ + decimal(w.vintage->0 as nat))
            &&& price_text is Some ==> lines.contains("Price: "@ + price_text->0)
            &&& w.purchase_date is Some ==> lines.contains(
                "Purchase date: "@ + w.purchase_date->0@,
            )
            &&& w.drink_by is Some ==> lines.contains("Drink by: "@ + w.drink_by->0@)
            &&& w.region is Some && w.country is None ==> lines.contains(
                "Region: "@ + w.region->0@,
            )
            &&& w.region is Some && w.country is Some ==> lines.contains(
                "Region: "@ + w.region->0@ + ", "@ + w.country->0@,
            )
            &&& w.region is None && w.country is Some ==> lines.contains(
                "Country: "@ + w.country->0@,
            )
            &&& w.grapes is Some ==> lines.contains(
                "Grapes: "@ + joined(w.grapes->0.deep_view(), ", "@),
            )
            &&& w.notes is Some ==> lines.contains("Notes: "@ + w.notes->0@)
            &&& w.tags is Some ==> lines.contains("Tags: "@ + joined(w.tags->0.deep_view(), ", "@))
            &&& lines.len() == 1 + given(w.producer) + given(w.vintage) + given(price_text)
                + given(w.purchase_date) + given(w.drink_by) + (if w.region is Some
                || w.country is Some {
                1int
            } else {
                0int
            }) + given(w.grapes) + given(w.notes) + given(w.tags)
        }),
{
    let e = Seq::<char>::empty();
    lemma_body_lines_give_fields(w, e, true, price_text);
    let head = seq![w.name@ + " — "@ + rating_label(w.rating)];
    lemma_concat_keeps(head, body_lines(w, e, true, price_text));
    assert(e + "Producer: "@ == "Producer: "@);
    assert(e + "Vintage: "@ == "Vintage: "@);
    assert(e + "Price: "@ == "Price: "@);
    assert(e + "Purchase date: "@ == "Purchase date: "@);
    assert(e + "Drink by: "@ == "Drink by: "@);
    assert(e + "Region: "@ == "Region: "@);
    assert(e + "Country: "@ == "Country: "@);
    assert(e + "Grapes: "@ == "Grapes: "@);
    assert(e + "Notes: "@ == "Notes: "@);
    assert(e + "Tags: "@ == "Tags: "@);
}

/// The lines that show a wine in a listing begin with its id, name and
/// rating, hold one indented line per field a listing shows (producer,
/// vintage, region or country, grapes, notes), and end with an empty line.
pub proof fn lemma_entry_lines_give_fields(w: Wine)
    ensures
        ({
            let lines = entry_lines(w);
            let i = "   "@;
            &&& lines[0] == decimal(w.id as nat) + ". "@ + w.name@ + " — "@ + (if w.rating is Some {
                decimal(w.rating->0 as nat) + "/5"@
            } else {
                "Unrated"@
            })
            &&& lines.last() == Seq::<char>::empty()
            &&& w.producer is Some ==> lines.contains(i + "Producer: "@ + w.producer->0@)
            &&& w.vintage is Some ==> lines.contains(i + "Vintage: "@ + decimal(w.vintage->0 as nat))
            &&& w.region is Some && w.country is None ==> lines.contains(
                i + "Region: "@ + w.region->0@,
            )
            &&& w.region is Some && w.country is Some ==> lines.contains(
                i + "Region: "@ + w.region->0@ + ", "@ + w.country->0@,
            )
            &&& w.region is None && w.country is Some ==> lines.contains(
                i + "Country: "@ + w.country->0@,
            )
            &&& w.grapes is Some ==> lines.contains(
                i + "Grapes: "@ + joined(w.grapes->0.deep_view(), ", "@),
            )
            &&& w.notes is Some ==> lines.contains(i + "Notes: "@ + w.notes->0@)
            &&& lines.len() == 2 + given(w.producer) + given(w.vintage) + (if w.region is Some
                || w.country is Some {
                1int
            } else {
                0int
            }) + given(w.grapes) + given(w.notes)
        }),
{
    let i = "   "@;
    lemma_body_lines_give_fields(w, i, false, None);
    let head = seq![decimal(w.id as nat) + ". "@ + w.name@ + " — "@ + rating_label(w.rating)];
    let b = body_lines(w, i, false, None);
    lemma_concat_keeps(head, b);
    lemma_concat_keeps(head + b, seq![Seq::<char>::empty()]);
}

/// A rating as the user reads it: `4/5`, or `Unrated`.
pub open spec fn rating_label(rating: Option<u8>) -> Seq<char> {
    match rating {
        Some(r) => decimal(r as nat) + "/5"@,
        None => "Unrated"@,
    }
}

/// Appends the label of `rating` to `s`.
fn push_rating_label(s: &mut String, rating: Option<u8>)
    ensures
        final(s)@ == old(s)@ + rating_label(rating),
{
    match rating {
        Some(r) => {
            push_decimal(s, r as u64);
            s.append("/5");
            assert(old(s)@ + decimal(r as nat) + "/5"@ == old(s)@ + (decimal(r as nat) + "/5"@));
        },
        None => {
            s.append("Unrated");
        },
    }
}

/// The one line `label` followed by the text, where there is a text.
pub open spec fn labelled(label: Seq<char>, text: Option<Seq<char>>) -> Seq<Seq<char>> {
    match text {
        Some(t) => seq![label + t],
        None => Seq::empty(),
    }
}

/// The line that says where a wine comes from: its region, followed by its
/// country where it has both, or else its country alone.
pub open spec fn location_lines(indent: Seq<char>, region: Option<Seq<char>>, country: Option<Seq<char>>) -> Seq<
    Seq<char>,
> {
    match region {
        Some(r) => match country {
            Some(c) => seq![indent + "Region: "@ + r + ", "@ + c],
            None => seq![indent + "Region: "@ + r],
        },
        None => match country {
            Some(c) => seq![indent + "Country: "@ + c],
            None => Seq::empty(),
        },
    }
}

/// The decimal numeral of an optional number.
pub open spec fn optional_decimal(n: Option<u32>) -> Option<Seq<char>> {
    match n {
        Some(v) => Some(decimal(v as nat)),
        None => None,
    }
}

/// A list of texts joined with commas.
pub open spec fn optional_joined(items: Option<Seq<Seq<char>>>) -> Option<Seq<char>> {
    match items {
        Some(v) => Some(joined(v, ", "@)),
        None => None,
    }
}

/// The lines that describe `w` below its heading, each after `indent`.
/// With `full`, the lines also give the price (as `price_text` shows it),
/// the dates and the tags.
pub open spec fn body_lines(w: Wine, indent: Seq<char>, full: bool, price_text: Option<Seq<char>>) -> Seq<
    Seq<char>,
> {
    labelled(indent + "Producer: "@, w.producer.deep_view()) + labelled(
        indent + "Vintage: "@,
        optional_decimal(w.vintage),
    ) + (if full {
        labelled(indent + "Price: "@, price_text) + labelled(
            indent + "Purchase date: "@,
            w.purchase_date.deep_view(),
        ) + labelled(indent + "Drink by: "@, w.drink_by.deep_view())
    } else {
        Seq::empty()
    }) + location_lines(indent, w.region.deep_view(), w.country.deep_view()) + labelled(
        indent + "Grapes: "@,
        optional_joined(w.grapes.deep_view()),
    ) + labelled(indent + "Notes: "@, w.notes.deep_view()) + (if full {
        labelled(indent + "Tags: "@, optional_joined(w.tags.deep_view()))
    } else {
        Seq::empty()
    })
}

/// The lines that show `w` in full: its name and rating, then the rest.
pub open spec fn detail_lines(w: Wine, price_text: Option<Seq<char>>) -> Seq<Seq<char>> {
    seq![w.name@ + " — "@ + rating_label(w.rating)] + body_lines(w, Seq::empty(), true, price_text)
}

/// The lines that show `w` in a listing: its id, name and rating, the rest
/// indented, and an empty line.
pub open spec fn entry_lines(w: Wine) -> Seq<Seq<char>> {
    seq![decimal(w.id as nat) + ". "@ + w.name@ + " — "@ + rating_label(w.rating)] + body_lines(
        w,
        "   "@,
        false,
        None,
    ) + seq![Seq::empty()]
}

/// A `String` holding `a` followed by `b`.
fn concat(a: &str, b: &str) -> (r: String)
    ensures
        r@ == a@ + b@,
{
    let mut r = String::from_str(a);
    r.append(b);
    r
}

/// Appends the labelled line of an optional text to `lines`.
fn push_labelled(lines: &mut Vec<String>, indent: &str, label: &str, text: &Option<String>)
    ensures
        final(lines).deep_view() == old(lines).deep_view() + labelled(
            indent@ + label@,
            text.deep_view(),
        ),
{
    match text {
        Some(t) => {
            let mut line = concat(indent, label);
            line.append(t.as_str());
            lines.push(line);
            assert(lines.deep_view() == old(lines).deep_view().push(line@));
        },
        None => {
            assert(old(lines).deep_view() + Seq::<Seq<char>>::empty() == old(lines).deep_view());
        },
    }
}

/// Appends the labelled line of an optional list of texts, joined with
/// commas, to `lines`.
fn push_labelled_list(
    lines: &mut Vec<String>,
    indent: &str,
    label: &str,
    items: &Option<Vec<String>>,
)
    ensures
        final(lines).deep_view() == old(lines).deep_view() + labelled(
            indent@ + label@,
            optional_joined(items.deep_view()),
        ),
{
    match items {
        Some(v) => {
            let mut line = concat(indent, label);
            let j = join_texts(v, ", ");
            line.append(j.as_str());
            lines.push(line);
            assert(lines.deep_view() == old(lines).deep_view().push(line@));
        },
        None => {
            assert(old(lines).deep_view() + Seq::<Seq<char>>::empty() == old(lines).deep_view());
        },
    }
}

/// Appends the vintage line of `w` to `lines`.
fn push_vintage(lines: &mut Vec<String>, indent: &str, vintage: Option<u32>)
    ensures
        final(lines).deep_view() == old(lines).deep_view() + labelled(
            indent@ + "Vintage: "@,
            optional_decimal(vintage),
        ),
{
    match vintage {
        Some(v) => {
            let mut line = concat(indent, "Vintage: ");
            push_decimal(&mut line, v as u64);
            lines.push(line);
            assert(lines.deep_view() == old(lines).deep_view().push(line@));
        },
        None => {
            assert(old(lines).deep_view() + Seq::<Seq<char>>::empty() == old(lines).deep_view());
        },
    }
}

/// Appends the location line of a wine to `lines`.
fn push_location(
    lines: &mut Vec<String>,
    indent: &str,
    region: &Option<String>,
    country: &Option<String>,
)
    ensures
        final(lines).deep_view() == old(lines).deep_view() + location_lines(
            indent@,
            region.deep_view(),
            country.deep_view(),
        ),
{
    match region {
        Some(r) => {
            let mut line = concat(indent, "Region: ");
            line.append(r.as_str());
            match country {
                Some(c) => {
                    line.append(", ");
                    line.append(c.as_str());
                },
                None => {},
            }
            lines.push(line);
            assert(lines.deep_view() == old(lines).deep_view().push(line@));
        },
        None => match country {
            Some(c) => {
                let mut line = concat(indent, "Country: ");
                line.append(c.as_str());
                lines.push(line);
                assert(lines.deep_view() == old(lines).deep_view().push(line@));
            },
            None => {
                assert(old(lines).deep_view() + Seq::<Seq<char>>::empty() == old(
                    lines,
                ).deep_view());
            },
        },
    }
}

/// Appending `x` and then `y` to `start` appends `x + y`.
proof fn lemma_append_twice(start: Seq<Seq<char>>, x: Seq<Seq<char>>, y: Seq<Seq<char>>)
    ensures
        start + x + y == start + (x + y),
{
    vstd::seq_lib::lemma_concat_associative(start, x, y);
}

/// Appends the body lines of `w` to `lines`.
fn push_body(lines: &mut Vec<String>, w: &Wine, indent: &str, full: bool, price_text: &Option<String>)
    ensures
        final(lines).deep_view() == old(lines).deep_view() + body_lines(
            *w,
            indent@,
            full,
            price_text.deep_view(),
        ),
{
    let ghost start = lines.deep_view();
    let ghost p = labelled(indent@ + "Producer: "@, w.producer.deep_view());
    let ghost v = labelled(indent@ + "Vintage: "@, optional_decimal(w.vintage));
    let ghost m = if full {
        labelled(indent@ + "Price: "@, price_text.deep_view()) + labelled(
            indent@ + "Purchase date: "@,
            w.purchase_date.deep_view(),
        ) + labelled(indent@ + "Drink by: "@, w.drink_by.deep_view())
    } else {
        Seq::empty()
    };
    let ghost loc = location_lines(indent@, w.region.deep_view(), w.country.deep_view());
    let ghost g = labelled(indent@ + "Grapes: "@, optional_joined(w.grapes.deep_view()));
    let ghost n = labelled(indent@ + "Notes: "@, w.notes.deep_view());
    let ghost t = if full {
        labelled(indent@ + "Tags: "@, optional_joined(w.tags.deep_view()))
    } else {
        Seq::empty()
    };
    push_labelled(lines, indent, "Producer: ", &w.producer);
    push_vintage(lines, indent, w.vintage);
    proof {
        lemma_append_twice(start, p, v);
    }
    let ghost l2 = lines.deep_view();
    if full {
        push_labelled(lines, indent, "Price: ", price_text);
        push_labelled(lines, indent, "Purchase date: ", &w.purchase_date);
        push_labelled(lines, indent, "Drink by: ", &w.drink_by);
        proof {
            let a = labelled(indent@ + "Price: "@, price_text.deep_view());
            let b = labelled(indent@ + "Purchase date: "@, w.purchase_date.deep_view());
            let c = labelled(indent@ + "Drink by: "@, w.drink_by.deep_view());
            lemma_append_twice(l2, a, b);
            lemma_append_twice(l2, a + b, c);
        }
    } else {
        assert(l2 + m == l2);
    }
    assert(lines.deep_view() == l2 + m);
    proof {
        lemma_append_twice(start, p + v, m);
    }
    push_location(lines, indent, &w.region, &w.country);
    proof {
        lemma_append_twice(start, p + v + m, loc);
    }
    push_labelled_list(lines, indent, "Grapes: ", &w.grapes);
    proof {
        lemma_append_twice(start, p + v + m + loc, g);
    }
    push_labelled(lines, indent, "Notes: ", &w.notes);
    proof {
        lemma_append_twice(start, p + v + m + loc + g, n);
    }
    let ghost l6 = lines.deep_view();
    if full {
        push_labelled_list(lines, indent, "Tags: ", &w.tags);
    } else {
        assert(l6 + t == l6);
    }
    proof {
        lemma_append_twice(start, p + v + m + loc + g + n, t);
    }
}

/// The lines that show `w` in full. `price_text` is how its price reads,
/// where it has one.
pub fn show_lines(w: &Wine, price_text: &Option<String>) -> (lines: Vec<String>)
    ensures
        lines.deep_view() == detail_lines(*w, price_text.deep_view()),
{
    let mut lines: Vec<String> = Vec::new();
    let mut head = concat(w.name.as_str(), " — ");
    push_rating_label(&mut head, w.rating);
    lines.push(head);
    assert(lines.deep_view() == seq![head@]);
    push_body(&mut lines, w, "", true, price_text);
    proof {
        reveal_strlit("");
        assert(""@ == Seq::<char>::empty());
    }
    lines
}

/// The lines that show `w` in a listing.
pub fn entry_lines_of(w: &Wine) -> (lines: Vec<String>)
    ensures
        lines.deep_view() == entry_lines(*w),
{
    let mut lines: Vec<String> = Vec::new();
    let mut head = String::new();
    push_decimal(&mut head, w.id);
    head.append(". ");
    head.append(w.name.as_str());
    head.append(" — ");
    push_rating_label(&mut head, w.rating);
    lines.push(head);
    assert(lines.deep_view() == seq![head@]);
    push_body(&mut lines, w, "   ", false, &None);
    let ghost before = lines.deep_view();
    lines.push(String::new());
    assert(lines.deep_view() == before.push(Seq::empty()));
    lines
}


/// The decimal numeral of an optional rating.
pub open spec fn optional_rating(r: Option<u8>) -> Option<Seq<char>> {
    match r {
        Some(v) => Some(decimal(v as nat)),
        None => None,
    }
}

/// The lines that report a wine just added.
pub open spec fn added_report(w: Wine) -> Seq<Seq<char>> {
    seq!["Added wine: "@ + w.name@ + " (ID: "@ + decimal(w.id as nat) + ")"@] + labelled(
        "  Rating: "@,
        optional_rating(w.rating),
    ) + labelled("  Notes: "@, w.notes.deep_view())
}

/// The lines that report `w` just added.
pub fn added_lines(w: &Wine) -> (lines: Vec<String>)
    ensures
        lines.deep_view() == added_report(*w),
{
    let mut lines: Vec<String> = Vec::new();
    let mut head = concat("Added wine: ", w.name.as_str());
    head.append(" (ID: ");
    push_decimal(&mut head, w.id);
    head.append(")");
    lines.push(head);
    assert(lines.deep_view() == seq![head@]);
    let ghost first = lines.deep_view();
    match w.rating {
        Some(r) => {
            let mut line = String::from_str("  Rating: ");
            push_decimal(&mut line, r as u64);
            lines.push(line);
            assert(lines.deep_view() == first.push(line@));
        },
        None => {
            assert(first + Seq::<Seq<char>>::empty() == first);
        },
    }
    push_labelled(&mut lines, "", "  Notes: ", &w.notes);
    proof {
        reveal_strlit("");
        assert(""@ + "  Notes: "@ == "  Notes: "@);
    }
    lines
}

/// The line that reports a wine just updated.
pub fn updated_line(name: &str) -> (line: String)
    ensures
        line@ == "Updated wine: "@ + name@,
{
    concat("Updated wine: ", name)
}

/// The line that reports a wine just removed.
pub fn removed_line(name: &str) -> (line: String)
    ensures
        line@ == "Removed wine: "@ + name@,
{
    concat("Removed wine: ", name)
}

/// The lines above a listing of `count` wines.
pub open spec fn listing_head(count: nat) -> Seq<Seq<char>> {
    if count == 0 {
        seq!["No wines found matching criteria. Add one with `whyno add <name>`"@]
    } else {
        seq!["Found "@ + decimal(count) + " wine(s):"@, Seq::empty()]
    }
}

/// The lines above a listing of `count` wines.
pub fn listing_head_lines(count: usize) -> (lines: Vec<String>)
    ensures
        lines.deep_view() == listing_head(count as nat),
{
    let mut lines: Vec<String> = Vec::new();
    if count == 0 {
        lines.push(String::from_str("No wines found matching criteria. Add one with `whyno add <name>`"));
    } else {
        let mut line = String::from_str("Found ");
        push_decimal(&mut line, count as u64);
        line.append(" wine(s):");
        lines.push(line);
        lines.push(String::new());
    }
    assert(lines.deep_view() == listing_head(count as nat));
    lines
}

/// The lines of the summary of a journal with the counts `stats`, where
/// `average_text` is how the average rating reads.
pub open spec fn stats_report(stats: RatingStats, average_text: Seq<char>) -> Seq<Seq<char>> {
    if stats.total == 0 {
        seq!["No wines saved yet."@]
    } else if stats.rated == 0 {
        seq![
            "Total wines saved: "@ + decimal(stats.total as nat),
            "Average rating: N/A (no rated wines)"@,
        ]
    } else {
        seq!["Total wines saved: "@ + decimal(stats.total as nat), "Average rating: "@ + average_text]
    }
}

/// The lines of the summary of a journal with the counts `stats`.
pub fn stats_lines(stats: &RatingStats, average_text: &str) -> (lines: Vec<String>)
    ensures
        lines.deep_view() == stats_report(*stats, average_text@),
{
    let mut lines: Vec<String> = Vec::new();
    if stats.total == 0 {
        lines.push(String::from_str("No wines saved yet."));
    } else {
        let mut total = String::from_str("Total wines saved: ");
        push_decimal(&mut total, stats.total as u64);
        lines.push(total);
        if stats.rated == 0 {
            lines.push(String::from_str("Average rating: N/A (no rated wines)"));
        } else {
            lines.push(concat("Average rating: ", average_text));
        }
    }
    assert(lines.deep_view() == stats_report(*stats, average_text@));
    lines
}


/// The report of an added wine begins with its name and id, then gives its
/// rating and its notes where it has them, and nothing else.
pub proof fn lemma_added_report_gives_fields(w: Wine)
    ensures
        ({
            let lines = added_report(w);
            &&& lines[0] == "Added wine: "@ + w.name@ + " (ID: "@ + decimal(w.id as nat) + ")"@
            &&& w.rating is Some ==> lines.contains("  Rating: "@ + decimal(w.rating->0 as nat))
            &&& w.notes is Some ==> lines.contains("  Notes: "@ + w.notes->0@)
            &&& lines.len() == 1 + given(w.rating) + given(w.notes)
        }),
{
    let head = seq!["Added wine: "@ + w.name@ + " (ID: "@ + decimal(w.id as nat) + ")"@];
    let r = labelled("  Rating: "@, optional_rating(w.rating));
    let n = labelled("  Notes: "@, w.notes.deep_view());
    if w.rating is Some {
        let x = "  Rating: "@ + decimal(w.rating->0 as nat);
        assert(r[0] == x);
        lemma_in_right(head, r, x);
        lemma_in_left(head + r, n, x);
    }
    if w.notes is Some {
        let x = "  Notes: "@ + w.notes->0@;
        assert(n[0] == x);
        lemma_in_right(head + r, n, x);
    }
}

/// Above a listing stands the number of wines found, or, where none is
/// found, the one line that says so.
pub proof fn lemma_listing_head_meaning(count: nat)
    ensures
        count > 0 ==> listing_head(count)[0] == "Found "@ + decimal(count) + " wine(s):"@,
        count == 0 ==> listing_head(count).len() == 1,
{
}

/// The summary of a journal gives the number of wines where there are any,
/// then the average rating where some wine is rated and says there is none
/// otherwise; an empty journal is reported as such.
pub proof fn lemma_stats_report_meaning(stats: RatingStats, average_text: Seq<char>)
    ensures
        stats.total == 0 ==> stats_report(stats, average_text) == seq!["No wines saved yet."@],
        stats.total > 0 ==> stats_report(stats, average_text).len() == 2 && stats_report(
            stats,
            average_text,
        )[0] == "Total wines saved: "@ + decimal(stats.total as nat),
        stats.total > 0 && stats.rated > 0 ==> stats_report(stats, average_text)[1]
            == "Average rating: "@ + average_text,
        stats.total > 0 && stats.rated == 0 ==> stats_report(stats, average_text)[1]
            == "Average rating: N/A (no rated wines)"@,
{
}

} // verus!
