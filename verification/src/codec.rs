//! The textual form of the persisted store: rendering the day map to its
//! state file text and parsing that text back. The format is a
//! pretty-printed object of day keys to `add`/`sub` pairs; text in any
//! other shape is treated as corrupt and recovered from as an empty store.

use vstd::prelude::*;

use vstd::string::StrSliceExecFns;

use crate::calendar::{date_valid, Date};
use crate::keys::{date_key, date_key_chars, dec_chars, digit_char, str_to_chars, u64_string};
use crate::models::DayCounts;
use crate::store::{entries_wf, AppData, DayEntry};

verus! {

/// The text of one entry: the quoted day key and its two counters, laid
/// out over four indented lines.
pub open spec fn render_entry_chars(e: DayEntry) -> Seq<char> {
    "\n  \""@ + date_key_chars(e.0) + "\": {\n    \"add\": "@ + dec_chars(e.1.add as int)
        + ",\n    \"sub\": "@ + dec_chars(e.1.sub as int) + "\n  }"@
}

/// The texts of all entries, joined by commas.
pub open spec fn render_entries_chars(s: Seq<DayEntry>) -> Seq<char>
    decreases s.len(),
{
    if s.len() == 0 {
        Seq::empty()
    } else if s.len() == 1 {
        render_entry_chars(s[0])
    } else {
        render_entries_chars(s.drop_last()) + ","@ + render_entry_chars(s.last())
    }
}

/// The full state file text of a sequence of entries.
pub open spec fn render_store_chars(s: Seq<DayEntry>) -> Seq<char> {
    if s.len() == 0 {
        "{}"@
    } else {
        "{"@ + render_entries_chars(s) + "\n}"@
    }
}

/// Whether `c` is a decimal digit character.
pub open spec fn is_digit_char(c: char) -> bool {
    48 <= c as int <= 57
}

/// The value of a decimal digit character.
pub open spec fn digit_char_val(c: char) -> int {
    c as int - 48
}

/// The length of the run of digit characters the text starts with.
pub open spec fn digit_run(s: Seq<char>) -> int
    decreases s.len(),
{
    if s.len() > 0 && is_digit_char(s[0]) {
        1 + digit_run(s.drop_first())
    } else {
        0
    }
}

/// The value a sequence of digit characters spells in decimal.
pub open spec fn digits_val(s: Seq<char>) -> int
    decreases s.len(),
{
    if s.len() == 0 {
        0
    } else {
        digits_val(s.drop_last()) * 10 + digit_char_val(s.last())
    }
}

/// Consumes an exact literal from the front of the text.
pub open spec fn parse_lit(s: Seq<char>, lit: Seq<char>) -> Option<Seq<char>> {
    if s.len() >= lit.len() && s.subrange(0, lit.len() as int) == lit {
        Some(s.skip(lit.len() as int))
    } else {
        None
    }
}

/// Consumes the leading run of digits as a 64-bit counter; a missing
/// digit or a value past the 64-bit maximum refuses the text.
pub open spec fn parse_number(s: Seq<char>) -> Option<(u64, Seq<char>)> {
    let k = digit_run(s);
    if k == 0 {
        None
    } else {
        let v = digits_val(s.take(k));
        if v > u64::MAX {
            None
        } else {
            Some((v as u64, s.skip(k)))
        }
    }
}

/// Consumes a `YYYY-MM-DD` day key naming a valid date.
pub open spec fn parse_date(s: Seq<char>) -> Option<(Date, Seq<char>)> {
    if s.len() >= 10 && is_digit_char(s[0]) && is_digit_char(s[1]) && is_digit_char(s[2])
        && is_digit_char(s[3]) && s[4] == '-' && is_digit_char(s[5]) && is_digit_char(s[6]) && s[7]
        == '-' && is_digit_char(s[8]) && is_digit_char(s[9]) {
        let y = 1000 * digit_char_val(s[0]) + 100 * digit_char_val(s[1]) + 10 * digit_char_val(
            s[2],
        ) + digit_char_val(s[3]);
        let m = 10 * digit_char_val(s[5]) + digit_char_val(s[6]);
        let d = 10 * digit_char_val(s[8]) + digit_char_val(s[9]);
        let date = Date { year: y as i32, month: m as u8, day: d as u8 };
        if date_valid(date) {
            Some((date, s.skip(10)))
        } else {
            None
        }
    } else {
        None
    }
}

/// Consumes one entry: the quoted day key and its `add`/`sub` counters,
/// in the exact layout the renderer writes.
#[verifier::opaque]
pub open spec fn parse_entry(s: Seq<char>) -> Option<(DayEntry, Seq<char>)> {
    match parse_lit(s, "\n  \""@) {
        None => None,
        Some(s1) => match parse_date(s1) {
            None => None,
            Some((d, s2)) => match parse_lit(s2, "\": {\n    \"add\": "@) {
                None => None,
                Some(s3) => match parse_number(s3) {
                    None => None,
                    Some((a, s4)) => match parse_lit(s4, ",\n    \"sub\": "@) {
                        None => None,
                        Some(s5) => match parse_number(s5) {
                            None => None,
                            Some((b, s6)) => match parse_lit(s6, "\n  }"@) {
                                None => None,
                                Some(s7) => Some(((d, DayCounts { add: a, sub: b }), s7)),
                            },
                        },
                    },
                },
            },
        },
    }
}

/// Consumes comma-separated entries onto `acc`, as many as a comma after
/// an entry asks for; the fuel bounds the recursion and never runs out on
/// text shorter than it.
pub open spec fn parse_entries(s: Seq<char>, acc: Seq<DayEntry>, fuel: nat) -> Option<
    (Seq<DayEntry>, Seq<char>),
>
    decreases fuel,
{
    match parse_entry(s) {
        None => None,
        Some((e, r)) => {
            if r.len() > 0 && r[0] == ',' {
                if fuel == 0 {
                    None
                } else {
                    parse_entries(r.drop_first(), acc.push(e), (fuel - 1) as nat)
                }
            } else {
                Some((acc.push(e), r))
            }
        },
    }
}

/// Parses a state file text: either the empty object, or an object of
/// entries closed by the final brace, with nothing after it.
pub open spec fn parse_store_chars(s: Seq<char>) -> Option<Seq<DayEntry>> {
    if s == "{}"@ {
        Some(Seq::empty())
    } else {
        match parse_lit(s, "{"@) {
            None => None,
            Some(r) => match parse_entries(r, Seq::empty(), s.len()) {
                None => None,
                Some((es, r2)) => {
                    if r2 == "\n}"@ {
                        Some(es)
                    } else {
                        None
                    }
                },
            },
        }
    }
}

/// The day map a sequence of parsed entries denotes: each entry inserted
/// in text order, a later duplicate overriding an earlier one.
pub open spec fn entries_to_map(es: Seq<DayEntry>) -> Map<Date, DayCounts>
    decreases es.len(),
{
    if es.len() == 0 {
        Map::empty()
    } else {
        entries_to_map(es.drop_last()).insert(es.last().0, es.last().1)
    }
}

/// The digit characters carry their decimal values.
proof fn lemma_digit_char_props(x: int)
    requires
        0 <= x < 10,
    ensures
        is_digit_char(crate::keys::digit_char(x)),
        digit_char_val(crate::keys::digit_char(x)) == x,
{
}

/// A rendered number is one or more digit characters.
proof fn lemma_dec_chars_digits(n: int)
    requires
        n >= 0,
    ensures
        dec_chars(n).len() >= 1,
        forall|i: int| 0 <= i < dec_chars(n).len() ==> is_digit_char(#[trigger] dec_chars(n)[i]),
    decreases n,
{
    if n < 10 {
        lemma_digit_char_props(n);
    } else {
        lemma_dec_chars_digits(n / 10);
        lemma_digit_char_props(n % 10);
    }
}

/// A rendered number spells its value.
proof fn lemma_digits_val_dec_chars(n: int)
    requires
        n >= 0,
    ensures
        digits_val(dec_chars(n)) == n,
    decreases n,
{
    reveal_with_fuel(digits_val, 3);
    if n < 10 {
        lemma_digit_char_props(n);
        let s = dec_chars(n);
        assert(s.len() == 1 && s.last() == crate::keys::digit_char(n));
        assert(s.drop_last() =~= Seq::<char>::empty());
        assert(digits_val(s.drop_last()) == 0);
        assert(digits_val(s) == 0 * 10 + digit_char_val(crate::keys::digit_char(n)));
    } else {
        lemma_digits_val_dec_chars(n / 10);
        lemma_digit_char_props(n % 10);
        vstd::arithmetic::div_mod::lemma_fundamental_div_mod(n, 10);
        let s = dec_chars(n);
        assert(s == dec_chars(n / 10) + seq![crate::keys::digit_char(n % 10)]);
        assert(s.last() == crate::keys::digit_char(n % 10));
        assert(s.drop_last() =~= dec_chars(n / 10));
        assert(digits_val(s) == digits_val(s.drop_last()) * 10 + digit_char_val(s.last()));
    }
}

/// The run of digits at the front of a digit block followed by a
/// non-digit is exactly the block.
proof fn lemma_digit_run_concat(a: Seq<char>, rest: Seq<char>)
    requires
        forall|i: int| 0 <= i < a.len() ==> is_digit_char(#[trigger] a[i]),
        rest.len() >= 1,
        !is_digit_char(rest[0]),
    ensures
        digit_run(a + rest) == a.len(),
    decreases a.len(),
{
    if a.len() == 0 {
        assert(a + rest =~= rest);
    } else {
        assert((a + rest).drop_first() =~= a.drop_first() + rest);
        lemma_digit_run_concat(a.drop_first(), rest);
    }
}

/// A rendered counter followed by a non-digit parses back to its value,
/// leaving exactly the rest.
proof fn lemma_parse_number_render(n: u64, rest: Seq<char>)
    requires
        rest.len() >= 1,
        !is_digit_char(rest[0]),
    ensures
        parse_number(dec_chars(n as int) + rest) == Some((n, rest)),
{
    let a = dec_chars(n as int);
    let s = a + rest;
    lemma_dec_chars_digits(n as int);
    lemma_digits_val_dec_chars(n as int);
    lemma_digit_run_concat(a, rest);
    assert(s.take(a.len() as int) =~= a);
    assert(s.skip(a.len() as int) =~= rest);
}

/// A literal followed by anything parses off the literal, leaving exactly
/// the rest.
proof fn lemma_parse_lit_render(lit: Seq<char>, rest: Seq<char>)
    ensures
        parse_lit(lit + rest, lit) == Some(rest),
{
    let s = lit + rest;
    assert(s.subrange(0, lit.len() as int) =~= lit);
    assert(s.skip(lit.len() as int) =~= rest);
}

/// A rendered day key parses back to its date, leaving exactly the rest.
proof fn lemma_parse_date_render(d: Date, rest: Seq<char>)
    requires
        date_valid(d),
    ensures
        parse_date(date_key_chars(d) + rest) == Some((d, rest)),
{
    let y = d.year as int;
    let m = d.month as int;
    let dd = d.day as int;
    vstd::arithmetic::div_mod::lemma_fundamental_div_mod(y, 1000);
    vstd::arithmetic::div_mod::lemma_fundamental_div_mod(y, 100);
    vstd::arithmetic::div_mod::lemma_fundamental_div_mod(y, 10);
    vstd::arithmetic::div_mod::lemma_fundamental_div_mod(m, 10);
    vstd::arithmetic::div_mod::lemma_fundamental_div_mod(dd, 10);
    vstd::arithmetic::div_mod::lemma_mod_pos_bound(y, 1000);
    vstd::arithmetic::div_mod::lemma_mod_pos_bound(y, 100);
    vstd::arithmetic::div_mod::lemma_mod_pos_bound(y, 10);
    vstd::arithmetic::div_mod::lemma_mod_pos_bound(m, 10);
    vstd::arithmetic::div_mod::lemma_mod_pos_bound(dd, 10);
    vstd::arithmetic::div_mod::lemma_div_pos_is_pos(y, 1000);
    vstd::arithmetic::div_mod::lemma_div_pos_is_pos(y, 100);
    vstd::arithmetic::div_mod::lemma_div_pos_is_pos(y, 10);
    vstd::arithmetic::div_mod::lemma_div_pos_is_pos(m, 10);
    vstd::arithmetic::div_mod::lemma_div_pos_is_pos(dd, 10);
    vstd::arithmetic::div_mod::lemma_mod_pos_bound(y / 100, 10);
    vstd::arithmetic::div_mod::lemma_mod_pos_bound(y / 10, 10);
    // the padded year digits reassemble to the year
    vstd::arithmetic::div_mod::lemma_breakdown(y, 100, 10);
    vstd::arithmetic::div_mod::lemma_breakdown(y, 10, 10);
    vstd::arithmetic::div_mod::lemma_small_mod(y as nat, 10000);
    assert(y % 1000 == y - 1000 * (y / 1000));
    lemma_digit_char_props(y / 1000);
    lemma_digit_char_props((y / 100) % 10);
    lemma_digit_char_props((y / 10) % 10);
    lemma_digit_char_props(y % 10);
    lemma_digit_char_props(m / 10);
    lemma_digit_char_props(m % 10);
    lemma_digit_char_props(dd / 10);
    lemma_digit_char_props(dd % 10);
    let key = date_key_chars(d);
    assert(key =~= seq![
        digit_char(y / 1000),
        digit_char((y / 100) % 10),
        digit_char((y / 10) % 10),
        digit_char(y % 10),
        '-',
        digit_char(m / 10),
        digit_char(m % 10),
        '-',
        digit_char(dd / 10),
        digit_char(dd % 10),
    ]);
    let s = key + rest;
    assert(1000 * digit_char_val(s[0]) + 100 * digit_char_val(s[1]) + 10 * digit_char_val(s[2])
        + digit_char_val(s[3]) == y);
    assert(10 * digit_char_val(s[5]) + digit_char_val(s[6]) == m);
    assert(10 * digit_char_val(s[8]) + digit_char_val(s[9]) == dd);
    assert(s.skip(10) =~= rest);
}

/// A rendered entry parses back to itself, leaving exactly the rest.
proof fn lemma_parse_entry_render(e: DayEntry, rest: Seq<char>)
    requires
        date_valid(e.0),
    ensures
        parse_entry(render_entry_chars(e) + rest) == Some((e, rest)),
{
    reveal(parse_entry);
    reveal_strlit("\n  \"");
    reveal_strlit("\": {\n    \"add\": ");
    reveal_strlit(",\n    \"sub\": ");
    reveal_strlit("\n  }");
    let l1 = "\n  \""@;
    let l2 = "\": {\n    \"add\": "@;
    let l3 = ",\n    \"sub\": "@;
    let l4 = "\n  }"@;
    let key = date_key_chars(e.0);
    let a = dec_chars(e.1.add as int);
    let b = dec_chars(e.1.sub as int);
    let s = render_entry_chars(e) + rest;
    let t6 = l4 + rest;
    let t5 = b + t6;
    let t4 = l3 + t5;
    let t3 = a + t4;
    let t2 = l2 + t3;
    let t1 = key + t2;
    assert(s =~= l1 + t1);
    lemma_parse_lit_render(l1, t1);
    lemma_parse_date_render(e.0, t2);
    lemma_parse_lit_render(l2, t3);
    assert(t4[0] == ',' && !is_digit_char(t4[0]));
    lemma_parse_number_render(e.1.add, t4);
    lemma_parse_lit_render(l3, t5);
    assert(t6[0] == '\n' && !is_digit_char(t6[0]));
    lemma_parse_number_render(e.1.sub, t6);
    lemma_parse_lit_render(l4, rest);
}

/// The joined entries, read from the front: the first entry, a comma, and
/// the joined rest.
proof fn lemma_render_entries_front(es: Seq<DayEntry>)
    requires
        es.len() >= 2,
    ensures
        render_entries_chars(es) == render_entry_chars(es[0]) + ","@ + render_entries_chars(
            es.drop_first(),
        ),
    decreases es.len(),
{
    if es.len() == 2 {
        assert(es.drop_last()[0] == es[0]);
        assert(es.drop_last() =~= seq![es[0]]);
        assert(es.drop_first() =~= seq![es[1]]);
        assert(render_entries_chars(seq![es[0]]) == render_entry_chars(es[0]));
        assert(render_entries_chars(seq![es[1]]) == render_entry_chars(es[1]));
    } else {
        lemma_render_entries_front(es.drop_last());
        assert(es.drop_last()[0] == es[0]);
        assert(es.drop_last().drop_first() =~= es.drop_first().drop_last());
        assert(es.drop_first().last() == es.last());
        assert(render_entries_chars(es.drop_first()) == render_entries_chars(
            es.drop_first().drop_last(),
        ) + ","@ + render_entry_chars(es.last()));
        assert(render_entries_chars(es) =~= render_entry_chars(es[0]) + ","@
            + render_entries_chars(es.drop_first()));
    }
}

/// Joined entries take at least one character each.
proof fn lemma_render_entries_len(es: Seq<DayEntry>)
    ensures
        render_entries_chars(es).len() >= es.len(),
    decreases es.len(),
{
    reveal_strlit("\n  \"");
    if es.len() > 0 {
        lemma_render_entries_len(es.drop_last());
    }
}

/// Rendered entries followed by text that opens with neither comma nor
/// digit parse back to themselves, appended to the accumulator.
/// Concatenation of texts associates.
proof fn lemma_seq_assoc(a: Seq<char>, b: Seq<char>, c: Seq<char>)
    ensures
        (a + b) + c == a + (b + c),
{
    assert((a + b) + c =~= a + (b + c));
}

proof fn lemma_parse_entries_render(es: Seq<DayEntry>, rest: Seq<char>, acc: Seq<DayEntry>, fuel: nat)
    requires
        es.len() >= 1,
        forall|i: int| 0 <= i < es.len() ==> date_valid((#[trigger] es[i]).0),
        rest.len() >= 1,
        rest[0] != ',',
        fuel >= es.len(),
    ensures
        parse_entries(render_entries_chars(es) + rest, acc, fuel) == Some((acc + es, rest)),
    decreases es.len(),
{
    if es.len() == 1 {
        assert(render_entries_chars(es) == render_entry_chars(es[0]));
        lemma_parse_entry_render(es[0], rest);
        assert(acc.push(es[0]) =~= acc + es);
    } else {
        let e0 = render_entry_chars(es[0]);
        let r1 = render_entries_chars(es.drop_first());
        let comma = ","@;
        lemma_render_entries_front(es);
        // reassociate the text so it opens with the first entry
        lemma_seq_assoc(e0 + comma, r1, rest);
        lemma_seq_assoc(e0, comma, r1 + rest);
        let tail = comma + (r1 + rest);
        assert(render_entries_chars(es) + rest == e0 + tail);
        lemma_parse_entry_render(es[0], tail);
        assert(tail[0] == ',') by {
            reveal_strlit(",");
        }
        assert(tail.len() > 0);
        assert(tail.drop_first() == r1 + rest) by {
            reveal_strlit(",");
            assert(tail.drop_first() =~= r1 + rest);
        }
        lemma_parse_entries_render(es.drop_first(), rest, acc.push(es[0]), (fuel - 1) as nat);
        assert(acc.push(es[0]) + es.drop_first() =~= acc + es);
    }
}

/// The map a well-formed entry sequence denotes is the store's own map
/// view of it.
proof fn lemma_entries_to_map_is_map_of_seq(s: Seq<DayEntry>)
    requires
        entries_wf(s),
    ensures
        entries_to_map(s) == crate::store::map_of_seq(s),
    decreases s.len(),
{
    if s.len() == 0 {
        assert(entries_to_map(s) =~= crate::store::map_of_seq(s));
    } else {
        let s0 = s.drop_last();
        let last = s.last();
        assert(entries_wf(s0));
        lemma_entries_to_map_is_map_of_seq(s0);
        let m1 = crate::store::map_of_seq(s0).insert(last.0, last.1);
        let m2 = crate::store::map_of_seq(s);
        assert forall|x: Date| crate::store::seq_has_date(s, x) implies m1.contains_key(x) by {
            let j = choose|j: int| 0 <= j < s.len() && s[j].0 == x;
            if j < s.len() - 1 {
                assert(s0[j].0 == x);
            }
        }
        assert forall|x: Date| m1.contains_key(x) implies crate::store::seq_has_date(s, x) by {
            if x == last.0 {
                assert(s[s.len() - 1].0 == x);
            } else {
                let j = choose|j: int| 0 <= j < s0.len() && s0[j].0 == x;
                assert(s[j].0 == x);
            }
        }
        assert forall|x: Date| m2.contains_key(x) implies #[trigger] m2[x] == m1[x] by {
            if x == last.0 {
                crate::store::lemma_map_of_seq_at(s, s.len() - 1);
            } else {
                let j = choose|j: int| 0 <= j < s.len() && s[j].0 == x;
                assert(j < s.len() - 1);
                crate::store::lemma_map_of_seq_at(s, j);
                crate::store::lemma_map_of_seq_at(s0, j);
            }
        }
        assert(m2 =~= m1);
    }
}

/// Writing the store out and reading the text back yields the same
/// entries, and with them the same day map: persisting and loading lose
/// nothing.
pub proof fn lemma_store_roundtrip(data: AppData)
    requires
        data.wf(),
    ensures
        parse_store_chars(render_store_chars(data.days@)) == Some(data.days@),
        entries_to_map(data.days@) == data.as_map(),
{
    let es = data.days@;
    lemma_entries_to_map_is_map_of_seq(es);
    reveal_strlit("{}");
    reveal_strlit("{");
    reveal_strlit("\n}");
    if es.len() == 0 {
        assert(es =~= Seq::<DayEntry>::empty());
        assert(parse_store_chars(render_store_chars(es)) == Some(Seq::<DayEntry>::empty()));
    } else {
        let body = render_entries_chars(es);
        let s = render_store_chars(es);
        lemma_render_entries_len(es);
        assert(s.len() == 1 + body.len() + 2);
        assert(s != "{}"@);
        assert(s =~= "{"@ + (body + "\n}"@));
        lemma_parse_lit_render("{"@, body + "\n}"@);
        assert(("\n}"@)[0] == '\n');
        lemma_parse_entries_render(es, "\n}"@, Seq::empty(), s.len() as nat);
        assert(Seq::<DayEntry>::empty() + es =~= es);
    }
}

/// Renders the store into its state file text, entries in store order.
pub fn render_store(data: &AppData) -> (r: String)
    requires
        data.wf(),
    ensures
        r@ == render_store_chars(data.days@),
{
    let n = data.days.len();
    if n == 0 {
        let r = String::from_str("{}");
        return r;
    }
    let mut s = String::from_str("{");
    let mut i: usize = 0;
    while i < n
        invariant
            data.wf(),
            n == data.days@.len(),
            0 < n,
            i <= n,
            i == 0 ==> s@ == "{"@,
            i > 0 ==> s@ == "{"@ + render_entries_chars(data.days@.take(i as int)),
        decreases n - i,
    {
        if i > 0 {
            s.append(",");
        }
        let entry = data.days[i];
        s.append("\n  \"");
        let key = date_key(entry.0);
        s.append(key.as_str());
        s.append("\": {\n    \"add\": ");
        let add_text = u64_string(entry.1.add);
        s.append(add_text.as_str());
        s.append(",\n    \"sub\": ");
        let sub_text = u64_string(entry.1.sub);
        s.append(sub_text.as_str());
        s.append("\n  }");
        proof {
            let taken = data.days@.take(i + 1);
            assert(taken.drop_last() =~= data.days@.take(i as int));
            assert(taken.last() == data.days@[i as int]);
            if i == 0 {
                assert(s@ =~= "{"@ + render_entries_chars(taken));
            } else {
                assert(s@ =~= "{"@ + (render_entries_chars(data.days@.take(i as int)) + ","@
                    + render_entry_chars(data.days@[i as int])));
                assert("{"@ + (render_entries_chars(data.days@.take(i as int)) + ","@
                    + render_entry_chars(data.days@[i as int])) =~= "{"@ + render_entries_chars(
                    taken,
                ));
            }
        }
        i = i + 1;
    }
    s.append("\n}");
    proof {
        assert(data.days@.take(n as int) =~= data.days@);
        assert(s@ =~= render_store_chars(data.days@));
    }
    s
}

/// Consumes the given literal at position `i`, if it is there.
fn eat_lit(v: &Vec<char>, i: usize, lit: &str) -> (r: Option<usize>)
    requires
        i <= v@.len(),
    ensures
        match r {
            Some(j) => i <= j <= v@.len() && j == i + lit@.len() && parse_lit(
                v@.skip(i as int),
                lit@,
            ) == Some(v@.skip(j as int)),
            None => parse_lit(v@.skip(i as int), lit@) == None::<Seq<char>>,
        },
{
    let n = lit.unicode_len();
    let vn = v.len();
    if vn - i < n {
        return None;
    }
    let mut k: usize = 0;
    while k < n
        invariant
            vn == v@.len(),
            i + n <= vn,
            k <= n,
            n == lit@.len(),
            forall|jj: int| 0 <= jj < k ==> v@[i + jj] == lit@[jj],
        decreases n - k,
    {
        let c = v[i + k];
        if c != lit.get_char(k) {
            proof {
                let suffix = v@.skip(i as int);
                if parse_lit(suffix, lit@) is Some {
                    assert(suffix.subrange(0, n as int)[k as int] == lit@[k as int]);
                }
            }
            return None;
        }
        k = k + 1;
    }
    proof {
        let suffix = v@.skip(i as int);
        assert(suffix.subrange(0, n as int) =~= lit@);
        assert(suffix.skip(n as int) =~= v@.skip(i + n));
    }
    Some(i + n)
}

/// Nonnegative values spelt by digit sequences.
proof fn lemma_digits_val_nonneg(s: Seq<char>)
    requires
        forall|i: int| 0 <= i < s.len() ==> is_digit_char(#[trigger] s[i]),
    ensures
        digits_val(s) >= 0,
    decreases s.len(),
{
    if s.len() > 0 {
        lemma_digits_val_nonneg(s.drop_last());
    }
}

/// A digit sequence spells at least what any of its prefixes spells.
proof fn lemma_digits_val_prefix(s: Seq<char>, j: int)
    requires
        forall|i: int| 0 <= i < s.len() ==> is_digit_char(#[trigger] s[i]),
        0 <= j <= s.len(),
    ensures
        digits_val(s.take(j)) <= digits_val(s),
    decreases s.len() - j,
{
    if j == s.len() {
        assert(s.take(j) =~= s);
    } else {
        lemma_digits_val_prefix(s, j + 1);
        let t = s.take(j + 1);
        assert(t.drop_last() =~= s.take(j));
        lemma_digits_val_nonneg(s.take(j));
        assert(digits_val(t) == digits_val(s.take(j)) * 10 + digit_char_val(t.last()));
    }
}

/// A text of digits throughout has them all in its leading run.
proof fn lemma_digit_run_all(a: Seq<char>)
    requires
        forall|i: int| 0 <= i < a.len() ==> is_digit_char(#[trigger] a[i]),
    ensures
        digit_run(a) == a.len(),
    decreases a.len(),
{
    if a.len() > 0 {
        lemma_digit_run_all(a.drop_first());
    }
}

/// Consumes the leading digit run at position `i` as a counter value.
fn eat_number(v: &Vec<char>, i: usize) -> (r: Option<(u64, usize)>)
    requires
        i <= v@.len(),
    ensures
        match r {
            Some((x, j)) => i < j <= v@.len() && parse_number(v@.skip(i as int)) == Some(
                (x, v@.skip(j as int)),
            ),
            None => parse_number(v@.skip(i as int)) == None::<(u64, Seq<char>)>,
        },
{
    let n = v.len();
    if i == n || !char_is_digit(v[i]) {
        proof {
            assert(digit_run(v@.skip(i as int)) == 0);
        }
        return None;
    }
    let mut j: usize = i;
    let mut acc: u64 = 0;
    let mut over: bool = false;
    while j < n
        invariant_except_break
            i <= j <= n,
            n == v@.len(),
            i < n,
            is_digit_char(v@[i as int]),
            forall|jj: int| i <= jj < j ==> is_digit_char(#[trigger] v@[jj]),
            !over ==> acc == digits_val(v@.subrange(i as int, j as int)),
            over ==> digits_val(v@.subrange(i as int, j as int)) > u64::MAX,
        ensures
            i <= j <= n,
            n == v@.len(),
            forall|jj: int| i <= jj < j ==> is_digit_char(#[trigger] v@[jj]),
            j == n || !is_digit_char(v@[j as int]),
            !over ==> acc == digits_val(v@.subrange(i as int, j as int)),
            over ==> digits_val(v@.subrange(i as int, j as int)) > u64::MAX,
        decreases n - j,
    {
        let c = v[j];
        if !char_is_digit(c) {
            break ;
        }
        let d: u64 = (c as u32 - 48) as u64;
        let ghost before = v@.subrange(i as int, j as int);
        let ghost after = v@.subrange(i as int, j + 1);
        proof {
            assert(after.drop_last() =~= before);
            assert(after.last() == v@[j as int]);
            lemma_digits_val_nonneg(before);
            vstd::arithmetic::div_mod::lemma_fundamental_div_mod((u64::MAX - d) as int, 10);
            vstd::arithmetic::div_mod::lemma_mod_pos_bound((u64::MAX - d) as int, 10);
        }
        if over {
        } else if acc > (u64::MAX - d) / 10 {
            over = true;
        } else {
            acc = acc * 10 + d;
        }
        j = j + 1;
    }
    let ghost run = v@.subrange(i as int, j as int);
    proof {
        if j == n {
            assert(v@.skip(i as int) =~= run);
            lemma_digit_run_all(run);
            assert(digit_run(v@.skip(i as int)) == j - i);
        } else {
            assert(v@.skip(i as int) =~= run + v@.skip(j as int));
            lemma_digit_run_concat(run, v@.skip(j as int));
            assert(digit_run(v@.skip(i as int)) == j - i);
        }
        assert(v@.skip(i as int).take(j - i) =~= run);
        assert(v@.skip(i as int).skip(j - i) =~= v@.skip(j as int));
    }
    if over {
        return None;
    }
    Some((acc, j))
}

/// Whether a character is a decimal digit.
fn char_is_digit(c: char) -> (r: bool)
    ensures
        r == is_digit_char(c),
{
    let x = c as u32;
    48 <= x && x <= 57
}

/// Consumes a `YYYY-MM-DD` day key at position `i`, if a valid one is
/// there.
fn eat_date(v: &Vec<char>, i: usize) -> (r: Option<(Date, usize)>)
    requires
        i <= v@.len(),
    ensures
        match r {
            Some((d, j)) => j == i + 10 && j <= v@.len() && date_valid(d) && parse_date(
                v@.skip(i as int),
            ) == Some((d, v@.skip(j as int))),
            None => parse_date(v@.skip(i as int)) == None::<(Date, Seq<char>)>,
        },
{
    let vn = v.len();
    if vn - i < 10 {
        return None;
    }
    let c0 = v[i];
    let c1 = v[i + 1];
    let c2 = v[i + 2];
    let c3 = v[i + 3];
    let c4 = v[i + 4];
    let c5 = v[i + 5];
    let c6 = v[i + 6];
    let c7 = v[i + 7];
    let c8 = v[i + 8];
    let c9 = v[i + 9];
    if !(char_is_digit(c0) && char_is_digit(c1) && char_is_digit(c2) && char_is_digit(c3) && c4
        == '-' && char_is_digit(c5) && char_is_digit(c6) && c7 == '-' && char_is_digit(c8)
        && char_is_digit(c9)) {
        return None;
    }
    let y: u32 = 1000 * (c0 as u32 - 48) + 100 * (c1 as u32 - 48) + 10 * (c2 as u32 - 48) + (
    c3 as u32 - 48);
    let m: u32 = 10 * (c5 as u32 - 48) + (c6 as u32 - 48);
    let dd: u32 = 10 * (c8 as u32 - 48) + (c9 as u32 - 48);
    match Date::from_ymd(y as i32, m as u8, dd as u8) {
        Some(d) => {
            proof {
                assert(v@.skip(i as int).skip(10) =~= v@.skip(i + 10));
            }
            Some((d, i + 10))
        },
        None => None,
    }
}

/// Consumes one entry at position `i`, if one in the state file layout is
/// there.
fn eat_entry(v: &Vec<char>, i: usize) -> (r: Option<(DayEntry, usize)>)
    requires
        i <= v@.len(),
    ensures
        match r {
            Some((e, j)) => i < j <= v@.len() && date_valid(e.0) && parse_entry(v@.skip(i as int))
                == Some((e, v@.skip(j as int))),
            None => parse_entry(v@.skip(i as int)) == None::<(DayEntry, Seq<char>)>,
        },
{
    proof {
        reveal(parse_entry);
        reveal_strlit("\n  \"");
    }
    let i1 = match eat_lit(v, i, "\n  \"") {
        Some(x) => x,
        None => {
            return None;
        },
    };
    let (d, i2) = match eat_date(v, i1) {
        Some(x) => x,
        None => {
            return None;
        },
    };
    let i3 = match eat_lit(v, i2, "\": {\n    \"add\": ") {
        Some(x) => x,
        None => {
            return None;
        },
    };
    let (a, i4) = match eat_number(v, i3) {
        Some(x) => x,
        None => {
            return None;
        },
    };
    let i5 = match eat_lit(v, i4, ",\n    \"sub\": ") {
        Some(x) => x,
        None => {
            return None;
        },
    };
    let (b, i6) = match eat_number(v, i5) {
        Some(x) => x,
        None => {
            return None;
        },
    };
    let i7 = match eat_lit(v, i6, "\n  }") {
        Some(x) => x,
        None => {
            return None;
        },
    };
    Some(((d, DayCounts { add: a, sub: b }), i7))
}

/// Parses a state file text into a store, reporting text in any other
/// shape as unusable.
pub fn parse_store(text: &str) -> (r: Option<AppData>)
    ensures
        match r {
            Some(d) => d.wf() && (parse_store_chars(text@) matches Some(es) && d.as_map()
                == entries_to_map(es)),
            None => parse_store_chars(text@) is None,
        },
{
    let v = str_to_chars(text);
    let vn = v.len();
    if vn == 2 && v[0] == '{' && v[1] == '}' {
        proof {
            reveal_strlit("{}");
            assert(text@ =~= "{}"@);
            assert(entries_to_map(Seq::<DayEntry>::empty()) =~= Map::<Date, DayCounts>::empty());
        }
        return Some(AppData::new());
    }
    proof {
        reveal_strlit("{}");
        if text@ == "{}"@ {
            assert(v@.len() == 2 && v@[0] == '{' && v@[1] == '}');
            assert(false);
        }
        assert(v@.skip(0) =~= v@);
    }
    let i1 = match eat_lit(&v, 0, "{") {
        Some(x) => x,
        None => {
            return None;
        },
    };
    let mut out = AppData::new();
    let ghost mut done: Seq<DayEntry> = Seq::empty();
    let mut pos: usize = i1;
    let ghost mut fuelc: nat = text@.len() as nat;
    loop
        invariant_except_break
            v@ == text@,
            out.wf(),
            i1 <= pos <= v@.len(),
            vn == v@.len(),
            text@ != "{}"@,
            parse_lit(text@, "{"@) == Some(v@.skip(i1 as int)),
            out.as_map() == entries_to_map(done),
            fuelc >= v@.len() - pos,
            parse_entries(v@.skip(i1 as int), Seq::empty(), text@.len() as nat) == parse_entries(
                v@.skip(pos as int),
                done,
                fuelc,
            ),
        ensures
            v@ == text@,
            out.wf(),
            pos <= v@.len(),
            vn == v@.len(),
            text@ != "{}"@,
            parse_lit(text@, "{"@) == Some(v@.skip(i1 as int)),
            out.as_map() == entries_to_map(done),
            parse_entries(v@.skip(i1 as int), Seq::empty(), text@.len() as nat) == Some(
                (done, v@.skip(pos as int)),
            ),
        decreases v@.len() - pos,
    {
        let (e, j) = match eat_entry(&v, pos) {
            Some(x) => x,
            None => {
                proof {
                    assert(parse_entry(v@.skip(pos as int)) is None);
                    assert(parse_entries(v@.skip(pos as int), done, fuelc) is None);
                    assert(parse_entries(v@.skip(i1 as int), Seq::empty(), text@.len() as nat)
                        is None);
                    assert(parse_store_chars(text@) is None);
                }
                return None;
            },
        };
        out.set_counts(e.0, e.1);
        proof {
            assert(done.push(e).drop_last() =~= done);
            done = done.push(e);
        }
        if j < vn && v[j] == ',' {
            proof {
                assert(v@.skip(j as int)[0] == v@[j as int]);
                assert(v@.skip(j as int).drop_first() =~= v@.skip(j + 1));
                fuelc = (fuelc - 1) as nat;
            }
            pos = j + 1;
        } else {
            proof {
                if j < v@.len() {
                    assert(v@.skip(j as int)[0] == v@[j as int]);
                }
            }
            pos = j;
            break ;
        }
    }
    if vn - pos == 2 && v[pos] == '\n' && v[pos + 1] == '}' {
        proof {
            reveal_strlit("\n}");
            assert(v@.skip(pos as int) =~= "\n}"@);
        }
        Some(out)
    } else {
        proof {
            reveal_strlit("\n}");
            if v@.skip(pos as int) == "\n}"@ {
                assert(v@.skip(pos as int).len() == 2);
                assert(v@.skip(pos as int)[0] == v@[pos as int]);
                assert(v@.skip(pos as int)[1] == v@[pos + 1]);
                assert(v@[pos as int] == '\n' && v@[pos + 1] == '}');
                assert(false);
            }
        }
        None
    }
}

/// Builds the store a freshly started service works with: the parsed
/// state file when its text is usable, and an empty store when the file
/// is missing or its text is not.
pub fn recover_store(content: Option<&str>) -> (r: AppData)
    ensures
        r.wf(),
        match content {
            None => r.days@.len() == 0 && r.as_map() == Map::<Date, DayCounts>::empty(),
            Some(text) => match parse_store_chars(text@) {
                Some(es) => r.as_map() == entries_to_map(es),
                None => r.days@.len() == 0 && r.as_map() == Map::<Date, DayCounts>::empty(),
            },
        },
{
    match content {
        None => AppData::new(),
        Some(text) => match parse_store(text) {
            Some(d) => d,
            None => AppData::new(),
        },
    }
}

} // verus!
