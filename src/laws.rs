//! Properties of the clause grammar and of the description, stated over the
//! spec functions of `logic` and proved.

use crate::logic::{
    clause, clause_fields, clauses, entry, entry_text, field, Clause, CronEntry, EntryFields, ParseError,
};
use crate::text::{
    after, before, decimal, find, is_digit, lemma_find, lemma_parse_decimal, is_white, numeral_text,
    occurs, parse_u8, split_on, split_state, words, words_state,
};
use crate::types::{is_month_name, is_weekday_name, star, FieldKind};
use vstd::prelude::*;

verus! {

/// `s` holds no `c`.
proof fn lemma_absent(s: Seq<char>, c: char)
    requires
        forall|i: int| 0 <= i < s.len() ==> s[i] != c,
    ensures
        find(s, c) == s.len(),
        !occurs(s, c),
        before(s, c) == s,
{
    lemma_find(s, c, s.len() as int);
    assert(s.take(s.len() as int) =~= s);
}

/// `find` stops at the first occurrence.
proof fn lemma_find_first(s: Seq<char>, c: char, i: int)
    requires
        0 <= i < s.len(),
        s[i] == c,
    ensures
        find(s, c) <= i,
    decreases i,
{
    if i > 0 && s[0] != c {
        lemma_find_first(s.drop_first(), c, i - 1);
    }
}

proof fn lemma_not_occurs(s: Seq<char>, c: char)
    requires
        !occurs(s, c),
    ensures
        forall|i: int| 0 <= i < s.len() ==> s[i] != c,
{
    assert forall|i: int| 0 <= i < s.len() implies s[i] != c by {
        if s[i] == c {
            lemma_find_first(s, c, i);
        }
    }
}

/// In `x + [c] + y`, where `x` holds no `c`, the first `c` follows `x`.
proof fn lemma_split_at(x: Seq<char>, c: char, y: Seq<char>)
    requires
        forall|i: int| 0 <= i < x.len() ==> x[i] != c,
    ensures
        occurs(x + seq![c] + y, c),
        before(x + seq![c] + y, c) == x,
        after(x + seq![c] + y, c) == y,
{
    let t = x + seq![c] + y;
    assert forall|j: int| 0 <= j < x.len() implies t[j] != c by {
        assert(t[j] == x[j]);
    }
    lemma_find(t, c, x.len() as int);
    assert(t.take(x.len() as int) =~= x);
    assert(t.skip(x.len() as int + 1) =~= y);
}

/// A numeral is no wildcard, no name, and holds no `-`, `/` or `,`.
proof fn lemma_numeral(v: u8)
    ensures
        decimal(v as nat) != star(),
        !is_month_name(decimal(v as nat)),
        !is_weekday_name(decimal(v as nat)),
        !occurs(decimal(v as nat), '-'),
        !occurs(decimal(v as nat), '/'),
        forall|i: int|
            0 <= i < decimal(v as nat).len() ==> decimal(v as nat)[i] != '-' && decimal(
                v as nat,
            )[i] != '/',
        parse_u8(decimal(v as nat)) == Some(v),
{
    lemma_parse_decimal(v);
    let d = decimal(v as nat);
    assert(is_digit(d[0]));
    assert(forall|i: int| 0 <= i < d.len() ==> is_digit(#[trigger] d[i]));
    lemma_absent(d, '-');
    lemma_absent(d, '/');
}

/// A number written alone is a single literal: accepted exactly when it
/// lies within the field's bounds, and otherwise refused as out of range.
pub proof fn law_single_number(k: FieldKind, v: u8)
    ensures
        clause(k, decimal(v as nat)) == if k.holds(v) {
            Ok::<Clause, ParseError>(Clause::Single(decimal(v as nat)))
        } else {
            Err::<Clause, ParseError>(ParseError::OutOfRange { field: k })
        },
{
    lemma_numeral(v);
}

/// `*` alone is the wildcard in every field.
pub proof fn law_wildcard(k: FieldKind)
    ensures
        clause(k, star()) == Ok::<Clause, ParseError>(Clause::Any),
{
}

/// `a-b` with both bounds within the field is the range from `a` to `b` when
/// `b >= a`, and an ordering error when `b < a`.
pub proof fn law_range(k: FieldKind, a: u8, b: u8)
    requires
        k.holds(a),
        k.holds(b),
    ensures
        clause(k, decimal(a as nat) + seq!['-'] + decimal(b as nat)) == if a <= b {
            Ok::<Clause, ParseError>(Clause::Range(a, b))
        } else {
            Err::<Clause, ParseError>(ParseError::EndBeforeStart { field: k })
        },
{
    lemma_numeral(a);
    lemma_numeral(b);
    let x = decimal(a as nat);
    let y = decimal(b as nat);
    let t = x + seq!['-'] + y;
    lemma_split_at(x, '-', y);
    assert forall|i: int| 0 <= i < t.len() implies t[i] != '/' by {
        if i < x.len() {
            assert(t[i] == x[i]);
        } else if i > x.len() {
            assert(t[i] == y[i - x.len() - 1]);
        }
    }
    lemma_absent(t, '/');
    assert(t != star()) by {
        assert(t.len() != star().len());
    }
}

/// `x/y` and `x-y` hold no `-` when neither `x` nor `y` does.
proof fn lemma_joined_absent(x: Seq<char>, sep: char, y: Seq<char>, c: char)
    requires
        sep != c,
        forall|i: int| 0 <= i < x.len() ==> x[i] != c,
        forall|i: int| 0 <= i < y.len() ==> y[i] != c,
    ensures
        !occurs(x + seq![sep] + y, c),
{
    let t = x + seq![sep] + y;
    assert forall|i: int| 0 <= i < t.len() implies t[i] != c by {
        if i < x.len() {
            assert(t[i] == x[i]);
        } else if i > x.len() {
            assert(t[i] == y[i - x.len() - 1]);
        }
    }
    lemma_absent(t, c);
}

/// `*/y` and `m/y`, where `m` is the field's lowest number, are read alike:
/// both fail in the same way, or both give a stepped clause with the same step
/// and the same end, the field's largest number; only the start differs.
pub proof fn law_stepped_start(k: FieldKind, y: Seq<char>)
    requires
        !occurs(y, '-'),
    ensures
        ({
            let m = decimal(k.lowest() as nat);
            match (clause(k, star() + seq!['/'] + y), clause(k, m + seq!['/'] + y)) {
                (Ok(a), Ok(b)) => {
                    &&& a == Clause::Stepped(star(), y)
                    &&& b == Clause::Stepped(m, y)
                    &&& clause_fields(k, a).range_end == Some(decimal(k.highest() as nat))
                    &&& clause_fields(k, b).range_end == clause_fields(k, a).range_end
                    &&& clause_fields(k, b).step == clause_fields(k, a).step
                },
                (Err(e1), Err(e2)) => e1 == e2,
                _ => false,
            }
        }),
{
    let m = decimal(k.lowest() as nat);
    lemma_numeral(k.lowest());
    lemma_not_occurs(y, '-');
    assert(star()[0] == '*');
    let ts = star() + seq!['/'] + y;
    let tm = m + seq!['/'] + y;
    lemma_split_at(star(), '/', y);
    lemma_split_at(m, '/', y);
    lemma_joined_absent(star(), '/', y, '-');
    lemma_joined_absent(m, '/', y, '-');
    assert(ts != star()) by {
        assert(ts.len() != star().len());
    }
    assert(tm != star()) by {
        assert(tm.len() != star().len());
    }
}

/// A month literal that is not written as a number is accepted exactly when
/// it is `*` or one of the names JAN to DEC, in capitals, and a name stands
/// for itself; any other is refused as an unknown name.
pub proof fn law_month_names(t: Seq<char>)
    requires
        t.len() > 0,
        !numeral_text(t),
        !occurs(t, '-'),
        !occurs(t, '/'),
    ensures
        clause(FieldKind::Month, t) == if t == star() {
            Ok::<Clause, ParseError>(Clause::Any)
        } else if is_month_name(t) {
            Ok::<Clause, ParseError>(Clause::Single(t))
        } else {
            Err::<Clause, ParseError>(ParseError::UnknownSymbol { field: FieldKind::Month })
        },
{
}

/// A day-of-week literal that is not written as a number is accepted exactly
/// when it is `*` or one of the names MON to SUN, in capitals, and a name
/// stands for itself; any other is refused as an unknown name.
pub proof fn law_weekday_names(t: Seq<char>)
    requires
        t.len() > 0,
        !numeral_text(t),
        !occurs(t, '-'),
        !occurs(t, '/'),
    ensures
        clause(FieldKind::DayOfWeek, t) == if t == star() {
            Ok::<Clause, ParseError>(Clause::Any)
        } else if is_weekday_name(t) {
            Ok::<Clause, ParseError>(Clause::Single(t))
        } else {
            Err::<Clause, ParseError>(ParseError::UnknownSymbol { field: FieldKind::DayOfWeek })
        },
{
}

/// The day of the week accepts the numbers 0 to 6 and refuses 7 and above.
pub proof fn law_weekday_numbers(v: u8)
    ensures
        clause(FieldKind::DayOfWeek, decimal(v as nat)) is Ok <==> v <= 6,
{
    law_single_number(FieldKind::DayOfWeek, v);
}

/// The description depends on the entry alone: describing one entry twice,
/// or two entries with the same clauses, gives the same text.
pub proof fn law_render_deterministic(a: &CronEntry, b: &CronEntry)
    requires
        a@ == b@,
    ensures
        entry_text(a@) == entry_text(b@),
{
}

/// A run of non-white characters, read alone, is one open word.
proof fn lemma_one_open_word(x: Seq<char>)
    requires
        forall|i: int| 0 <= i < x.len() ==> !is_white(x[i]),
    ensures
        words_state(x) == (Seq::<Seq<char>>::empty(), x),
    decreases x.len(),
{
    if x.len() > 0 {
        lemma_one_open_word(x.drop_last());
        assert(x.drop_last().push(x.last()) =~= x);
    }
}

/// A word followed by a white character is closed before what follows is read.
proof fn lemma_words_after(x: Seq<char>, c: char, y: Seq<char>)
    requires
        x.len() > 0,
        forall|i: int| 0 <= i < x.len() ==> !is_white(x[i]),
        is_white(c),
    ensures
        words_state(x + seq![c] + y) == (seq![x] + words_state(y).0, words_state(y).1),
    decreases y.len(),
{
    let t = x + seq![c] + y;
    if y.len() == 0 {
        assert(t.drop_last() =~= x);
        lemma_one_open_word(x);
        assert(Seq::<Seq<char>>::empty().push(x) =~= seq![x] + Seq::<Seq<char>>::empty());
    } else {
        lemma_words_after(x, c, y.drop_last());
        assert(t.drop_last() =~= x + seq![c] + y.drop_last());
        assert(t.last() == y.last());
        let (done, open) = words_state(y.drop_last());
        assert((seq![x] + done).push(open) =~= seq![x] + done.push(open));
    }
}

/// The words of `x c y`, where `x` is a word and `c` is white: `x`, then the
/// words of `y`.
proof fn lemma_words_split(x: Seq<char>, c: char, y: Seq<char>)
    requires
        x.len() > 0,
        forall|i: int| 0 <= i < x.len() ==> !is_white(x[i]),
        is_white(c),
    ensures
        words(x + seq![c] + y) == seq![x] + words(y),
{
    lemma_words_after(x, c, y);
    let (done, open) = words_state(y);
    assert((seq![x] + done).push(open) =~= seq![x] + done.push(open));
}

/// When the minute field fails, its error is the result of the whole parse,
/// whatever follows it: the later fields, present or not, valid or not, are
/// not read.
pub proof fn law_first_field_decides(x: Seq<char>, c: char, y: Seq<char>)
    requires
        x.len() > 0,
        forall|i: int| 0 <= i < x.len() ==> !is_white(x[i]),
        is_white(c),
        field(FieldKind::Minute, x) is Err,
    ensures
        field(FieldKind::Minute, x) matches Err(e) && entry(x + seq![c] + y) == Err::<
            EntryFields,
            ParseError,
        >(e),
{
    lemma_words_split(x, c, y);
}

/// Text without `sep` is a single piece.
proof fn lemma_one_piece(s: Seq<char>, sep: char)
    requires
        forall|i: int| 0 <= i < s.len() ==> s[i] != sep,
    ensures
        split_state(s, sep) == (Seq::<Seq<char>>::empty(), s),
        split_on(s, sep) == seq![s],
    decreases s.len(),
{
    if s.len() > 0 {
        lemma_one_piece(s.drop_last(), sep);
        assert(s.drop_last().push(s.last()) =~= s);
    }
    assert(Seq::<Seq<char>>::empty().push(s) =~= seq![s]);
}

/// A number above the minute's bounds, written first, is refused as out of
/// range, whatever the rest of the expression holds.
pub proof fn law_minute_out_of_range_first(v: u8, c: char, y: Seq<char>)
    requires
        v > 59,
        is_white(c),
    ensures
        entry(decimal(v as nat) + seq![c] + y) == Err::<EntryFields, ParseError>(
            ParseError::OutOfRange { field: FieldKind::Minute },
        ),
{
    let x = decimal(v as nat);
    lemma_numeral(v);
    lemma_parse_decimal(v);
    assert forall|i: int| 0 <= i < x.len() implies !is_white(x[i]) && x[i] != ',' by {
        assert(is_digit(x[i]));
    }
    lemma_one_piece(x, ',');
    law_single_number(FieldKind::Minute, v);
    assert(seq![x].drop_last() =~= Seq::<Seq<char>>::empty());
    assert(seq![x].last() == x);
    assert(clauses(FieldKind::Minute, Seq::<Seq<char>>::empty()) is Ok);
    assert(field(FieldKind::Minute, x) == Err::<Seq<Clause>, ParseError>(
        ParseError::OutOfRange { field: FieldKind::Minute },
    ));
    law_first_field_decides(x, c, y);
}

} // verus!
