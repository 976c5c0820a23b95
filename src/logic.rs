//! The clause grammar, the field and entry builders, and the description of
//! a whole entry.

use crate::text::{
    after, before, chars_of, decimal, decimal_exec, find_exec, lower, lower_exec, numeral_text, numeral_text_exec, occurs, parse_u8,
    parse_u8_exec, push_str, split_exec, split_on, string_of, words, words_exec,
};
use crate::types::{
    describe_fields, fragment, is_star, star, BuildableSegment, ClauseFields, Common, DayOfMonth,
    DayOfWeek, FieldKind, FieldType, Hour, Minutes, Month, Segment,
};
use vstd::prelude::*;

verus! {

/// Why an expression was refused.
#[derive(Clone, Copy, Debug, PartialEq, Eq, Structural)]
pub enum ParseError {
    /// The expression has fewer than five fields.
    MissingFields { found: usize },
    /// A bound is not an 8-bit decimal integer.
    InvalidInteger { field: FieldKind },
    /// A number lies outside the field's bounds, or a step is zero.
    OutOfRange { field: FieldKind },
    /// A literal that is not written as a number is none of the field's names.
    UnknownSymbol { field: FieldKind },
    /// A `*` stands where a concrete value is needed.
    WildcardMisuse { field: FieldKind },
    /// A range ends before it starts.
    EndBeforeStart { field: FieldKind },
}

/// The meaning of one clause.
pub enum Clause {
    /// `*`
    Any,
    /// one literal: a number or a name
    Single(Seq<char>),
    /// `a-b`
    Range(u8, u8),
    /// `a-b/s`
    SteppedRange(u8, u8, u8),
    /// `x/s`, from `x` (a literal or `*`) to the field's largest number
    Stepped(Seq<char>, Seq<char>),
}

/// A bound or the step of a range, read as an 8-bit integer: `*` is refused
/// as a wildcard where a number is needed, other text as a malformed integer.
pub open spec fn number(k: FieldKind, p: Seq<char>) -> Result<u8, ParseError> {
    if p == star() {
        Err(ParseError::WildcardMisuse { field: k })
    } else {
        match parse_u8(p) {
            Some(v) => Ok(v),
            None => Err(ParseError::InvalidInteger { field: k }),
        }
    }
}

/// Whether `v` may stand as a bound of a range in the field.
pub open spec fn bound_ok(k: FieldKind, v: u8) -> bool {
    k.holds(v)
}

/// Whether `v` may stand as a step in the field: within it, and not zero.
pub open spec fn step_ok(k: FieldKind, v: u8) -> bool {
    v > 0 && k.holds(v)
}

/// Why the field refuses the single literal `p`.
pub open spec fn literal_error(k: FieldKind, p: Seq<char>) -> ParseError {
    if parse_u8(p) is Some {
        ParseError::OutOfRange { field: k }
    } else if k.has_names() && p.len() > 0 && !numeral_text(p) {
        ParseError::UnknownSymbol { field: k }
    } else {
        ParseError::InvalidInteger { field: k }
    }
}

/// A single literal, checked against the field.
pub open spec fn literal(k: FieldKind, p: Seq<char>) -> Result<Seq<char>, ParseError> {
    if k.accepts(p) {
        Ok(p)
    } else {
        Err(literal_error(k, p))
    }
}

/// The meaning of clause `t` in a field of kind `k`. The forms are tried in
/// this order: `*`; `a-b/s` (split at the first `-`, then at the first `/`);
/// `x/s` (split at the first `/`); `a-b` (split at the first `-`); a literal.
/// In `a-b/s` and `a-b` every part is first read as a number, left to right;
/// then the bounds must lie within the field and a step must be positive;
/// last, the range must not end before it starts. In `x/s` the step is a
/// literal of the field, and must not be zero.
pub open spec fn clause(k: FieldKind, t: Seq<char>) -> Result<Clause, ParseError> {
    if t == star() {
        Ok(Clause::Any)
    } else if occurs(t, '-') && occurs(t, '/') {
        let rest = after(t, '-');
        match number(k, before(t, '-')) {
            Err(e) => Err(e),
            Ok(a) => match number(k, before(rest, '/')) {
                Err(e) => Err(e),
                Ok(b) => match number(k, after(rest, '/')) {
                    Err(e) => Err(e),
                    Ok(s) => if !(bound_ok(k, a) && bound_ok(k, b) && step_ok(k, s)) {
                        Err(ParseError::OutOfRange { field: k })
                    } else if a > b {
                        Err(ParseError::EndBeforeStart { field: k })
                    } else {
                        Ok(Clause::SteppedRange(a, b, s))
                    },
                },
            },
        }
    } else if occurs(t, '/') {
        let step = after(t, '/');
        if step == star() {
            Err(ParseError::WildcardMisuse { field: k })
        } else {
            match literal(k, before(t, '/')) {
                Err(e) => Err(e),
                Ok(x) => match literal(k, step) {
                    Err(e) => Err(e),
                    Ok(s) => if parse_u8(s) == Some(0u8) {
                        Err(ParseError::OutOfRange { field: k })
                    } else {
                        Ok(Clause::Stepped(x, s))
                    },
                },
            }
        }
    } else if occurs(t, '-') {
        match number(k, before(t, '-')) {
            Err(e) => Err(e),
            Ok(a) => match number(k, after(t, '-')) {
                Err(e) => Err(e),
                Ok(b) => if !(bound_ok(k, a) && bound_ok(k, b)) {
                    Err(ParseError::OutOfRange { field: k })
                } else if a > b {
                    Err(ParseError::EndBeforeStart { field: k })
                } else {
                    Ok(Clause::Range(a, b))
                },
            },
        }
    } else {
        match literal(k, t) {
            Err(e) => Err(e),
            Ok(v) => Ok(Clause::Single(v)),
        }
    }
}

pub open spec fn parts(
    range_start: Option<Seq<char>>,
    range_end: Option<Seq<char>>,
    step: Option<Seq<char>>,
    val: Option<Seq<char>>,
) -> ClauseFields {
    ClauseFields { range_start, range_end, step, val }
}

/// How a clause of a field of kind `k` is stored: numbers of ranges in
/// shortest decimal form, literals as written, and the implicit end of `x/s`
/// as the field's largest number.
pub open spec fn clause_fields(k: FieldKind, c: Clause) -> ClauseFields {
    match c {
        Clause::Any => parts(None, None, None, Some(star())),
        Clause::Single(v) => parts(None, None, None, Some(v)),
        Clause::Range(a, b) => parts(Some(decimal(a as nat)), Some(decimal(b as nat)), None, None),
        Clause::SteppedRange(a, b, s) => parts(
            Some(decimal(a as nat)),
            Some(decimal(b as nat)),
            Some(decimal(s as nat)),
            None,
        ),
        Clause::Stepped(x, s) => parts(Some(x), Some(decimal(k.highest() as nat)), Some(s), None),
    }
}

/// `r` is what clause meaning `m` becomes in a field of kind `k`.
pub open spec fn built_as<T: BuildableSegment>(
    r: Result<T, ParseError>,
    k: FieldKind,
    m: Result<Clause, ParseError>,
) -> bool {
    match m {
        Ok(c) => r matches Ok(v) && v.fields() == clause_fields(k, c),
        Err(e) => r == Err::<T, ParseError>(e),
    }
}

fn number_exec(k: FieldKind, p: &[char]) -> (r: Result<u8, ParseError>)
    ensures
        r == number(k, p@),
{
    if is_star(p) {
        return Err(ParseError::WildcardMisuse { field: k });
    }
    match parse_u8_exec(p) {
        Some(v) => Ok(v),
        None => Err(ParseError::InvalidInteger { field: k }),
    }
}

fn bound_ok_exec(k: FieldKind, v: u8) -> (r: bool)
    ensures
        r == bound_ok(k, v),
{
    k.min() <= v && v <= k.max()
}

fn literal_exec(k: FieldKind, p: &[char]) -> (r: Result<(), ParseError>)
    ensures
        match literal(k, p@) {
            Ok(_) => r is Ok,
            Err(e) => r == Err::<(), ParseError>(e),
        },
{
    if k.accepts_exec(p) {
        return Ok(());
    }
    if parse_u8_exec(p).is_some() {
        Err(ParseError::OutOfRange { field: k })
    } else if (k == FieldKind::Month || k == FieldKind::DayOfWeek) && p.len() > 0
        && !numeral_text_exec(p) {
        Err(ParseError::UnknownSymbol { field: k })
    } else {
        Err(ParseError::InvalidInteger { field: k })
    }
}

fn decimal_string(v: u8) -> (r: String)
    ensures
        r@ == decimal(v as nat),
{
    let d = decimal_exec(v);
    string_of(d.as_slice())
}

/// Parses one clause of a field of `seg`'s kind.
pub fn parse_and_categorise<T: Segment>(expr: &[char], seg: &T) -> (r: Result<T, ParseError>)
    ensures
        built_as(r, T::field_kind(), clause(T::field_kind(), expr@)),
{
    let k = seg.kind();
    let n = expr.len();
    if is_star(expr) {
        return Ok(T::new(None, None, None, Some(string_of(expr))));
    }
    let dash = find_exec(expr, '-');
    let slash = find_exec(expr, '/');
    if dash < n && slash < n {
        let start = &expr[0..dash];
        let rest = &expr[dash + 1..n];
        proof {
            assert(start@ =~= before(expr@, '-'));
            assert(rest@ =~= after(expr@, '-'));
        }
        let m = rest.len();
        let cut = find_exec(rest, '/');
        let mid = &rest[0..cut];
        let step = if cut < m {
            &rest[cut + 1..m]
        } else {
            &rest[m..m]
        };
        proof {
            assert(mid@ =~= before(rest@, '/'));
            assert(step@ =~= after(rest@, '/'));
        }
        let a = number_exec(k, start)?;
        let b = number_exec(k, mid)?;
        let s = number_exec(k, step)?;
        if !(bound_ok_exec(k, a) && bound_ok_exec(k, b) && s > 0 && bound_ok_exec(k, s)) {
            return Err(ParseError::OutOfRange { field: k });
        }
        if a > b {
            return Err(ParseError::EndBeforeStart { field: k });
        }
        return Ok(
            T::new(
                Some(decimal_string(a)),
                Some(decimal_string(b)),
                Some(decimal_string(s)),
                None,
            ),
        );
    }
    if slash < n {
        let start = &expr[0..slash];
        let step = &expr[slash + 1..n];
        proof {
            assert(start@ =~= before(expr@, '/'));
            assert(step@ =~= after(expr@, '/'));
        }
        if is_star(step) {
            return Err(ParseError::WildcardMisuse { field: k });
        }
        literal_exec(k, start)?;
        literal_exec(k, step)?;
        if parse_u8_exec(step) == Some(0u8) {
            return Err(ParseError::OutOfRange { field: k });
        }
        return Ok(
            T::new(
                Some(string_of(start)),
                Some(decimal_string(k.max())),
                Some(string_of(step)),
                None,
            ),
        );
    }
    if dash < n {
        let start = &expr[0..dash];
        let end = &expr[dash + 1..n];
        proof {
            assert(start@ =~= before(expr@, '-'));
            assert(end@ =~= after(expr@, '-'));
        }
        let a = number_exec(k, start)?;
        let b = number_exec(k, end)?;
        if !(bound_ok_exec(k, a) && bound_ok_exec(k, b)) {
            return Err(ParseError::OutOfRange { field: k });
        }
        if a > b {
            return Err(ParseError::EndBeforeStart { field: k });
        }
        return Ok(T::new(Some(decimal_string(a)), Some(decimal_string(b)), None, None));
    }
    literal_exec(k, expr)?;
    Ok(T::new(None, None, None, Some(string_of(expr))))
}

/// The meanings of the clauses `pieces`, or the first error among them.
pub open spec fn clauses(k: FieldKind, pieces: Seq<Seq<char>>) -> Result<Seq<Clause>, ParseError>
    decreases pieces.len(),
{
    if pieces.len() == 0 {
        Ok(Seq::empty())
    } else {
        match clauses(k, pieces.drop_last()) {
            Err(e) => Err(e),
            Ok(cs) => match clause(k, pieces.last()) {
                Err(e) => Err(e),
                Ok(c) => Ok(cs.push(c)),
            },
        }
    }
}

/// The clauses of field text `t`: its comma-separated pieces, in order.
pub open spec fn field(k: FieldKind, t: Seq<char>) -> Result<Seq<Clause>, ParseError> {
    clauses(k, split_on(t, ','))
}

/// Each of `v` holds the clause of `cs` at its position.
pub open spec fn all_built_as<T: BuildableSegment>(v: Seq<T>, k: FieldKind, cs: Seq<Clause>) -> bool {
    &&& v.len() == cs.len()
    &&& forall|i: int| 0 <= i < v.len() ==> #[trigger] v[i].fields() == clause_fields(k, cs[i])
}

/// `r` is what field meaning `m` becomes in a field of kind `k`.
pub open spec fn field_built_as<T: BuildableSegment>(
    r: Result<Vec<T>, ParseError>,
    k: FieldKind,
    m: Result<Seq<Clause>, ParseError>,
) -> bool {
    match m {
        Ok(cs) => r matches Ok(v) && all_built_as(v@, k, cs),
        Err(e) => r == Err::<Vec<T>, ParseError>(e),
    }
}

proof fn lemma_clauses_stop(k: FieldKind, ps: Seq<Seq<char>>, i: int)
    requires
        0 <= i <= ps.len(),
        clauses(k, ps.take(i)) is Err,
    ensures
        clauses(k, ps) == clauses(k, ps.take(i)),
    decreases ps.len() - i,
{
    if i < ps.len() {
        assert(ps.take(i + 1).drop_last() =~= ps.take(i));
        lemma_clauses_stop(k, ps, i + 1);
    } else {
        assert(ps.take(i) =~= ps);
    }
}

/// Parses the characters of one field.
pub fn categorize_chars<T: Segment>(expr: &[char], seg: &T) -> (r: Result<Vec<T>, ParseError>)
    ensures
        field_built_as(r, T::field_kind(), field(T::field_kind(), expr@)),
{
    let pieces = split_exec(expr, ',');
    let ghost k = T::field_kind();
    let ghost ps = pieces.deep_view();
    let ghost mut cs: Seq<Clause> = Seq::empty();
    let mut res: Vec<T> = Vec::new();
    let mut i: usize = 0;
    assert(ps.take(0) =~= Seq::<Seq<char>>::empty());
    while i < pieces.len()
        invariant
            i <= pieces@.len(),
            ps == pieces.deep_view(),
            ps == split_on(expr@, ','),
            k == T::field_kind(),
            clauses(k, ps.take(i as int)) == Ok::<Seq<Clause>, ParseError>(cs),
            all_built_as(res@, k, cs),
        decreases pieces@.len() - i,
    {
        let piece = pieces[i].as_slice();
        assert(piece@ =~= ps[i as int]);
        assert(ps.take(i + 1).drop_last() =~= ps.take(i as int));
        assert(ps.take(i + 1).last() == ps[i as int]);
        match parse_and_categorise(piece, seg) {
            Ok(c) => {
                let ghost before_push = res@;
                res.push(c);
                proof {
                    let m = clause(k, piece@).unwrap();
                    cs = cs.push(m);
                    assert(all_built_as(res@, k, cs)) by {
                        assert forall|j: int| 0 <= j < res@.len() implies #[trigger] res@[j].fields()
                            == clause_fields(k, cs[j]) by {
                            if j < before_push.len() {
                                assert(res@[j] == before_push[j]);
                            }
                        }
                    }
                }
            },
            Err(e) => {
                proof {
                    lemma_clauses_stop(k, ps, i + 1);
                }
                return Err(e);
            },
        }
        i = i + 1;
    }
    assert(ps.take(ps.len() as int) =~= ps);
    Ok(res)
}

/// Parses one field: its comma-separated clauses, in order, for the kind of
/// `seg`. The first clause that fails decides the error.
pub fn categorize<T: Segment>(expr: &str, seg: &T) -> (r: Result<Vec<T>, ParseError>)
    ensures
        field_built_as(r, T::field_kind(), field(T::field_kind(), expr@)),
{
    let chars = chars_of(expr);
    categorize_chars(chars.as_slice(), seg)
}

/// A whole expression: the clauses of its five fields, in their fixed order.
#[derive(Debug, PartialEq, Eq)]
pub struct CronEntry {
    pub minutes: Vec<Minutes>,
    pub hour: Vec<Hour>,
    pub day_of_month: Vec<DayOfMonth>,
    pub month: Vec<Month>,
    pub day_of_week: Vec<DayOfWeek>,
}

/// The stored parts of each clause of each field of an entry.
pub struct EntryFields {
    pub minutes: Seq<ClauseFields>,
    pub hour: Seq<ClauseFields>,
    pub day_of_month: Seq<ClauseFields>,
    pub month: Seq<ClauseFields>,
    pub day_of_week: Seq<ClauseFields>,
}

pub open spec fn views<T>(v: Seq<Common<T>>) -> Seq<ClauseFields> {
    v.map_values(|c: Common<T>| c@)
}

impl View for CronEntry {
    type V = EntryFields;

    open spec fn view(&self) -> EntryFields {
        EntryFields {
            minutes: views(self.minutes@),
            hour: views(self.hour@),
            day_of_month: views(self.day_of_month@),
            month: views(self.month@),
            day_of_week: views(self.day_of_week@),
        }
    }
}

/// How the clauses `cs` of a field of kind `k` are stored.
pub open spec fn stored(k: FieldKind, cs: Seq<Clause>) -> Seq<ClauseFields> {
    cs.map_values(|c: Clause| clause_fields(k, c))
}

/// Field `i` of `w`, read as a field of kind `k`; when `w` has no field `i`,
/// the missing-fields error.
pub open spec fn field_at(w: Seq<Seq<char>>, i: int, k: FieldKind) -> Result<
    Seq<Clause>,
    ParseError,
> {
    if i < w.len() {
        field(k, w[i])
    } else {
        Err(ParseError::MissingFields { found: w.len() as usize })
    }
}

/// The entry read from the whitespace-separated fields `w`. The fields are
/// read from left to right, and the first that fails decides the error; a
/// missing field fails where it would stand. From the sixth on they are not
/// read.
pub open spec fn entry_of_words(w: Seq<Seq<char>>) -> Result<EntryFields, ParseError> {
    match field_at(w, 0, FieldKind::Minute) {
        Err(e) => Err(e),
        Ok(mi) => match field_at(w, 1, FieldKind::Hour) {
            Err(e) => Err(e),
            Ok(h) => match field_at(w, 2, FieldKind::DayOfMonth) {
                Err(e) => Err(e),
                Ok(d) => match field_at(w, 3, FieldKind::Month) {
                    Err(e) => Err(e),
                    Ok(mo) => match field_at(w, 4, FieldKind::DayOfWeek) {
                        Err(e) => Err(e),
                        Ok(wd) => Ok(
                            EntryFields {
                                minutes: stored(FieldKind::Minute, mi),
                                hour: stored(FieldKind::Hour, h),
                                day_of_month: stored(FieldKind::DayOfMonth, d),
                                month: stored(FieldKind::Month, mo),
                                day_of_week: stored(FieldKind::DayOfWeek, wd),
                            },
                        ),
                    },
                },
            },
        },
    }
}

/// The entry that expression `s` denotes, or why it denotes none.
pub open spec fn entry(s: Seq<char>) -> Result<EntryFields, ParseError> {
    entry_of_words(words(s))
}

/// `r` is what entry meaning `m` says.
pub open spec fn entry_built_as(r: Result<CronEntry, ParseError>, m: Result<EntryFields, ParseError>) -> bool {
    match m {
        Ok(f) => r matches Ok(e) && e@ == f,
        Err(e) => r == Err::<CronEntry, ParseError>(e),
    }
}

proof fn lemma_stored<T>(v: Seq<Common<T>>, k: FieldKind, cs: Seq<Clause>)
    requires
        all_built_as(v, k, cs),
    ensures
        views(v) == stored(k, cs),
{
    assert(views(v) =~= stored(k, cs)) by {
        assert forall|i: int| 0 <= i < v.len() implies views(v)[i] == stored(k, cs)[i] by {
            assert(v[i].fields() == clause_fields(k, cs[i]));
        }
    }
}

fn field_of<T: FieldType>(w: &Vec<Vec<char>>, i: usize) -> (r: Result<Vec<Common<T>>, ParseError>)
    ensures
        match field_at(w.deep_view(), i as int, T::spec_kind()) {
            Ok(cs) => r matches Ok(v) && views(v@) == stored(T::spec_kind(), cs),
            Err(e) => r == Err::<Vec<Common<T>>, ParseError>(e),
        },
{
    if i >= w.len() {
        return Err(ParseError::MissingFields { found: w.len() });
    }
    assert(w@[i as int]@ =~= w.deep_view()[i as int]);
    let seg: Common<T> = Common::default();
    let r = categorize_chars(w[i].as_slice(), &seg);
    proof {
        if let Ok(cs) = field(T::spec_kind(), w@[i as int]@) {
            lemma_stored(r.unwrap()@, T::spec_kind(), cs);
        }
    }
    r
}

impl CronEntry {
    /// Builds the entry from its whitespace-separated fields.
    pub fn build(w: &Vec<Vec<char>>) -> (r: Result<CronEntry, ParseError>)
        ensures
            entry_built_as(r, entry_of_words(w.deep_view())),
    {
        let ghost ws = w.deep_view();
        let minutes = field_of(w, 0)?;
        let hour = field_of(w, 1)?;
        let day_of_month = field_of(w, 2)?;
        let month = field_of(w, 3)?;
        let day_of_week = field_of(w, 4)?;
        let e = CronEntry { minutes, hour, day_of_month, month, day_of_week };
        proof {
            let f = entry_of_words(ws).unwrap();
            assert(e@ == f);
        }
        Ok(e)
    }

    /// Parses a whole expression.
    pub fn parse(s: &str) -> (r: Result<CronEntry, ParseError>)
        ensures
            entry_built_as(r, entry(s@)),
    {
        let chars = chars_of(s);
        let w = words_exec(chars.as_slice());
        CronEntry::build(&w)
    }
}

/// Fragment `f`, at position `i` of `n`, as it stands in the joined text:
/// a lone fragment as it is; otherwise each but the last followed by `", "`,
/// the last preceded by `"and "`, and all but the first in lower case.
/// Lower case is ASCII lower case: characters other than `A` to `Z` stay as
/// they are. Every literal that `parse` accepts is ASCII, so on a parsed entry
/// this is the same as full Unicode lower-casing.
pub open spec fn joined_piece(f: Seq<char>, i: int, n: int) -> Seq<char> {
    if n <= 1 {
        f
    } else if i == n - 1 {
        "and "@ + lower(f)
    } else if i == 0 {
        f + ", "@
    } else {
        lower(f) + ", "@
    }
}

/// The first `m` fragments of `frags`, joined.
pub open spec fn join_upto(frags: Seq<Seq<char>>, m: int) -> Seq<char>
    decreases m,
{
    if m <= 0 {
        Seq::empty()
    } else {
        join_upto(frags, m - 1) + joined_piece(frags[m - 1], m - 1, frags.len() as int)
    }
}

/// The phrases of the clauses `cs` of a field of kind `k`, joined.
pub open spec fn field_text(k: FieldKind, cs: Seq<ClauseFields>) -> Seq<char> {
    let frags = cs.map_values(|c: ClauseFields| fragment(k, c));
    join_upto(frags, frags.len() as int)
}

/// The description of an entry: its fields' texts in entry order, separated
/// by single spaces; the day-of-week text, with its space, only if not empty.
pub open spec fn entry_text(e: EntryFields) -> Seq<char> {
    let dow = field_text(FieldKind::DayOfWeek, e.day_of_week);
    field_text(FieldKind::Minute, e.minutes) + " "@ + field_text(FieldKind::Hour, e.hour) + " "@
        + field_text(FieldKind::DayOfMonth, e.day_of_month) + " "@ + field_text(
        FieldKind::Month,
        e.month,
    ) + if dow.len() == 0 {
        Seq::empty()
    } else {
        " "@ + dow
    }
}

fn field_text_exec<T>(k: FieldKind, v: &Vec<Common<T>>) -> (r: Vec<char>)
    ensures
        r@ == field_text(k, views(v@)),
{
    let ghost frags = views(v@).map_values(|c: ClauseFields| fragment(k, c));
    let n = v.len();
    let mut out: Vec<char> = Vec::new();
    let mut i: usize = 0;
    while i < n
        invariant
            n == v@.len(),
            i <= n,
            frags == views(v@).map_values(|c: ClauseFields| fragment(k, c)),
            out@ == join_upto(frags, i as int),
        decreases n - i,
    {
        let mut f = describe_fields(k, &v[i]);
        assert(f@ == frags[i as int]);
        if n <= 1 {
            out.append(&mut f);
        } else if i == n - 1 {
            push_str(&mut out, "and ");
            let mut l = lower_exec(f.as_slice());
            out.append(&mut l);
        } else if i == 0 {
            out.append(&mut f);
            push_str(&mut out, ", ");
        } else {
            let mut l = lower_exec(f.as_slice());
            out.append(&mut l);
            push_str(&mut out, ", ");
        }
        assert(out@ =~= join_upto(frags, i + 1));
        i = i + 1;
    }
    out
}

impl CronEntry {
    /// The entry in words. Fragments are lower-cased in ASCII only (see
    /// `joined_piece`); the text of a parsed entry is all ASCII.
    pub fn render(&self) -> (r: String)
        ensures
            r@ == entry_text(self@),
    {
        let mut out = field_text_exec(FieldKind::Minute, &self.minutes);
        let mut hour = field_text_exec(FieldKind::Hour, &self.hour);
        let mut dom = field_text_exec(FieldKind::DayOfMonth, &self.day_of_month);
        let mut month = field_text_exec(FieldKind::Month, &self.month);
        let mut dow = field_text_exec(FieldKind::DayOfWeek, &self.day_of_week);
        push_str(&mut out, " ");
        out.append(&mut hour);
        push_str(&mut out, " ");
        out.append(&mut dom);
        push_str(&mut out, " ");
        out.append(&mut month);
        if dow.len() > 0 {
            push_str(&mut out, " ");
            out.append(&mut dow);
        }
        assert(out@ =~= entry_text(self@));
        string_of(out.as_slice())
    }
}

impl core::str::FromStr for CronEntry {
    type Err = ParseError;

    fn from_str(s: &str) -> (r: Result<CronEntry, ParseError>)
        ensures
            entry_built_as(r, entry(s@)),
    {
        CronEntry::parse(s)
    }
}

} // verus!
