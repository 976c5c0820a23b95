//! The five field kinds with their rules, and the clause type that holds one
//! parsed unit of a field.

use crate::text::{chars_of, parse_u8, parse_u8_exec, push_str, string_of};
use std::marker::PhantomData;
use vstd::prelude::*;

verus! {

/// The five positions of an expression, in their fixed order.
#[derive(Clone, Copy, Debug, PartialEq, Eq, Structural)]
pub enum FieldKind {
    Minute,
    Hour,
    DayOfMonth,
    Month,
    DayOfWeek,
}

pub open spec fn word(a: char, b: char, c: char) -> Seq<char> {
    seq![a, b, c]
}

pub open spec fn is_month_name(s: Seq<char>) -> bool {
    ||| s == word('J', 'A', 'N')
    ||| s == word('F', 'E', 'B')
    ||| s == word('M', 'A', 'R')
    ||| s == word('A', 'P', 'R')
    ||| s == word('M', 'A', 'Y')
    ||| s == word('J', 'U', 'N')
    ||| s == word('J', 'U', 'L')
    ||| s == word('A', 'U', 'G')
    ||| s == word('S', 'E', 'P')
    ||| s == word('O', 'C', 'T')
    ||| s == word('N', 'O', 'V')
    ||| s == word('D', 'E', 'C')
}

pub open spec fn is_weekday_name(s: Seq<char>) -> bool {
    ||| s == word('M', 'O', 'N')
    ||| s == word('T', 'U', 'E')
    ||| s == word('W', 'E', 'D')
    ||| s == word('T', 'H', 'U')
    ||| s == word('F', 'R', 'I')
    ||| s == word('S', 'A', 'T')
    ||| s == word('S', 'U', 'N')
}

pub open spec fn star() -> Seq<char> {
    seq!['*']
}

impl FieldKind {
    /// The smallest number the field holds.
    pub open spec fn lowest(self) -> u8 {
        match self {
            FieldKind::DayOfMonth | FieldKind::Month => 1,
            _ => 0,
        }
    }

    /// The largest number the field holds.
    pub open spec fn highest(self) -> u8 {
        match self {
            FieldKind::Minute => 59,
            FieldKind::Hour => 23,
            FieldKind::DayOfMonth => 31,
            FieldKind::Month => 12,
            FieldKind::DayOfWeek => 6,
        }
    }

    pub open spec fn holds(self, v: u8) -> bool {
        self.lowest() <= v <= self.highest()
    }

    /// Whether the field has symbolic names at all.
    pub open spec fn has_names(self) -> bool {
        self == FieldKind::Month || self == FieldKind::DayOfWeek
    }

    /// Whether `s` is one of the field's symbolic names (case matters).
    pub open spec fn is_name(self, s: Seq<char>) -> bool {
        match self {
            FieldKind::Month => is_month_name(s),
            FieldKind::DayOfWeek => is_weekday_name(s),
            _ => false,
        }
    }

    /// Whether the field accepts `s` as a single literal: the wildcard, one of
    /// its names, or an 8-bit integer within its bounds.
    pub open spec fn accepts(self, s: Seq<char>) -> bool {
        ||| s == star()
        ||| self.is_name(s)
        ||| (parse_u8(s) matches Some(v) && self.holds(v))
    }

    pub fn min(&self) -> (r: u8)
        ensures
            r == self.lowest(),
    {
        match self {
            FieldKind::DayOfMonth | FieldKind::Month => 1,
            _ => 0,
        }
    }

    pub fn max(&self) -> (r: u8)
        ensures
            r == self.highest(),
    {
        match self {
            FieldKind::Minute => 59,
            FieldKind::Hour => 23,
            FieldKind::DayOfMonth => 31,
            FieldKind::Month => 12,
            FieldKind::DayOfWeek => 6,
        }
    }

    pub fn has_name(&self, s: &[char]) -> (r: bool)
        ensures
            r == self.is_name(s@),
    {
        match self {
            FieldKind::Month => {
                is_word(s, 'J', 'A', 'N') || is_word(s, 'F', 'E', 'B') || is_word(s, 'M', 'A', 'R')
                    || is_word(s, 'A', 'P', 'R') || is_word(s, 'M', 'A', 'Y') || is_word(
                    s,
                    'J',
                    'U',
                    'N',
                ) || is_word(s, 'J', 'U', 'L') || is_word(s, 'A', 'U', 'G') || is_word(
                    s,
                    'S',
                    'E',
                    'P',
                ) || is_word(s, 'O', 'C', 'T') || is_word(s, 'N', 'O', 'V') || is_word(
                    s,
                    'D',
                    'E',
                    'C',
                )
            },
            FieldKind::DayOfWeek => {
                is_word(s, 'M', 'O', 'N') || is_word(s, 'T', 'U', 'E') || is_word(s, 'W', 'E', 'D')
                    || is_word(s, 'T', 'H', 'U') || is_word(s, 'F', 'R', 'I') || is_word(
                    s,
                    'S',
                    'A',
                    'T',
                ) || is_word(s, 'S', 'U', 'N')
            },
            _ => false,
        }
    }

    /// Whether the field accepts `s` as a single literal.
    pub fn accepts_exec(&self, s: &[char]) -> (r: bool)
        ensures
            r == self.accepts(s@),
    {
        if is_star(s) || self.has_name(s) {
            return true;
        }
        match parse_u8_exec(s) {
            Some(v) => self.min() <= v && v <= self.max(),
            None => false,
        }
    }
}

fn is_word(s: &[char], a: char, b: char, c: char) -> (r: bool)
    ensures
        r == (s@ == word(a, b, c)),
{
    let r = s.len() == 3 && s[0] == a && s[1] == b && s[2] == c;
    proof {
        if s@.len() == 3 {
            assert(r ==> s@ =~= word(a, b, c));
        }
    }
    r
}

pub fn is_star(s: &[char]) -> (r: bool)
    ensures
        r == (s@ == star()),
{
    let r = s.len() == 1 && s[0] == '*';
    proof {
        if s@.len() == 1 {
            assert(r ==> s@ =~= star());
        }
    }
    r
}

/// The four optional parts of a clause, as character sequences.
pub struct ClauseFields {
    pub range_start: Option<Seq<char>>,
    pub range_end: Option<Seq<char>>,
    pub step: Option<Seq<char>>,
    pub val: Option<Seq<char>>,
}

pub open spec fn opt_view(o: Option<String>) -> Option<Seq<char>> {
    match o {
        Some(s) => Some(s@),
        None => None,
    }
}

pub open spec fn or_empty(o: Option<Seq<char>>) -> Seq<char> {
    match o {
        Some(s) => s,
        None => Seq::empty(),
    }
}

/// Ties a marker type to the field kind whose rules it carries.
pub trait FieldType {
    spec fn spec_kind() -> FieldKind;

    fn kind() -> (k: FieldKind)
        ensures
            k == Self::spec_kind(),
    ;
}

#[derive(Debug, PartialEq, Eq)]
pub struct MinuteType;

#[derive(Debug, PartialEq, Eq)]
pub struct HourType;

#[derive(Debug, PartialEq, Eq)]
pub struct DayOfMonthType;

#[derive(Debug, PartialEq, Eq)]
pub struct MonthType;

#[derive(Debug, PartialEq, Eq)]
pub struct DayOfWeekType;

impl FieldType for MinuteType {
    open spec fn spec_kind() -> FieldKind {
        FieldKind::Minute
    }

    fn kind() -> (k: FieldKind) {
        FieldKind::Minute
    }
}

impl FieldType for HourType {
    open spec fn spec_kind() -> FieldKind {
        FieldKind::Hour
    }

    fn kind() -> (k: FieldKind) {
        FieldKind::Hour
    }
}

impl FieldType for DayOfMonthType {
    open spec fn spec_kind() -> FieldKind {
        FieldKind::DayOfMonth
    }

    fn kind() -> (k: FieldKind) {
        FieldKind::DayOfMonth
    }
}

impl FieldType for MonthType {
    open spec fn spec_kind() -> FieldKind {
        FieldKind::Month
    }

    fn kind() -> (k: FieldKind) {
        FieldKind::Month
    }
}

impl FieldType for DayOfWeekType {
    open spec fn spec_kind() -> FieldKind {
        FieldKind::DayOfWeek
    }

    fn kind() -> (k: FieldKind) {
        FieldKind::DayOfWeek
    }
}

/// One clause of a field of kind `T`. A wildcard or single literal sits in
/// `val`; a range, with or without a step, in the other three parts.
#[derive(Debug, PartialEq, Eq)]
pub struct Common<T> {
    pub range_start: Option<String>,
    pub range_end: Option<String>,
    pub step: Option<String>,
    pub val: Option<String>,
    pub seg_type: PhantomData<T>,
}

pub type Minutes = Common<MinuteType>;

pub type Hour = Common<HourType>;

pub type DayOfMonth = Common<DayOfMonthType>;

pub type Month = Common<MonthType>;

pub type DayOfWeek = Common<DayOfWeekType>;

impl<T> View for Common<T> {
    type V = ClauseFields;

    open spec fn view(&self) -> ClauseFields {
        ClauseFields {
            range_start: opt_view(self.range_start),
            range_end: opt_view(self.range_end),
            step: opt_view(self.step),
            val: opt_view(self.val),
        }
    }
}

pub open spec fn fields_of(
    range_start: Option<String>,
    range_end: Option<String>,
    step: Option<String>,
    val: Option<String>,
) -> ClauseFields {
    ClauseFields {
        range_start: opt_view(range_start),
        range_end: opt_view(range_end),
        step: opt_view(step),
        val: opt_view(val),
    }
}

/// A clause type that can be put together from its four parts.
pub trait BuildableSegment: Sized {
    spec fn fields(&self) -> ClauseFields;

    fn new(
        range_start: Option<String>,
        range_end: Option<String>,
        step: Option<String>,
        val: Option<String>,
    ) -> (r: Self)
        ensures
            r.fields() == fields_of(range_start, range_end, step, val),
    ;
}

/// A clause type together with the rules of its field.
pub trait Segment: BuildableSegment {
    spec fn field_kind() -> FieldKind;

    fn kind(&self) -> (k: FieldKind)
        ensures
            k == Self::field_kind(),
    ;

    /// Whether the field accepts `item` as a single literal.
    fn validate_range(&self, item: &str) -> (r: bool)
        ensures
            r == Self::field_kind().accepts(item@),
    ;

    /// The field's largest number.
    fn max(&self) -> (r: u8)
        ensures
            r == Self::field_kind().highest(),
    ;

    /// The clause in words.
    fn describe(&self) -> (r: String)
        ensures
            r@ == fragment(Self::field_kind(), self.fields()),
    ;
}

impl<T> BuildableSegment for Common<T> {
    open spec fn fields(&self) -> ClauseFields {
        self@
    }

    fn new(
        range_start: Option<String>,
        range_end: Option<String>,
        step: Option<String>,
        val: Option<String>,
    ) -> (r: Self) {
        Common { range_start, range_end, step, val, seg_type: PhantomData }
    }
}

impl<T> Default for Common<T> {
    fn default() -> (r: Self)
        ensures
            r@ == fields_of(None, None, None, None),
    {
        Common { range_start: None, range_end: None, step: None, val: None, seg_type: PhantomData }
    }
}

impl<T: FieldType> Segment for Common<T> {
    open spec fn field_kind() -> FieldKind {
        T::spec_kind()
    }

    fn kind(&self) -> (k: FieldKind) {
        T::kind()
    }

    fn validate_range(&self, item: &str) -> (r: bool) {
        let s = chars_of(item);
        T::kind().accepts_exec(s.as_slice())
    }

    fn max(&self) -> (r: u8) {
        T::kind().max()
    }

    fn describe(&self) -> (r: String) {
        let v = describe_fields(T::kind(), self);
        string_of(v.as_slice())
    }
}

/// What a wildcard clause says.
pub open spec fn any_text(k: FieldKind) -> Seq<char> {
    if k == FieldKind::Minute {
        "At every minute"@
    } else {
        Seq::empty()
    }
}

/// What precedes a single literal.
pub open spec fn single_prefix(k: FieldKind) -> Seq<char> {
    match k {
        FieldKind::Minute => "At minute "@,
        FieldKind::Hour => "past hour "@,
        FieldKind::DayOfMonth => "On day-of-month "@,
        FieldKind::Month => "in month "@,
        FieldKind::DayOfWeek => "on "@,
    }
}

/// What opens a range clause.
pub open spec fn every_prefix(k: FieldKind) -> Seq<char> {
    match k {
        FieldKind::Minute => "At every"@,
        FieldKind::Hour => "past every"@,
        FieldKind::DayOfMonth => "on every"@,
        FieldKind::Month => "in every"@,
        FieldKind::DayOfWeek => "on every"@,
    }
}

/// The field's unit.
pub open spec fn unit(k: FieldKind) -> Seq<char> {
    match k {
        FieldKind::Minute => "minute"@,
        FieldKind::Hour => "hour"@,
        FieldKind::DayOfMonth => "day-of-month"@,
        FieldKind::Month => "month"@,
        FieldKind::DayOfWeek => "day-of-week"@,
    }
}

/// The phrase for one clause of a field of kind `k`.
pub open spec fn fragment(k: FieldKind, f: ClauseFields) -> Seq<char> {
    match f.val {
        Some(v) => if v == star() {
            any_text(k)
        } else {
            single_prefix(k) + v
        },
        None => {
            let every = match f.step {
                Some(st) => every_prefix(k) + " "@ + st,
                None => every_prefix(k),
            };
            let span = match f.range_start {
                Some(a) => " from "@ + a + " through "@ + or_empty(f.range_end),
                None => Seq::empty(),
            };
            every + " "@ + unit(k) + span
        },
    }
}

fn single_prefix_str(k: FieldKind) -> (r: &'static str)
    ensures
        r@ == single_prefix(k),
{
    match k {
        FieldKind::Minute => "At minute ",
        FieldKind::Hour => "past hour ",
        FieldKind::DayOfMonth => "On day-of-month ",
        FieldKind::Month => "in month ",
        FieldKind::DayOfWeek => "on ",
    }
}

fn every_prefix_str(k: FieldKind) -> (r: &'static str)
    ensures
        r@ == every_prefix(k),
{
    match k {
        FieldKind::Minute => "At every",
        FieldKind::Hour => "past every",
        FieldKind::DayOfMonth => "on every",
        FieldKind::Month => "in every",
        FieldKind::DayOfWeek => "on every",
    }
}

fn unit_str(k: FieldKind) -> (r: &'static str)
    ensures
        r@ == unit(k),
{
    match k {
        FieldKind::Minute => "minute",
        FieldKind::Hour => "hour",
        FieldKind::DayOfMonth => "day-of-month",
        FieldKind::Month => "month",
        FieldKind::DayOfWeek => "day-of-week",
    }
}

fn push_opt(out: &mut Vec<char>, o: &Option<String>)
    ensures
        final(out)@ == old(out)@ + or_empty(opt_view(*o)),
{
    if let Some(s) = o {
        push_str(out, s.as_str());
    } else {
        assert(old(out)@ + Seq::<char>::empty() =~= old(out)@);
    }
}

/// The phrase for clause `c` of a field of kind `k`, as characters.
pub fn describe_fields<T>(k: FieldKind, c: &Common<T>) -> (r: Vec<char>)
    ensures
        r@ == fragment(k, c@),
{
    let mut out: Vec<char> = Vec::new();
    match &c.val {
        Some(v) => {
            let vc = chars_of(v.as_str());
            if is_star(vc.as_slice()) {
                if k == FieldKind::Minute {
                    push_str(&mut out, "At every minute");
                }
                assert(out@ =~= any_text(k));
            } else {
                push_str(&mut out, single_prefix_str(k));
                push_str(&mut out, v.as_str());
            }
        },
        None => {
            push_str(&mut out, every_prefix_str(k));
            if let Some(st) = &c.step {
                push_str(&mut out, " ");
                push_str(&mut out, st.as_str());
            }
            push_str(&mut out, " ");
            push_str(&mut out, unit_str(k));
            if let Some(a) = &c.range_start {
                push_str(&mut out, " from ");
                push_str(&mut out, a.as_str());
                push_str(&mut out, " through ");
                push_opt(&mut out, &c.range_end);
            }
            assert(out@ =~= fragment(k, c@));
        },
    }
    out
}

} // verus!
