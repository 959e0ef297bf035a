//! Recurrence rules of tasks.

use vstd::prelude::*;

use crate::config::settings::texts_view;
use crate::text::{chars_of, concat, lowercase, lowercase_text, same_text, string_of, trim, trimmed};

verus! {

/// A day of the week.
#[derive(Debug, Clone, Copy, PartialEq, Eq, Structural)]
pub enum DayOfWeek {
    Monday,
    Tuesday,
    Wednesday,
    Thursday,
    Friday,
    Saturday,
    Sunday,
}

/// How a task repeats once it is done.
#[derive(Debug, Clone)]
pub enum Recurrence {
    Never,
    Daily,
    Weekly,
    Monthly,
    Yearly,
    DaysOfWeek(Vec<DayOfWeek>),
}

/// Mathematical model of a recurrence.
pub enum RecurrenceView {
    Never,
    Daily,
    Weekly,
    Monthly,
    Yearly,
    DaysOfWeek(Seq<DayOfWeek>),
}

impl View for Recurrence {
    type V = RecurrenceView;

    open spec fn view(&self) -> RecurrenceView {
        match self {
            Recurrence::Never => RecurrenceView::Never,
            Recurrence::Daily => RecurrenceView::Daily,
            Recurrence::Weekly => RecurrenceView::Weekly,
            Recurrence::Monthly => RecurrenceView::Monthly,
            Recurrence::Yearly => RecurrenceView::Yearly,
            Recurrence::DaysOfWeek(d) => RecurrenceView::DaysOfWeek(d@),
        }
    }
}

impl Recurrence {
    pub fn is_never(&self) -> (r: bool)
        ensures
            r == (self@ is Never),
    {
        match self {
            Recurrence::Never => true,
            _ => false,
        }
    }

    /// A copy of the recurrence, equal to it.
    pub fn duplicate(&self) -> (r: Recurrence)
        ensures
            r@ == self@,
    {
        match self {
            Recurrence::Never => Recurrence::Never,
            Recurrence::Daily => Recurrence::Daily,
            Recurrence::Weekly => Recurrence::Weekly,
            Recurrence::Monthly => Recurrence::Monthly,
            Recurrence::Yearly => Recurrence::Yearly,
            Recurrence::DaysOfWeek(days) => {
                let mut v: Vec<DayOfWeek> = Vec::new();
                let mut i: usize = 0;
                while i < days.len()
                    invariant
                        0 <= i <= days@.len(),
                        v@ =~= days@.subrange(0, i as int),
                    decreases days@.len() - i,
                {
                    v.push(days[i]);
                    i += 1;
                }
                assert(v@ =~= days@);
                Recurrence::DaysOfWeek(v)
            },
        }
    }
}


/// The day a (lowercased) short name names: `mon` … `sun`.
pub open spec fn day_from_text(t: Seq<char>) -> Option<DayOfWeek> {
    if t == "mon"@ {
        Some(DayOfWeek::Monday)
    } else if t == "tue"@ {
        Some(DayOfWeek::Tuesday)
    } else if t == "wed"@ {
        Some(DayOfWeek::Wednesday)
    } else if t == "thu"@ {
        Some(DayOfWeek::Thursday)
    } else if t == "fri"@ {
        Some(DayOfWeek::Friday)
    } else if t == "sat"@ {
        Some(DayOfWeek::Saturday)
    } else if t == "sun"@ {
        Some(DayOfWeek::Sunday)
    } else {
        None
    }
}

impl DayOfWeek {
    /// Parses a short day name (`mon`, `tue`, …), ignoring case.
    pub fn from_short(s: &str) -> (r: Option<DayOfWeek>)
        ensures
            r == day_from_text(lowercase_text(s@)),
    {
        let l = lowercase(s);
        let t = l.as_str();
        if same_text(t, "mon") {
            Some(DayOfWeek::Monday)
        } else if same_text(t, "tue") {
            Some(DayOfWeek::Tuesday)
        } else if same_text(t, "wed") {
            Some(DayOfWeek::Wednesday)
        } else if same_text(t, "thu") {
            Some(DayOfWeek::Thursday)
        } else if same_text(t, "fri") {
            Some(DayOfWeek::Friday)
        } else if same_text(t, "sat") {
            Some(DayOfWeek::Saturday)
        } else if same_text(t, "sun") {
            Some(DayOfWeek::Sunday)
        } else {
            None
        }
    }
}

/// The pieces of `t` between commas (what `str::split(',')` yields): at
/// least one piece.
pub open spec fn split_commas(t: Seq<char>) -> Seq<Seq<char>>
    decreases t.len(),
{
    if t.len() == 0 {
        seq![Seq::empty()]
    } else {
        let r = split_commas(t.drop_last());
        if t.last() == ',' {
            r.push(Seq::empty())
        } else {
            r.update(r.len() - 1, r.last().push(t.last()))
        }
    }
}

pub proof fn lemma_split_nonempty(t: Seq<char>)
    ensures
        split_commas(t).len() >= 1,
    decreases t.len(),
{
    if t.len() > 0 {
        lemma_split_nonempty(t.drop_last());
    }
}

/// Message of an unknown day name.
pub open spec fn invalid_day_text(d: Seq<char>) -> Seq<char> {
    "Invalid day: '"@ + d + "'"@
}

/// The days that comma-separated pieces name, each trimmed; the first piece
/// that names no day is reported.
pub open spec fn parse_days(pieces: Seq<Seq<char>>) -> Result<Seq<DayOfWeek>, Seq<char>>
    decreases pieces.len(),
{
    if pieces.len() == 0 {
        Ok(Seq::empty())
    } else {
        match parse_days(pieces.drop_last()) {
            Err(e) => Err(e),
            Ok(ds) => match day_from_text(lowercase_text(trimmed(pieces.last()))) {
                Some(d) => Ok(ds.push(d)),
                None => Err(invalid_day_text(trimmed(pieces.last()))),
            },
        }
    }
}

/// What a recurrence text means: `never`, `daily`, `weekly`, `monthly`,
/// `yearly`, or a comma-separated list of short day names; case is ignored.
pub open spec fn recurrence_from_text(s: Seq<char>) -> Result<RecurrenceView, Seq<char>> {
    let t = lowercase_text(s);
    if t == "never"@ {
        Ok(RecurrenceView::Never)
    } else if t == "daily"@ {
        Ok(RecurrenceView::Daily)
    } else if t == "weekly"@ {
        Ok(RecurrenceView::Weekly)
    } else if t == "monthly"@ {
        Ok(RecurrenceView::Monthly)
    } else if t == "yearly"@ {
        Ok(RecurrenceView::Yearly)
    } else {
        match parse_days(split_commas(t)) {
            Ok(d) => if d.len() == 0 {
                Err("Invalid recurrence: '"@ + s + "'"@)
            } else {
                Ok(RecurrenceView::DaysOfWeek(d))
            },
            Err(e) => Err(e),
        }
    }
}

/// Splits text at commas.
fn split_at_commas(s: &str) -> (r: Vec<String>)
    ensures
        texts_view(r@) == split_commas(s@),
{
    let v = chars_of(s);
    let mut done: Vec<String> = Vec::new();
    let mut cur: Vec<char> = Vec::new();
    let mut i: usize = 0;
    while i < v.len()
        invariant
            v@ == s@,
            0 <= i <= v@.len(),
            texts_view(done@).push(cur@) == split_commas(v@.take(i as int)),
        decreases v@.len() - i,
    {
        let c = v[i];
        let ghost before = texts_view(done@).push(cur@);
        assert(v@.take(i + 1).drop_last() =~= v@.take(i as int));
        assert(v@.take(i + 1).last() == c);
        proof {
            lemma_split_nonempty(v@.take(i as int));
        }
        if c == ',' {
            let piece = string_of(&cur);
            let ghost d0 = done@;
            done.push(piece);
            cur = Vec::new();
            assert(texts_view(done@) =~= texts_view(d0).push(piece@));
            assert(texts_view(done@).push(cur@) =~= before.push(Seq::empty()));
        } else {
            cur.push(c);
            assert(texts_view(done@).push(cur@) =~= before.update(
                before.len() - 1,
                before.last().push(c),
            ));
        }
        i += 1;
    }
    assert(v@.take(v@.len() as int) =~= v@);
    let last = string_of(&cur);
    let ghost d0 = done@;
    done.push(last);
    assert(texts_view(done@) =~= texts_view(d0).push(cur@));
    done
}

impl Recurrence {
    /// Parses a recurrence: `never`, `daily`, `weekly`, `monthly`, `yearly`,
    /// or comma-separated short day names such as `mon,wed,fri`; case is
    /// ignored.
    pub fn parse(s: &str) -> (r: Result<Recurrence, String>)
        ensures
            match recurrence_from_text(s@) {
                Ok(v) => r matches Ok(x) && x@ == v,
                Err(m) => r matches Err(e) && e@ == m,
            },
    {
        let lower = lowercase(s);
        let t = lower.as_str();
        if same_text(t, "never") {
            return Ok(Recurrence::Never);
        } else if same_text(t, "daily") {
            return Ok(Recurrence::Daily);
        } else if same_text(t, "weekly") {
            return Ok(Recurrence::Weekly);
        } else if same_text(t, "monthly") {
            return Ok(Recurrence::Monthly);
        } else if same_text(t, "yearly") {
            return Ok(Recurrence::Yearly);
        }
        let pieces = split_at_commas(t);
        let ghost pv = texts_view(pieces@);
        let mut days: Vec<DayOfWeek> = Vec::new();
        let mut i: usize = 0;
        while i < pieces.len()
            invariant
                pv == texts_view(pieces@),
                pv == split_commas(lowercase_text(s@)),
                lowercase_text(s@) != "never"@,
                lowercase_text(s@) != "daily"@,
                lowercase_text(s@) != "weekly"@,
                lowercase_text(s@) != "monthly"@,
                lowercase_text(s@) != "yearly"@,
                0 <= i <= pieces@.len(),
                parse_days(pv.take(i as int)) == Ok::<Seq<DayOfWeek>, Seq<char>>(days@),
            decreases pieces@.len() - i,
        {
            assert(pv.take(i + 1).drop_last() =~= pv.take(i as int));
            assert(pv.take(i + 1).last() == pieces@[i as int]@);
            let d = trim(pieces[i].as_str());
            match DayOfWeek::from_short(d.as_str()) {
                Some(day) => days.push(day),
                None => {
                    let a = concat("Invalid day: '", d.as_str());
                    let e = concat(a.as_str(), "'");
                    assert(parse_days(pv.take(i + 1)) == Err::<Seq<DayOfWeek>, Seq<char>>(
                        invalid_day_text(d@),
                    ));
                    proof {
                        lemma_parse_days_err(pv, i as int);
                    }
                    assert(e@ == invalid_day_text(d@));
                    return Err(e);
                },
            }
            i += 1;
        }
        assert(pv.take(pv.len() as int) =~= pv);
        if days.len() == 0 {
            let a = concat("Invalid recurrence: '", s);
            return Err(concat(a.as_str(), "'"));
        }
        Ok(Recurrence::DaysOfWeek(days))
    }
}

/// An error among the first pieces is the error of all pieces.
proof fn lemma_parse_days_err(p: Seq<Seq<char>>, i: int)
    requires
        0 <= i < p.len(),
        parse_days(p.take(i + 1)) is Err,
    ensures
        parse_days(p) == parse_days(p.take(i + 1)),
    decreases p.len(),
{
    if p.len() > i + 1 {
        assert(p.drop_last().take(i + 1) =~= p.take(i + 1));
        lemma_parse_days_err(p.drop_last(), i);
    } else {
        assert(p.take(i + 1) =~= p);
    }
}


/// The short name of a day: `mon` … `sun`.
pub open spec fn short_name(d: DayOfWeek) -> Seq<char> {
    match d {
        DayOfWeek::Monday => "mon"@,
        DayOfWeek::Tuesday => "tue"@,
        DayOfWeek::Wednesday => "wed"@,
        DayOfWeek::Thursday => "thu"@,
        DayOfWeek::Friday => "fri"@,
        DayOfWeek::Saturday => "sat"@,
        DayOfWeek::Sunday => "sun"@,
    }
}

/// The keyword of a recurrence that is not a list of days: its variant's
/// name in lower case.
pub open spec fn keyword_of(r: RecurrenceView) -> Option<Seq<char>> {
    match r {
        RecurrenceView::Never => Some("never"@),
        RecurrenceView::Daily => Some("daily"@),
        RecurrenceView::Weekly => Some("weekly"@),
        RecurrenceView::Monthly => Some("monthly"@),
        RecurrenceView::Yearly => Some("yearly"@),
        RecurrenceView::DaysOfWeek(_) => None,
    }
}

proof fn lemma_literals()
    ensures
        "never"@ == seq!['n', 'e', 'v', 'e', 'r'],
        "daily"@ == seq!['d', 'a', 'i', 'l', 'y'],
        "weekly"@ == seq!['w', 'e', 'e', 'k', 'l', 'y'],
        "monthly"@ == seq!['m', 'o', 'n', 't', 'h', 'l', 'y'],
        "yearly"@ == seq!['y', 'e', 'a', 'r', 'l', 'y'],
        "mon"@ == seq!['m', 'o', 'n'],
        "tue"@ == seq!['t', 'u', 'e'],
        "wed"@ == seq!['w', 'e', 'd'],
        "thu"@ == seq!['t', 'h', 'u'],
        "fri"@ == seq!['f', 'r', 'i'],
        "sat"@ == seq!['s', 'a', 't'],
        "sun"@ == seq!['s', 'u', 'n'],
{
    reveal_strlit("never");
    reveal_strlit("daily");
    reveal_strlit("weekly");
    reveal_strlit("monthly");
    reveal_strlit("yearly");
    reveal_strlit("mon");
    reveal_strlit("tue");
    reveal_strlit("wed");
    reveal_strlit("thu");
    reveal_strlit("fri");
    reveal_strlit("sat");
    reveal_strlit("sun");
}

/// A (lowercased) text names a day exactly when it is that day's short name.
pub proof fn law_day_names(t: Seq<char>, d: DayOfWeek)
    ensures
        day_from_text(t) == Some(d) <==> short_name(d) == t,
{
    lemma_literals();
    let names = seq!["mon"@, "tue"@, "wed"@, "thu"@, "fri"@, "sat"@, "sun"@];
    assert(names[0][0] != names[1][0] && names[0][0] != names[2][0] && names[0][0] != names[3][0]);
    assert(names[0][0] != names[4][0] && names[0][0] != names[5][0] && names[0][0] != names[6][0]);
    assert(names[1][1] != names[3][1] && names[1][0] != names[2][0] && names[1][0] != names[4][0]);
    assert(names[1][0] != names[5][0] && names[1][0] != names[6][0] && names[2][0] != names[3][0]);
    assert(names[2][0] != names[4][0] && names[2][0] != names[5][0] && names[2][0] != names[6][0]);
    assert(names[3][0] != names[4][0] && names[3][0] != names[5][0] && names[3][0] != names[6][0]);
    assert(names[4][0] != names[5][0] && names[4][0] != names[6][0] && names[5][1] != names[6][1]);
}

/// The piece names a day (ignoring case and surrounding whitespace).
pub open spec fn names_day(piece: Seq<char>) -> bool {
    day_from_text(lowercase_text(trimmed(piece))) is Some
}

/// Each piece of a list of days that parses gives the day whose short name
/// it is, in order; the list parses exactly when every piece names a day,
/// and otherwise the first piece that names none is reported.
proof fn lemma_parse_days_names(pieces: Seq<Seq<char>>)
    ensures
        parse_days(pieces) matches Ok(ds) ==> ds.len() == pieces.len() && forall|i: int|
            0 <= i < ds.len() ==> short_name(#[trigger] ds[i]) == lowercase_text(trimmed(pieces[i])),
        parse_days(pieces) is Ok <==> forall|i: int| 0 <= i < pieces.len() ==> names_day(#[trigger] pieces[i]),
        parse_days(pieces) matches Err(m) ==> exists|i: int|
            0 <= i < pieces.len() && !names_day(#[trigger] pieces[i]) && m == invalid_day_text(
                trimmed(pieces[i]),
            ) && forall|j: int| 0 <= j < i ==> names_day(#[trigger] pieces[j]),
    decreases pieces.len(),
{
    if pieces.len() > 0 {
        let p0 = pieces.drop_last();
        let n = pieces.len() - 1;
        lemma_parse_days_names(p0);
        assert forall|i: int| 0 <= i < p0.len() implies p0[i] == pieces[i] by {}
        let t = lowercase_text(trimmed(pieces.last()));
        if let Some(d) = day_from_text(t) {
            law_day_names(t, d);
        }
        match parse_days(p0) {
            Ok(_) => {
                if !names_day(pieces[n]) {
                    assert(!names_day(pieces[n]));
                }
            },
            Err(m) => {
                let i = choose|i: int|
                    0 <= i < p0.len() && !names_day(#[trigger] p0[i]) && m == invalid_day_text(
                        trimmed(p0[i]),
                    ) && forall|j: int| 0 <= j < i ==> names_day(#[trigger] p0[j]);
                assert(pieces[i] == p0[i]);
                assert(!names_day(pieces[i]));
            },
        }
    }
}

/// Parsing a recurrence reads its keyword, ignoring case: a text whose
/// lower case is a recurrence's keyword parses to that recurrence, a text
/// that parses to a recurrence other than a list of days is (in lower case)
/// its keyword, any other text parses exactly when each of its
/// comma-separated pieces names a day (else the first piece that names none
/// is reported), and a list of days gives, piece by piece, the day each
/// piece names.
pub proof fn law_recurrence_keywords(s: Seq<char>, r: RecurrenceView)
    ensures
        keyword_of(r) == Some(lowercase_text(s)) ==> recurrence_from_text(s) == Ok::<RecurrenceView, Seq<char>>(r),
        recurrence_from_text(s) == Ok::<RecurrenceView, Seq<char>>(r) && !(r is DaysOfWeek) ==> keyword_of(r)
            == Some(lowercase_text(s)),
        ({
            let t = lowercase_text(s);
            let pieces = split_commas(t);
            t != "never"@ && t != "daily"@ && t != "weekly"@ && t != "monthly"@ && t != "yearly"@ ==> (
            recurrence_from_text(s) is Ok <==> forall|i: int|
                0 <= i < pieces.len() ==> names_day(#[trigger] pieces[i]))
        }),
        recurrence_from_text(s) matches Err(m) ==> ({
            let pieces = split_commas(lowercase_text(s));
            exists|i: int|
                0 <= i < pieces.len() && !names_day(#[trigger] pieces[i]) && m == invalid_day_text(
                    trimmed(pieces[i]),
                ) && forall|j: int| 0 <= j < i ==> names_day(#[trigger] pieces[j])
        }),
        recurrence_from_text(s) == Ok::<RecurrenceView, Seq<char>>(r) && r is DaysOfWeek ==> ({
            let pieces = split_commas(lowercase_text(s));
            let days = r->DaysOfWeek_0;
            &&& days.len() == pieces.len()
            &&& forall|i: int|
                0 <= i < days.len() ==> short_name(#[trigger] days[i]) == lowercase_text(trimmed(pieces[i]))
        }),
{
    lemma_literals();
    let words = seq!["never"@, "daily"@, "weekly"@, "monthly"@, "yearly"@];
    assert(words[0][0] != words[1][0] && words[0][0] != words[2][0] && words[0][0] != words[3][0]);
    assert(words[0][0] != words[4][0] && words[1][0] != words[2][0] && words[1][0] != words[3][0]);
    assert(words[1][0] != words[4][0] && words[2][0] != words[3][0] && words[2][0] != words[4][0]);
    assert(words[3][0] != words[4][0]);
    lemma_split_nonempty(lowercase_text(s));
    lemma_parse_days_names(split_commas(lowercase_text(s)));
}

} // verus!
