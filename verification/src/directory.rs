//! Reading the directory of remailers.
//!
//! The directory is a text of lines. Three kinds of line matter, and a line of any other kind
//! is passed over:
//!
//! * a listing, `$remailer{"NAME"} = "<EMAIL> OPTION OPTION ...";`
//! * a time stamp, `Last update: DATE`
//! * statistics, `NAME EMAIL HISTORY ... LATENCY UPTIME%`, five words or more
//!
//! A latency or an uptime that cannot be read counts as zero and the rest of its line stands.

use vstd::prelude::*;

use crate::remailer::{parse_latency, parse_uptime};
use crate::text::{chars_of, find, matches_at, split_fields, split_words, string_of, strings_of};
use crate::utils::IMatch;

verus! {

/// One line of the directory that says something.
#[derive(Debug, PartialEq, Eq)]
pub enum Record {
    /// The listing of a remailer.
    Identity { name: String, email: String, options: Vec<String> },
    /// The time at which the directory was last brought up to date.
    Freshness { date: String },
    /// The statistics of a remailer: latency in seconds, uptime in hundredths of a percent.
    Stats { name: String, email: String, latency: u64, uptime: u32 },
}

/// A record as the contracts see it.
pub enum RecordView {
    Identity { name: Seq<char>, email: Seq<char>, options: Seq<Seq<char>> },
    Freshness { date: Seq<char> },
    Stats { name: Seq<char>, email: Seq<char>, latency: u64, uptime: u32 },
}

impl View for Record {
    type V = RecordView;

    open spec fn view(&self) -> RecordView {
        match *self {
            Record::Identity { name, email, options } => RecordView::Identity {
                name: name@,
                email: email@,
                options: options.deep_view(),
            },
            Record::Freshness { date } => RecordView::Freshness { date: date@ },
            Record::Stats { name, email, latency, uptime } => RecordView::Stats {
                name: name@,
                email: email@,
                latency,
                uptime,
            },
        }
    }
}

/// The records of a list as the contracts see them.
pub open spec fn records_view(records: Seq<Record>) -> Seq<RecordView> {
    Seq::new(records.len(), |i: int| records[i]@)
}

/// The name, the address and the text of the options of a listing
/// `$remailer{"NAME"} = "<EMAIL>OPTIONS";`. The name runs to the next `"` and the address to
/// the next `>`, and neither is empty.
pub open spec fn listing_fields(line: Seq<char>) -> Option<(Seq<char>, Seq<char>, Seq<char>)> {
    let open = "$remailer{\""@;
    let middle = "\"} = \"<"@;
    let close = "\";"@;
    if !crate::text::occurs_at(line, open, 0) {
        None
    } else {
        match crate::text::find_from(line, "\""@, open.len() as int) {
            None => None,
            Some(quote) => {
                let from = quote + middle.len();
                if quote == open.len() || !crate::text::occurs_at(line, middle, quote) {
                    None
                } else {
                    match crate::text::find_from(line, ">"@, from) {
                        None => None,
                        Some(end) => if end == from || line.len() < end + 1 + close.len()
                            || !crate::text::occurs_at(line, close, line.len() - close.len()) {
                            None
                        } else {
                            Some(
                                (
                                    line.subrange(open.len() as int, quote),
                                    line.subrange(from, end),
                                    line.subrange(end + 1, line.len() - close.len()),
                                ),
                            )
                        },
                    }
                }
            },
        }
    }
}

/// The date of a time stamp `Last update: DATE`.
pub open spec fn stamp_date(line: Seq<char>) -> Option<Seq<char>> {
    let open = "Last update: "@;
    if crate::text::occurs_at(line, open, 0) {
        Some(line.subrange(open.len() as int, line.len() as int))
    } else {
        None
    }
}

/// The name, the address, the latency and the uptime of a line of statistics: its first two
/// words and its last two, where it has five words or more and the last ends in `%`. The
/// uptime comes without the `%`.
pub open spec fn statistics_fields(line: Seq<char>) -> Option<
    (Seq<char>, Seq<char>, Seq<char>, Seq<char>),
> {
    let words = crate::text::words(line);
    if words.len() >= 5 && words.last().len() > 0 && words.last().last() == '%' {
        Some((words[0], words[1], words[words.len() - 2], words.last().drop_last()))
    } else {
        None
    }
}

/// The captures that a line gives: those of the first alternative that it matches, a listing
/// before a time stamp before statistics, and none where it matches no alternative.
pub open spec fn captures(line: Seq<char>) -> crate::utils::IMatchView {
    if let Some((name, email, options)) = listing_fields(line) {
        crate::utils::IMatchView {
            name: Some(name),
            email: Some(email),
            options: Some(options),
            ..crate::utils::no_match()
        }
    } else if let Some(date) = stamp_date(line) {
        crate::utils::IMatchView { date: Some(date), ..crate::utils::no_match() }
    } else if let Some((name, email, latency, uptime)) = statistics_fields(line) {
        crate::utils::IMatchView {
            name2: Some(name),
            email2: Some(email),
            latency: Some(latency),
            uptime: Some(uptime),
            ..crate::utils::no_match()
        }
    } else {
        crate::utils::no_match()
    }
}

/// The record that captures stand for, if any: a listing where name, address and options were
/// captured, else a time stamp where a date was, else statistics where all four of theirs were.
pub open spec fn record_of(found: crate::utils::IMatchView) -> Option<RecordView> {
    if found.name is Some && found.email is Some && found.options is Some {
        Some(
            RecordView::Identity {
                name: found.name->0,
                email: found.email->0,
                options: crate::text::words(found.options->0),
            },
        )
    } else if found.date is Some {
        Some(RecordView::Freshness { date: found.date->0 })
    } else if found.name2 is Some && found.email2 is Some && found.latency is Some
        && found.uptime is Some {
        Some(
            RecordView::Stats {
                name: found.name2->0,
                email: found.email2->0,
                latency: crate::remailer::latency_value(found.latency->0) as u64,
                uptime: crate::remailer::uptime_value(found.uptime->0) as u32,
            },
        )
    } else {
        None
    }
}

/// A line without the carriage return that may end it.
pub open spec fn trimmed(line: Seq<char>) -> Seq<char> {
    if line.len() > 0 && line.last() == '\r' {
        line.drop_last()
    } else {
        line
    }
}

/// The records of some lines, in order.
pub open spec fn records_in(lines: Seq<Seq<char>>) -> Seq<RecordView>
    decreases lines.len(),
{
    if lines.len() == 0 {
        Seq::empty()
    } else {
        let before = records_in(lines.drop_last());
        match record_of(captures(trimmed(lines.last()))) {
            Some(record) => before.push(record),
            None => before,
        }
    }
}

/// The records of a directory, in the order of its lines.
pub open spec fn directory_records(text: Seq<char>) -> Seq<RecordView> {
    records_in(crate::text::split(text, seq!['\n']))
}

fn match_listing(line: &Vec<char>) -> (fields: Option<(String, String, String)>)
    ensures
        match listing_fields(line@) {
            Some((name, email, options)) => fields matches Some((n, e, o)) && n@ == name && e@
                == email && o@ == options,
            None => fields is None,
        },
{
    let open = chars_of("$remailer{\"");
    let middle = chars_of("\"} = \"<");
    let close = chars_of("\";");
    let quote_mark = chars_of("\"");
    let bracket = chars_of(">");
    let total = line.len();
    if !matches_at(line, &open, 0) {
        return None;
    }
    let quote = match find(line, &quote_mark, open.len()) {
        None => {
            return None;
        },
        Some(quote) => quote,
    };
    proof {
        crate::text::lemma_find_from(line@, quote_mark@, open.len() as int);
    }
    if quote == open.len() || !matches_at(line, &middle, quote) {
        return None;
    }
    let from = quote + middle.len();
    let end = match find(line, &bracket, from) {
        None => {
            return None;
        },
        Some(end) => end,
    };
    proof {
        crate::text::lemma_find_from(line@, bracket@, from as int);
        reveal_strlit(">");
    }
    if end == from || total - (end + 1) < close.len() || !matches_at(
        line,
        &close,
        total - close.len(),
    ) {
        return None;
    }
    Some(
        (
            string_of(line, open.len(), quote),
            string_of(line, from, end),
            string_of(line, end + 1, total - close.len()),
        ),
    )
}

fn match_stamp(line: &Vec<char>) -> (date: Option<String>)
    ensures
        match stamp_date(line@) {
            Some(text) => date matches Some(d) && d@ == text,
            None => date is None,
        },
{
    let open = chars_of("Last update: ");
    if matches_at(line, &open, 0) {
        Some(string_of(line, open.len(), line.len()))
    } else {
        None
    }
}

fn match_statistics(line: &Vec<char>) -> (fields: Option<(String, String, String, String)>)
    ensures
        match statistics_fields(line@) {
            Some((name, email, latency, uptime)) => fields matches Some((n, e, l, u)) && n@ == name
                && e@ == email && l@ == latency && u@ == uptime,
            None => fields is None,
        },
{
    let words = split_words(line);
    let count = words.len();
    if count < 5 {
        return None;
    }
    let ghost found = crate::text::words(line@);
    assert(forall|k: int| 0 <= k < count ==> #[trigger] found[k] =~= words[k]@);
    let last = &words[count - 1];
    if last.len() == 0 || last[last.len() - 1] != '%' {
        assert(found.last() =~= last@);
        return None;
    }
    assert(found.last() =~= last@);
    Some(
        (
            string_of(&words[0], 0, words[0].len()),
            string_of(&words[1], 0, words[1].len()),
            string_of(&words[count - 2], 0, words[count - 2].len()),
            string_of(last, 0, last.len() - 1),
        ),
    )
}

/// The captures that a line gives.
pub fn match_line(line: &Vec<char>) -> (found: IMatch)
    ensures
        found@ == captures(line@),
{
    if let Some((name, email, options)) = match_listing(line) {
        return IMatch {
            name: Some(name),
            email: Some(email),
            options: Some(options),
            date: None,
            name2: None,
            email2: None,
            latency: None,
            uptime: None,
        };
    }
    if let Some(date) = match_stamp(line) {
        return IMatch {
            name: None,
            email: None,
            options: None,
            date: Some(date),
            name2: None,
            email2: None,
            latency: None,
            uptime: None,
        };
    }
    if let Some((name, email, latency, uptime)) = match_statistics(line) {
        return IMatch {
            name: None,
            email: None,
            options: None,
            date: None,
            name2: Some(name),
            email2: Some(email),
            latency: Some(latency),
            uptime: Some(uptime),
        };
    }
    IMatch::default()
}

/// The record that captures stand for, if any.
pub fn to_record(found: IMatch) -> (record: Option<Record>)
    ensures
        match record_of(found@) {
            Some(view) => record matches Some(r) && r@ == view,
            None => record is None,
        },
{
    let IMatch { name, email, options, date, name2, email2, latency, uptime } = found;
    if name.is_some() && email.is_some() && options.is_some() {
        let text = chars_of(options.unwrap().as_str());
        let words = split_words(&text);
        return Some(
            Record::Identity {
                name: name.unwrap(),
                email: email.unwrap(),
                options: strings_of(&words),
            },
        );
    }
    if date.is_some() {
        return Some(Record::Freshness { date: date.unwrap() });
    }
    if name2.is_some() && email2.is_some() && latency.is_some() && uptime.is_some() {
        return Some(
            Record::Stats {
                name: name2.unwrap(),
                email: email2.unwrap(),
                latency: parse_latency(latency.unwrap().as_str()),
                uptime: parse_uptime(uptime.unwrap().as_str()),
            },
        );
    }
    None
}

/// The record of one line of the directory, if it has one. A carriage return at the end of
/// the line is passed over.
pub fn parse_line(line: &Vec<char>) -> (record: Option<Record>)
    ensures
        match record_of(captures(trimmed(line@))) {
            Some(view) => record matches Some(r) && r@ == view,
            None => record is None,
        },
{
    let length = line.len();
    if length > 0 && line[length - 1] == '\r' {
        let mut cut: Vec<char> = Vec::new();
        let mut k: usize = 0;
        while k < length - 1
            invariant
                k <= length - 1,
                length == line.len(),
                cut@ == line@.take(k as int),
            decreases length - 1 - k,
        {
            cut.push(line[k]);
            assert(line@.take(k + 1) =~= line@.take(k as int).push(line@[k as int]));
            k += 1;
        }
        assert(cut@ =~= trimmed(line@));
        to_record(match_line(&cut))
    } else {
        to_record(match_line(line))
    }
}

/// The records of a directory, in the order of its lines.
pub fn parse_directory(text: &str) -> (records: Vec<Record>)
    ensures
        records_view(records@) == directory_records(text@),
{
    let chars = chars_of(text);
    let mut breaks: Vec<char> = Vec::new();
    breaks.push('\n');
    assert(breaks@ =~= seq!['\n']);
    let lines = split_fields(&chars, &breaks);
    let ghost all = lines.deep_view();
    let mut records: Vec<Record> = Vec::new();
    let mut i: usize = 0;
    while i < lines.len()
        invariant
            i <= lines.len(),
            lines.deep_view() == all,
            records_view(records@) == records_in(all.take(i as int)),
        decreases lines.len() - i,
    {
        let ghost before = records_view(records@);
        proof {
            assert(all.take(i + 1).drop_last() =~= all.take(i as int));
            assert(all.take(i + 1).last() =~= lines[i as int]@);
        }
        match parse_line(&lines[i]) {
            Some(record) => {
                records.push(record);
                assert(records_view(records@) =~= before.push(record@));
            },
            None => {},
        }
        i += 1;
    }
    assert(all.take(i as int) =~= all);
    records
}

} // verus!
