//! A remailer as the directory describes it, and the numbers that the directory gives for it.

use vstd::prelude::*;

use crate::text::{chars_of, copy_blobs, copy_strings, split_fields};

verus! {

/// A remailer: who it is, what it can do and how it fares.
#[derive(Debug)]
pub struct Remailer {
    /// The name under which the directory lists the remailer.
    pub name: String,
    /// The address that mail for the remailer goes to, which is also the name of its key.
    pub email_address: String,
    /// The capabilities that the remailer announces.
    pub options: Vec<String>,
    /// How long the remailer keeps a message, in seconds.
    pub latency: u64,
    /// The keys known for the remailer, each as its bytes.
    pub keys: Vec<Vec<u8>>,
    /// The share of messages that the remailer delivers, in hundredths of a percent.
    pub uptime: u32,
}

/// A remailer as the contracts see it.
pub struct RemailerView {
    pub name: Seq<char>,
    pub email_address: Seq<char>,
    pub options: Seq<Seq<char>>,
    pub latency: u64,
    pub keys: Seq<Seq<u8>>,
    pub uptime: u32,
}

impl View for Remailer {
    type V = RemailerView;

    open spec fn view(&self) -> RemailerView {
        RemailerView {
            name: self.name@,
            email_address: self.email_address@,
            options: self.options.deep_view(),
            latency: self.latency,
            keys: self.keys.deep_view(),
            uptime: self.uptime,
        }
    }
}

/// The remailer that a first listing with these fields makes: no keys, no latency, no uptime.
pub open spec fn listed(name: Seq<char>, email_address: Seq<char>, options: Seq<Seq<char>>) -> RemailerView {
    RemailerView {
        name,
        email_address,
        options,
        latency: 0,
        keys: Seq::empty(),
        uptime: 0,
    }
}

impl Default for Remailer {
    fn default() -> (remailer: Self)
        ensures
            remailer@ == listed(Seq::empty(), Seq::empty(), Seq::empty()),
    {
        let remailer = Remailer {
            name: String::new(),
            email_address: String::new(),
            options: Vec::new(),
            latency: 0,
            keys: Vec::new(),
            uptime: 0,
        };
        assert(remailer.options.deep_view() =~= Seq::empty());
        assert(remailer.keys.deep_view() =~= Seq::empty());
        remailer
    }
}

impl Clone for Remailer {
    fn clone(&self) -> (copy: Self)
        ensures
            copy@ == self@,
    {
        Remailer {
            name: self.name.clone(),
            email_address: self.email_address.clone(),
            options: copy_strings(&self.options),
            latency: self.latency,
            keys: copy_blobs(&self.keys),
            uptime: self.uptime,
        }
    }
}

impl Remailer {
    /// A remailer as its listing describes it, without keys, latency or uptime.
    pub fn new(name: String, email_address: String, options: Vec<String>) -> (remailer: Self)
        ensures
            remailer@ == listed(name@, email_address@, options.deep_view()),
    {
        let remailer = Remailer {
            name,
            email_address,
            options,
            latency: 0,
            keys: Vec::new(),
            uptime: 0,
        };
        assert(remailer.keys.deep_view() =~= Seq::empty());
        remailer
    }

    /// The text that stands for the remailer where it is shown: its name.
    pub fn display(&self) -> (text: String)
        ensures
            text@ == self@.name,
    {
        self.name.clone()
    }

    pub fn get_name(&self) -> (name: &String)
        ensures
            name@ == self@.name,
    {
        &self.name
    }

    pub fn get_email(&self) -> (email: &String)
        ensures
            email@ == self@.email_address,
    {
        &self.email_address
    }

    pub fn get_options(&self) -> (options: &Vec<String>)
        ensures
            options.deep_view() == self@.options,
    {
        &self.options
    }

    pub fn get_keys(&self) -> (keys: &Vec<Vec<u8>>)
        ensures
            keys.deep_view() == self@.keys,
    {
        &self.keys
    }

    /// The latency in seconds.
    pub fn get_latency(&self) -> (latency: u64)
        ensures
            latency == self@.latency,
    {
        self.latency
    }

    /// The uptime in hundredths of a percent.
    pub fn get_uptime(&self) -> (uptime: u32)
        ensures
            uptime == self@.uptime,
    {
        self.uptime
    }

    pub fn set_options(&mut self, options: Vec<String>)
        ensures
            final(self)@ == (RemailerView { options: options.deep_view(), ..old(self)@ }),
    {
        self.options = options;
    }

    pub fn set_keys(&mut self, keys: Vec<Vec<u8>>)
        ensures
            final(self)@ == (RemailerView { keys: keys.deep_view(), ..old(self)@ }),
    {
        self.keys = keys;
    }

    pub fn add_key(&mut self, key: Vec<u8>)
        ensures
            final(self)@ == (RemailerView { keys: old(self)@.keys.push(key@), ..old(self)@ }),
    {
        let ghost before = self.keys.deep_view();
        self.keys.push(key);
        assert(self.keys.deep_view() =~~= before.push(key@));
    }

    /// Sets the latency, in seconds.
    pub fn set_latency(&mut self, seconds: u64)
        ensures
            final(self)@ == (RemailerView { latency: seconds, ..old(self)@ }),
    {
        self.latency = seconds;
    }

    /// Sets the latency from a token `[[h:]m:]ss` of the directory. Any other text, and any
    /// latency beyond what a `u64` holds in seconds, sets it to zero.
    pub fn set_latency_from(&mut self, latency: String)
        ensures
            final(self)@ == (RemailerView {
                latency: latency_value(latency@) as u64,
                ..old(self)@
            }),
    {
        let seconds = parse_latency(latency.as_str());
        self.set_latency(seconds);
    }

    /// Sets the uptime, in hundredths of a percent.
    pub fn set_uptime(&mut self, uptime: u32)
        ensures
            final(self)@ == (RemailerView { uptime, ..old(self)@ }),
    {
        self.uptime = uptime;
    }
}

/// Whether `c` is one of `0` to `9`.
pub open spec fn is_digit(c: char) -> bool {
    '0' <= c && c <= '9'
}

/// The value of a digit, and 0 for any other character.
pub open spec fn digit_value(c: char) -> nat {
    if is_digit(c) {
        (c as int - '0' as int) as nat
    } else {
        0
    }
}

/// Whether `text` is one digit or more, and nothing else.
pub open spec fn is_number(text: Seq<char>) -> bool {
    &&& text.len() > 0
    &&& forall|i: int| 0 <= i < text.len() ==> is_digit(#[trigger] text[i])
}

/// The value of `text` read in base ten.
pub open spec fn number(text: Seq<char>) -> nat
    decreases text.len(),
{
    if text.len() == 0 {
        0
    } else {
        number(text.drop_last()) * 10 + digit_value(text.last())
    }
}

/// The hours of a latency: any number.
pub open spec fn is_hours(field: Seq<char>) -> bool {
    is_number(field)
}

/// The minutes of a latency: one or two digits, below 60.
pub open spec fn is_minutes(field: Seq<char>) -> bool {
    is_number(field) && field.len() <= 2 && number(field) < 60
}

/// The seconds of a latency: two digits, below 60.
pub open spec fn is_seconds(field: Seq<char>) -> bool {
    is_number(field) && field.len() == 2 && number(field) < 60
}

/// The seconds that a latency token `[[h:]m:]ss` stands for: hours if any, minutes and seconds,
/// with colons between them. `None` for any other text.
pub open spec fn latency_of(token: Seq<char>) -> Option<nat> {
    let fields = crate::text::split(token, seq![':']);
    if fields.len() == 2 && is_minutes(fields[0]) && is_seconds(fields[1]) {
        Some(number(fields[0]) * 60 + number(fields[1]))
    } else if fields.len() == 3 && is_hours(fields[0]) && is_minutes(fields[1]) && is_seconds(
        fields[2],
    ) {
        Some(number(fields[0]) * 3600 + number(fields[1]) * 60 + number(fields[2]))
    } else {
        None
    }
}

/// The latency that is kept for a token: its seconds, and zero for a token that is no latency
/// or stands for more seconds than a `u64` holds.
pub open spec fn latency_value(token: Seq<char>) -> nat {
    match latency_of(token) {
        Some(seconds) => if seconds <= u64::MAX {
            seconds
        } else {
            0
        },
        None => 0,
    }
}

/// The first two digits behind the decimal point, as hundredths.
pub open spec fn hundredths(fraction: Seq<char>) -> nat {
    if fraction.len() == 0 {
        0
    } else if fraction.len() == 1 {
        digit_value(fraction[0]) * 10
    } else {
        digit_value(fraction[0]) * 10 + digit_value(fraction[1])
    }
}

/// The hundredths of a percent that an uptime token stands for: a number, or a number, a point
/// and a number. What lies behind the second decimal is dropped. `None` for any other text.
pub open spec fn uptime_of(token: Seq<char>) -> Option<nat> {
    let fields = crate::text::split(token, seq!['.']);
    if fields.len() == 1 && is_number(fields[0]) {
        Some(number(fields[0]) * 100)
    } else if fields.len() == 2 && is_number(fields[0]) && is_number(fields[1]) {
        Some(number(fields[0]) * 100 + hundredths(fields[1]))
    } else {
        None
    }
}

/// The uptime that is kept for a token, in hundredths of a percent: what it stands for, and
/// zero for a token that is no number or stands for more than 100 percent.
pub open spec fn uptime_value(token: Seq<char>) -> nat {
    match uptime_of(token) {
        Some(value) => if value <= 10000 {
            value
        } else {
            0
        },
        None => 0,
    }
}

/// A number is at least what any of its first digits stand for.
pub proof fn lemma_number_grows(text: Seq<char>, count: int)
    requires
        0 <= count <= text.len(),
    ensures
        number(text.take(count)) <= number(text),
    decreases text.len(),
{
    if count == text.len() {
        assert(text.take(count) =~= text);
    } else {
        assert(text.drop_last().take(count) =~= text.take(count));
        lemma_number_grows(text.drop_last(), count);
    }
}

/// The value of a digit.
pub fn digit_of(c: char) -> (value: Option<u8>)
    ensures
        value == if is_digit(c) {
            Some(digit_value(c) as u8)
        } else {
            None
        },
{
    if '0' <= c && c <= '9' {
        Some((c as u32 - '0' as u32) as u8)
    } else {
        None
    }
}

/// Whether `field` is one digit or more, and nothing else.
pub fn holds_number(field: &Vec<char>) -> (holds: bool)
    ensures
        holds == is_number(field@),
{
    if field.len() == 0 {
        return false;
    }
    let mut i: usize = 0;
    while i < field.len()
        invariant
            i <= field.len(),
            forall|j: int| 0 <= j < i ==> is_digit(#[trigger] field@[j]),
        decreases field.len() - i,
    {
        if digit_of(field[i]).is_none() {
            return false;
        }
        i += 1;
    }
    true
}

/// The value of `field` read in base ten, where it is a number that a `u64` holds.
pub fn parse_number(field: &Vec<char>) -> (value: Option<u64>)
    ensures
        value == if is_number(field@) && number(field@) <= u64::MAX {
            Some(number(field@) as u64)
        } else {
            None::<u64>
        },
{
    if field.len() == 0 {
        return None;
    }
    let mut total: u64 = 0;
    let mut i: usize = 0;
    while i < field.len()
        invariant
            i <= field.len(),
            total == number(field@.take(i as int)),
            forall|j: int| 0 <= j < i ==> is_digit(#[trigger] field@[j]),
        decreases field.len() - i,
    {
        proof {
            assert(field@.take(i + 1).drop_last() =~= field@.take(i as int));
            assert(field@.take(i + 1).last() == field@[i as int]);
        }
        match digit_of(field[i]) {
            None => {
                return None;
            },
            Some(digit) => {
                if total > (u64::MAX - digit as u64) / 10 {
                    proof {
                        lemma_number_grows(field@, i + 1);
                    }
                    return None;
                }
                total = total * 10 + digit as u64;
            },
        }
        i += 1;
    }
    assert(field@.take(i as int) =~= field@);
    Some(total)
}

/// The seconds of a latency token, and zero where it is none.
pub fn parse_latency(token: &str) -> (seconds: u64)
    ensures
        seconds == latency_value(token@),
{
    let chars = chars_of(token);
    let mut colon: Vec<char> = Vec::new();
    colon.push(':');
    assert(colon@ =~= seq![':']);
    let fields = split_fields(&chars, &colon);
    let count = fields.len();
    if count != 2 && count != 3 {
        return 0;
    }
    let ghost parts = crate::text::split(token@, seq![':']);
    assert(forall|k: int| 0 <= k < count ==> #[trigger] parts[k] =~= fields[k]@);
    let hours: u64 = if count == 3 {
        match parse_number(&fields[0]) {
            Some(h) => h,
            None => {
                return 0;
            },
        }
    } else {
        0
    };
    let minutes_field = &fields[count - 2];
    let seconds_field = &fields[count - 1];
    if minutes_field.len() > 2 || seconds_field.len() != 2 {
        return 0;
    }
    let minutes: u64 = match parse_number(minutes_field) {
        Some(m) => m,
        None => {
            return 0;
        },
    };
    let seconds: u64 = match parse_number(seconds_field) {
        Some(s) => s,
        None => {
            return 0;
        },
    };
    if minutes >= 60 || seconds >= 60 {
        return 0;
    }
    match hours.checked_mul(3600) {
        None => 0,
        Some(in_hours) => match in_hours.checked_add(minutes * 60 + seconds) {
            None => 0,
            Some(total) => total,
        },
    }
}

/// The hundredths of a percent of an uptime token, and zero where it is none.
pub fn parse_uptime(token: &str) -> (value: u32)
    ensures
        value == uptime_value(token@),
        value <= 10000,
{
    let chars = chars_of(token);
    let mut point: Vec<char> = Vec::new();
    point.push('.');
    assert(point@ =~= seq!['.']);
    let fields = split_fields(&chars, &point);
    let count = fields.len();
    if count != 1 && count != 2 {
        return 0;
    }
    let ghost parts = crate::text::split(token@, seq!['.']);
    assert(forall|k: int| 0 <= k < count ==> #[trigger] parts[k] =~= fields[k]@);
    let whole: u64 = match parse_number(&fields[0]) {
        Some(w) => w,
        None => {
            proof {
                if is_number(fields[0]@) {
                    assert(number(parts[0]) * 100 > 10000);
                }
            }
            return 0;
        },
    };
    if whole > 100 {
        return 0;
    }
    let mut value: u32 = (whole as u32) * 100;
    if count == 2 {
        let fraction = &fields[1];
        if !holds_number(fraction) {
            return 0;
        }
        let first = digit_of(fraction[0]).unwrap();
        let second = if fraction.len() > 1 {
            digit_of(fraction[1]).unwrap()
        } else {
            0
        };
        value = value + (first as u32) * 10 + second as u32;
    }
    if value > 10000 {
        return 0;
    }
    value
}

} // verus!
