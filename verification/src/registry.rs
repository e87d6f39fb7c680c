//! The registry of the remailers that the directory has told of.
//!
//! Every remailer is known by its name, and there is one entry for each name. An entry is made
//! when a name is first seen and filled in by the records that follow: a record changes the
//! fields that it carries and leaves the others as they are.

use vstd::prelude::*;

use crate::directory::{parse_directory, Record};
use crate::remailer::Remailer;
use crate::text::str_equal;

verus! {

/// The remailers that the directory has told of, in the order in which they were first seen.
pub struct RelayRegistry {
    relays: Vec<Remailer>,
}

/// The remailers of a list as the contracts see them.
pub open spec fn relays_view(relays: Seq<Remailer>) -> Seq<crate::remailer::RemailerView> {
    Seq::new(relays.len(), |i: int| relays[i]@)
}

/// Whether no two of the remailers have the same name.
pub open spec fn distinct_names(relays: Seq<crate::remailer::RemailerView>) -> bool {
    forall|i: int, j: int|
        0 <= i < j < relays.len() ==> (#[trigger] relays[i]).name != (#[trigger] relays[j]).name
}

/// The place of the first remailer with the name, if there is one.
pub open spec fn place_of(relays: Seq<crate::remailer::RemailerView>, name: Seq<char>) -> Option<
    int,
>
    decreases relays.len(),
{
    if relays.len() == 0 {
        None
    } else {
        match place_of(relays.drop_last(), name) {
            Some(place) => Some(place),
            None => if relays.last().name == name {
                Some(relays.len() - 1)
            } else {
                None
            },
        }
    }
}

/// The remailers after a record has been applied.
///
/// A listing makes an entry for a new name, and for a known name replaces the options alone.
/// Statistics make an entry for a new name, and for a known name replace latency and uptime
/// alone. A time stamp changes nothing.
pub open spec fn applied(
    relays: Seq<crate::remailer::RemailerView>,
    record: crate::directory::RecordView,
) -> Seq<crate::remailer::RemailerView> {
    match record {
        crate::directory::RecordView::Identity { name, email, options } => match place_of(
            relays,
            name,
        ) {
            Some(place) => relays.update(
                place,
                crate::remailer::RemailerView { options, ..relays[place] },
            ),
            None => relays.push(crate::remailer::listed(name, email, options)),
        },
        crate::directory::RecordView::Stats { name, email, latency, uptime } => match place_of(
            relays,
            name,
        ) {
            Some(place) => relays.update(
                place,
                crate::remailer::RemailerView { latency, uptime, ..relays[place] },
            ),
            None => relays.push(
                crate::remailer::RemailerView {
                    latency,
                    uptime,
                    ..crate::remailer::listed(name, email, Seq::empty())
                },
            ),
        },
        crate::directory::RecordView::Freshness { date } => relays,
    }
}

/// The remailers after some records have been applied in order.
pub open spec fn applied_all(
    relays: Seq<crate::remailer::RemailerView>,
    records: Seq<crate::directory::RecordView>,
) -> Seq<crate::remailer::RemailerView>
    decreases records.len(),
{
    if records.len() == 0 {
        relays
    } else {
        applied(applied_all(relays, records.drop_last()), records.last())
    }
}

/// The dates of the time stamps among some records, in order.
pub open spec fn stamps_of(records: Seq<crate::directory::RecordView>) -> Seq<Seq<char>>
    decreases records.len(),
{
    if records.len() == 0 {
        Seq::empty()
    } else {
        match records.last() {
            crate::directory::RecordView::Freshness { date } => stamps_of(
                records.drop_last(),
            ).push(date),
            _ => stamps_of(records.drop_last()),
        }
    }
}

/// `place_of` gives the first place of the name, and `None` only where no remailer has it.
pub proof fn lemma_place_of(relays: Seq<crate::remailer::RemailerView>, name: Seq<char>)
    ensures
        match place_of(relays, name) {
            Some(place) => {
                &&& 0 <= place < relays.len()
                &&& relays[place].name == name
                &&& forall|i: int| 0 <= i < place ==> (#[trigger] relays[i]).name != name
            },
            None => forall|i: int| 0 <= i < relays.len() ==> (#[trigger] relays[i]).name != name,
        },
    decreases relays.len(),
{
    if relays.len() > 0 {
        lemma_place_of(relays.drop_last(), name);
        assert(forall|i: int|
            0 <= i < relays.len() - 1 ==> relays.drop_last()[i] == (#[trigger] relays[i]));
    }
}

/// Applying a record keeps the names apart.
pub proof fn lemma_applied_keeps_names_distinct(
    relays: Seq<crate::remailer::RemailerView>,
    record: crate::directory::RecordView,
)
    requires
        distinct_names(relays),
    ensures
        distinct_names(applied(relays, record)),
{
    match record {
        crate::directory::RecordView::Identity { name, email, options } => {
            lemma_place_of(relays, name);
        },
        crate::directory::RecordView::Stats { name, email, latency, uptime } => {
            lemma_place_of(relays, name);
        },
        crate::directory::RecordView::Freshness { date } => {},
    }
}

/// No record takes a remailer away or gives it another name or address: every entry stays
/// where it is, under its name.
pub proof fn lemma_applied_keeps_entries(
    relays: Seq<crate::remailer::RemailerView>,
    record: crate::directory::RecordView,
)
    ensures
        applied(relays, record).len() >= relays.len(),
        forall|i: int|
            0 <= i < relays.len() ==> (#[trigger] applied(relays, record)[i]).name
                == relays[i].name && applied(relays, record)[i].email_address
                == relays[i].email_address && applied(relays, record)[i].keys == relays[i].keys,
{
    match record {
        crate::directory::RecordView::Identity { name, email, options } => {
            lemma_place_of(relays, name);
        },
        crate::directory::RecordView::Stats { name, email, latency, uptime } => {
            lemma_place_of(relays, name);
        },
        crate::directory::RecordView::Freshness { date } => {},
    }
}

/// A listing and statistics for one name merge into one entry, in whichever order they come:
/// after both, the registry holds the name once, and that entry carries the options of the
/// listing together with the latency and the uptime of the statistics. No other name is added.
pub proof fn lemma_listing_and_statistics_merge(
    relays: Seq<crate::remailer::RemailerView>,
    name: Seq<char>,
    email: Seq<char>,
    options: Seq<Seq<char>>,
    stats_email: Seq<char>,
    latency: u64,
    uptime: u32,
)
    requires
        distinct_names(relays),
    ensures
        ({
            let listing = crate::directory::RecordView::Identity { name, email, options };
            let statistics = crate::directory::RecordView::Stats {
                name,
                email: stats_email,
                latency,
                uptime,
            };
            let one = applied(applied(relays, listing), statistics);
            let other = applied(applied(relays, statistics), listing);
            let grown: int = if place_of(relays, name) is Some {
                0
            } else {
                1
            };
            &&& distinct_names(one) && distinct_names(other)
            &&& one.len() == relays.len() + grown && other.len() == relays.len() + grown
            &&& place_of(one, name) matches Some(place) && one[place].name == name
                && one[place].options == options && one[place].latency == latency
                && one[place].uptime == uptime
            &&& place_of(other, name) matches Some(place) && other[place].name == name
                && other[place].options == options && other[place].latency == latency
                && other[place].uptime == uptime
        }),
{
    let listing = crate::directory::RecordView::Identity { name, email, options };
    let statistics = crate::directory::RecordView::Stats {
        name,
        email: stats_email,
        latency,
        uptime,
    };
    let listed = applied(relays, listing);
    let counted = applied(relays, statistics);
    lemma_place_of(relays, name);
    lemma_applied_keeps_names_distinct(relays, listing);
    lemma_applied_keeps_names_distinct(relays, statistics);
    lemma_place_of(listed, name);
    lemma_place_of(counted, name);
    match place_of(relays, name) {
        Some(place) => {
            assert(listed[place].name == name);
            assert(counted[place].name == name);
        },
        None => {
            assert(listed[relays.len() as int].name == name);
            assert(counted[relays.len() as int].name == name);
        },
    }
    let one = applied(listed, statistics);
    let other = applied(counted, listing);
    lemma_applied_keeps_names_distinct(listed, statistics);
    lemma_applied_keeps_names_distinct(counted, listing);
    lemma_place_of(one, name);
    lemma_place_of(other, name);
    let at = place_of(listed, name)->0;
    assert(one[at].name == name);
    let there = place_of(counted, name)->0;
    assert(other[there].name == name);
}

impl View for RelayRegistry {
    type V = Seq<crate::remailer::RemailerView>;

    closed spec fn view(&self) -> Seq<crate::remailer::RemailerView> {
        relays_view(self.relays@)
    }
}

impl RelayRegistry {
    #[verifier::type_invariant]
    spec fn names_are_distinct(&self) -> bool {
        distinct_names(relays_view(self.relays@))
    }

    /// A registry that knows no remailer.
    pub fn new() -> (registry: Self)
        ensures
            registry@ == Seq::<crate::remailer::RemailerView>::empty(),
    {
        let registry = RelayRegistry { relays: Vec::new() };
        assert(relays_view(registry.relays@) =~= Seq::empty());
        registry
    }

    /// The number of remailers.
    pub fn len(&self) -> (count: usize)
        ensures
            count == self@.len(),
    {
        self.relays.len()
    }

    /// The place of the remailer with the name.
    fn find(&self, name: &str) -> (place: Option<usize>)
        ensures
            match place {
                Some(at) => at < self.relays.len() && place_of(self@, name@) == Some(at as int),
                None => place_of(self@, name@) is None,
            },
    {
        let mut i: usize = 0;
        let ghost all = self@;
        while i < self.relays.len()
            invariant
                i <= self.relays.len(),
                all == relays_view(self.relays@),
                place_of(all.take(i as int), name@) is None,
            decreases self.relays.len() - i,
        {
            proof {
                assert(all.take(i + 1).drop_last() =~= all.take(i as int));
                assert(all.take(i + 1).last() == self.relays[i as int]@);
            }
            if str_equal(self.relays[i].name.as_str(), name) {
                proof {
                    lemma_place_of(all, name@);
                    lemma_place_of(all.take(i as int), name@);
                    assert(forall|j: int| 0 <= j < i ==> all.take(i as int)[j] == all[j]);
                }
                return Some(i);
            }
            i += 1;
        }
        assert(all.take(i as int) =~= all);
        None
    }

    /// The remailer with the name, if the registry knows it.
    pub fn get(&self, name: &str) -> (found: Option<&Remailer>)
        ensures
            match place_of(self@, name@) {
                Some(place) => found matches Some(remailer) && remailer@ == self@[place],
                None => found is None,
            },
    {
        match self.find(name) {
            Some(place) => Some(&self.relays[place]),
            None => None,
        }
    }

    /// Takes in one record of the directory.
    pub fn apply(&mut self, record: Record)
        ensures
            final(self)@ == applied(old(self)@, record@),
            distinct_names(final(self)@),
    {
        proof {
            use_type_invariant(&*self);
            lemma_applied_keeps_names_distinct(self@, record@);
        }
        let ghost before = self@;
        let ghost change = record@;
        let (name, place) = match &record {
            Record::Identity { name, email, options } => (Some(name), self.find(name.as_str())),
            Record::Stats { name, email, latency, uptime } => (
                Some(name),
                self.find(name.as_str()),
            ),
            Record::Freshness { date } => (None, None),
        };
        let mut relays: Vec<Remailer> = Vec::new();
        std::mem::swap(&mut self.relays, &mut relays);
        assert(relays_view(self.relays@) =~= Seq::empty());
        assert(relays_view(relays@) == before);
        match record {
            Record::Identity { name, email, options } => {
                match place {
                    Some(place) => {
                        let mut remailer = relays.remove(place);
                        remailer.set_options(options);
                        let ghost changed = remailer@;
                        relays.insert(place, remailer);
                        assert(relays_view(relays@) =~= before.update(place as int, changed));
                    },
                    None => {
                        let remailer = Remailer::new(name, email, options);
                        relays.push(remailer);
                        assert(relays_view(relays@) =~= before.push(remailer@));
                    },
                }
            },
            Record::Stats { name, email, latency, uptime } => {
                match place {
                    Some(place) => {
                        let mut remailer = relays.remove(place);
                        remailer.set_latency(latency);
                        remailer.set_uptime(uptime);
                        let ghost changed = remailer@;
                        relays.insert(place, remailer);
                        assert(relays_view(relays@) =~= before.update(place as int, changed));
                    },
                    None => {
                        let none: Vec<String> = Vec::new();
                        assert(none.deep_view() =~= Seq::empty());
                        let mut remailer = Remailer::new(name, email, none);
                        remailer.set_latency(latency);
                        remailer.set_uptime(uptime);
                        relays.push(remailer);
                        assert(relays_view(relays@) =~= before.push(remailer@));
                    },
                }
            },
            Record::Freshness { date } => {},
        }
        self.relays = relays;
    }

    /// Takes in the records of a directory, in order, and gives back the time stamps that the
    /// directory carries, which change nothing in the registry.
    pub fn ingest(&mut self, feed: &str) -> (stamps: Vec<String>)
        ensures
            final(self)@ == applied_all(old(self)@, crate::directory::directory_records(feed@)),
            distinct_names(final(self)@),
            stamps.deep_view() == stamps_of(crate::directory::directory_records(feed@)),
    {
        let records = parse_directory(feed);
        let ghost all = crate::directory::records_view(records@);
        let ghost before = self@;
        let mut stamps: Vec<String> = Vec::new();
        assert(stamps.deep_view() =~= Seq::empty());
        for record in it: records
            invariant
                crate::directory::records_view(it.seq()) == all,
                self@ == applied_all(before, all.take(it.index() as int)),
                stamps.deep_view() == stamps_of(all.take(it.index() as int)),
        {
            proof {
                assert(all.take(it.index() + 1).drop_last() =~= all.take(it.index() as int));
                assert(all.take(it.index() + 1).last() == record@);
            }
            if let Record::Freshness { date } = &record {
                let ghost listed = stamps.deep_view();
                stamps.push(date.clone());
                assert(stamps.deep_view() =~= listed.push(date@));
            }
            self.apply(record);
        }
        assert(all.take(all.len() as int) =~= all);
        proof {
            use_type_invariant(&*self);
        }
        stamps
    }

    /// The remailers, in the order in which they were first seen.
    pub fn relays(&self) -> (relays: &Vec<Remailer>)
        ensures
            relays_view(relays@) == self@,
            distinct_names(self@),
    {
        proof {
            use_type_invariant(self);
        }
        &self.relays
    }
}

} // verus!
