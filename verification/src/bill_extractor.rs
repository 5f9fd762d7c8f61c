use vstd::prelude::*;
use crate::bill::{Bill, BillV};
use crate::datetime::{Date, DateTime};
use crate::parse::{parse_bill, spec_parse_bill, RawBill, RawBillV};

verus! {

/// Which party's RFC a query filters on.
#[derive(Clone, Copy, Debug, PartialEq, Eq, Structural)]
pub enum SubjectType {
    Emisor,
    Receptor,
}

/// The inclusive date window of a query.
#[derive(Clone, Copy, Debug, PartialEq, Eq, Structural)]
pub struct DateConfig {
    pub date_start: DateTime,
    pub date_end: DateTime,
}

/// The resolved window for optional bounds: an absent start falls back
/// to 1900-01-01, an absent end to `now`; a given date bounds from
/// midnight at its start.
pub open spec fn spec_date_config(start: Option<Date>, end: Option<Date>, now: DateTime) -> DateConfig {
    DateConfig {
        date_start: match start {
            Some(d) => DateTime {
                year: d.year,
                month: d.month,
                day: d.day,
                hour: 0,
                minute: 0,
                second: 0,
            },
            None => DateTime { year: 1900, month: 1, day: 1, hour: 0, minute: 0, second: 0 },
        },
        date_end: match end {
            Some(d) => DateTime {
                year: d.year,
                month: d.month,
                day: d.day,
                hour: 0,
                minute: 0,
                second: 0,
            },
            None => now,
        },
    }
}

impl DateConfig {
    pub open spec fn wf(self) -> bool {
        self.date_start.wf() && self.date_end.wf()
    }

    /// Resolve optional date bounds into the window the filter uses.
    pub fn init(start: Option<Date>, end: Option<Date>, now: DateTime) -> (r: DateConfig)
        requires
            start matches Some(d) ==> d.wf(),
            end matches Some(d) ==> d.wf(),
            now.wf(),
        ensures
            r == spec_date_config(start, end, now),
            r.wf(),
    {
        let date_start = match start {
            Some(d) => d.start_of_day(),
            None => DateTime { year: 1900, month: 1, day: 1, hour: 0, minute: 0, second: 0 },
        };
        let date_end = match end {
            Some(d) => d.start_of_day(),
            None => now,
        };
        DateConfig { date_start, date_end }
    }
}

/// One query's full filter configuration.
#[derive(Clone, Debug)]
pub struct Config {
    pub subject_rfc: String,
    pub subject_type: SubjectType,
    pub dates: DateConfig,
}

#[verifier::ext_equal]
pub struct ConfigV {
    pub subject_rfc: Seq<char>,
    pub subject_type: SubjectType,
    pub dates: DateConfig,
}

impl View for Config {
    type V = ConfigV;

    open spec fn view(&self) -> ConfigV {
        ConfigV {
            subject_rfc: self.subject_rfc@,
            subject_type: self.subject_type,
            dates: self.dates,
        }
    }
}

impl Config {
    pub open spec fn wf(self) -> bool {
        self.dates.wf()
    }

    /// Build a configuration from a subject and optional date bounds.
    pub fn init(
        rfc: String,
        subject: SubjectType,
        date_start: Option<Date>,
        date_end: Option<Date>,
        now: DateTime,
    ) -> (r: Config)
        requires
            date_start matches Some(d) ==> d.wf(),
            date_end matches Some(d) ==> d.wf(),
            now.wf(),
        ensures
            r@.subject_rfc == rfc@,
            r.subject_type == subject,
            r.dates == spec_date_config(date_start, date_end, now),
            r.wf(),
    {
        Config { subject_rfc: rfc, subject_type: subject, dates: DateConfig::init(date_start, date_end, now) }
    }
}

/// Whether the queried party's RFC is exactly the configured one.
pub open spec fn spec_rfc_match(b: BillV, c: ConfigV) -> bool {
    match c.subject_type {
        SubjectType::Emisor => b.emisor.rfc == c.subject_rfc,
        SubjectType::Receptor => b.recipient.rfc == c.subject_rfc,
    }
}

/// Whether the invoice's issue timestamp lies in the window, inclusive
/// at both ends.
pub open spec fn spec_dates_match(b: BillV, c: ConfigV) -> bool {
    c.dates.date_start.key() <= b.date.key() && b.date.key() <= c.dates.date_end.key()
}

/// The filter predicate: RFC equality and date-window membership.
pub open spec fn spec_matches(b: BillV, c: ConfigV) -> bool {
    spec_rfc_match(b, c) && spec_dates_match(b, c)
}

/// The invoices a query keeps, in traversal order: every document
/// that parses and matches, with the failures dropped.
pub open spec fn spec_extract(raws: Seq<RawBillV>, c: ConfigV) -> Seq<BillV>
    decreases raws.len(),
{
    if raws.len() == 0 {
        Seq::empty()
    } else {
        let rest = spec_extract(raws.drop_last(), c);
        match spec_parse_bill(raws.last()) {
            Ok(b) => if spec_matches(b, c) {
                rest.push(b)
            } else {
                rest
            },
            Err(_) => rest,
        }
    }
}

/// The filter/extraction engine of one query.
#[derive(Clone, Debug)]
pub struct BillExtractor {
    pub config: Config,
}

impl BillExtractor {
    pub open spec fn wf(self) -> bool {
        self.config.wf()
    }

    pub fn new(config: Config) -> (r: Self)
        ensures
            r.config == config,
    {
        BillExtractor { config }
    }

    /// Whether the configured party of `bill` carries the configured
    /// RFC.
    #[inline]
    pub fn rfc_match(&self, bill: &Bill) -> (r: bool)
        ensures
            r == spec_rfc_match(bill@, self.config@),
    {
        match self.config.subject_type {
            SubjectType::Emisor => bill.emisor.rfc == self.config.subject_rfc,
            SubjectType::Receptor => bill.recipient.rfc == self.config.subject_rfc,
        }
    }

    /// Whether `bill` is dated inside the window, inclusive at both
    /// ends.
    #[inline]
    pub fn dates_match(&self, bill: &Bill) -> (r: bool)
        requires
            self.wf(),
            bill.date.wf(),
        ensures
            r == spec_dates_match(bill@, self.config@),
    {
        self.config.dates.date_start.le(&bill.date) && bill.date.le(&self.config.dates.date_end)
    }

    /// Keep `bill` exactly when both filter conditions hold.
    #[inline]
    pub fn filter(&self, bill: Bill) -> (r: Option<Bill>)
        requires
            self.wf(),
            bill.date.wf(),
        ensures
            spec_matches(bill@, self.config@) ==> r == Some(bill),
            !spec_matches(bill@, self.config@) ==> r is None,
    {
        if !self.rfc_match(&bill) {
            return None;
        }
        if !self.dates_match(&bill) {
            return None;
        }
        Some(bill)
    }

    /// Parse every raw document, drop the ones that fail, and keep the
    /// invoices the filter retains, in input order.
    #[verifier::loop_isolation(false)]
    pub fn extract_bills(&self, raws: Vec<RawBill>) -> (r: Vec<Bill>)
        requires
            self.wf(),
        ensures
            r@.map_values(|b: Bill| b@) == spec_extract(
                raws@.map_values(|rb: RawBill| rb@),
                self.config@,
            ),
            forall|i: int| 0 <= i < r@.len() ==> (#[trigger] r@[i]).wf(),
    {
        let ghost views = raws@.map_values(|rb: RawBill| rb@);
        let n = raws.len();
        let mut out: Vec<Bill> = Vec::new();
        let mut raws = raws;
        let mut i: usize = 0;
        proof {
            assert(views.take(0) =~= Seq::<RawBillV>::empty());
            assert(out@.map_values(|b: Bill| b@) =~= Seq::<BillV>::empty());
            assert(raws@.map_values(|rb: RawBill| rb@) =~= views.skip(0));
        }
        // consume the raw documents front to back
        while i < n
            invariant
                0 <= i <= n,
                raws@.len() == n - i,
                raws@.map_values(|rb: RawBill| rb@) == views.skip(i as int),
                out@.map_values(|b: Bill| b@) == spec_extract(views.take(i as int), self.config@),
                forall|j: int| 0 <= j < out@.len() ==> (#[trigger] out@[j]).wf(),
            decreases n - i,
        {
            proof {
                assert(views.take(i + 1).drop_last() =~= views.take(i as int));
                assert(views.take(i + 1).last() == views[i as int]);
                assert(raws@[0]@ == views.skip(i as int)[0]);
                assert(views.skip(i as int)[0] == views[i as int]);
            }
            let ghost before = raws@;
            let raw = raws.remove(0);
            proof {
                assert(raws@ =~= before.skip(1));
                assert(before.skip(1).map_values(|rb: RawBill| rb@) =~= before.map_values(
                    |rb: RawBill| rb@,
                ).skip(1));
                assert(views.skip(i as int).skip(1) =~= views.skip(i + 1));
                assert(raws@.map_values(|rb: RawBill| rb@) == views.skip(i + 1));
            }
            match parse_bill(raw) {
                Ok(bill) => {
                    let kept = self.filter(bill);
                    match kept {
                        Some(b) => {
                            let ghost prev = out@;
                            out.push(b);
                            proof {
                                assert(out@.map_values(|b: Bill| b@) =~= prev.map_values(
                                    |b: Bill| b@,
                                ).push(b@));
                            }
                        },
                        None => {},
                    }
                },
                Err(_) => {},
            }
            i = i + 1;
        }
        proof {
            assert(views.take(n as int) =~= views);
        }
        out
    }
}

/// Sort invoices by issue timestamp, ascending: the listing order of
/// the materialized pipeline. The result holds exactly the input
/// invoices, each as often as it came in.
#[verifier::loop_isolation(false)]
pub fn sort_by_date(bills: Vec<Bill>) -> (r: Vec<Bill>)
    requires
        forall|i: int| 0 <= i < bills@.len() ==> (#[trigger] bills@[i]).wf(),
    ensures
        r@.to_multiset() == bills@.to_multiset(),
        r@.len() == bills@.len(),
        forall|i: int, j: int|
            0 <= i < j < r@.len() ==> (#[trigger] r@[i]).date.key() <= (#[trigger] r@[j]).date.key(),
        forall|i: int| 0 <= i < r@.len() ==> (#[trigger] r@[i]).wf(),
{
    broadcast use vstd::seq_lib::group_to_multiset_ensures;

    let mut rem = bills;
    let mut out: Vec<Bill> = Vec::new();
    proof {
        assert(out@.to_multiset().add(rem@.to_multiset()) =~= rem@.to_multiset());
    }
    while rem.len() > 0
        invariant
            out@.to_multiset().add(rem@.to_multiset()) == bills@.to_multiset(),
            out@.len() + rem@.len() == bills@.len(),
            forall|i: int| 0 <= i < rem@.len() ==> (#[trigger] rem@[i]).wf(),
            forall|i: int| 0 <= i < out@.len() ==> (#[trigger] out@[i]).wf(),
            forall|i: int, j: int|
                0 <= i < j < out@.len() ==> (#[trigger] out@[i]).date.key() <= (
                #[trigger] out@[j]).date.key(),
            forall|i: int, j: int|
                0 <= i < out@.len() && 0 <= j < rem@.len() ==> (#[trigger] out@[i]).date.key() <= (
                #[trigger] rem@[j]).date.key(),
        decreases rem@.len(),
    {
        // index of the earliest-dated remaining invoice
        let mut m: usize = 0;
        let mut k: usize = 1;
        while k < rem.len()
            invariant
                0 <= m < k <= rem@.len(),
                forall|j: int| 0 <= j < k ==> rem@[m as int].date.key() <= (
                #[trigger] rem@[j]).date.key(),
            decreases rem@.len() - k,
        {
            if rem[k].date.le(&rem[m].date) {
                m = k;
            }
            k = k + 1;
        }
        let ghost prev_rem = rem@;
        let ghost prev_out = out@;
        let x = rem.remove(m);
        out.push(x);
        proof {
            assert(prev_rem.contains(prev_rem[m as int]));
            assert(rem@.to_multiset() =~= prev_rem.to_multiset().remove(x));
            assert(out@.to_multiset() =~= prev_out.to_multiset().insert(x));
            assert(prev_rem.to_multiset().count(x) > 0);
            assert(out@.to_multiset().add(rem@.to_multiset()) =~= bills@.to_multiset());
            assert(forall|j: int|
                0 <= j < rem@.len() ==> #[trigger] rem@[j] == (if j < m {
                    prev_rem[j]
                } else {
                    prev_rem[j + 1]
                }));
        }
    }
    out
}

/// The date window is inclusive at both ends: an invoice dated exactly
/// at the start or at the end of a non-empty window lies inside it,
/// and one whose timestamp encodes even one second outside either
/// bound lies outside.
pub proof fn lemma_date_window_inclusive(b: BillV, c: ConfigV)
    requires
        c.dates.date_start.key() <= c.dates.date_end.key(),
    ensures
        b.date == c.dates.date_start ==> spec_dates_match(b, c),
        b.date == c.dates.date_end ==> spec_dates_match(b, c),
        b.date.key() < c.dates.date_start.key() ==> !spec_dates_match(b, c),
        b.date.key() > c.dates.date_end.key() ==> !spec_dates_match(b, c),
        spec_rfc_match(b, c) && (b.date == c.dates.date_start || b.date == c.dates.date_end)
            ==> spec_matches(b, c),
        !spec_dates_match(b, c) ==> !spec_matches(b, c),
{
}

} // verus!
