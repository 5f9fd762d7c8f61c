use vstd::prelude::*;
use crate::amount::Amount;
use crate::bill::{spec_bill_tax, Bill, BillV, TaxType};
use crate::bill_extractor::{self, spec_extract, BillExtractor};
use crate::parse::RawBill;

verus! {

broadcast use vstd::seq_lib::group_to_multiset_ensures;

/// Which monetary field a report sums.
#[derive(Clone, Copy, Debug, PartialEq, Eq, Structural)]
pub enum ReportType {
    Total,
    Subtotal,
    Iva,
    Isr,
}

/// The field a selector reads off one invoice, in micro-units.
pub open spec fn spec_select(b: BillV, rt: ReportType) -> int {
    match rt {
        ReportType::Total => b.total.units as int,
        ReportType::Subtotal => b.subtotal.units as int,
        ReportType::Iva => spec_bill_tax(b, TaxType::Iva),
        ReportType::Isr => spec_bill_tax(b, TaxType::Isr),
    }
}

/// The exact sum of the selector over a sequence of invoices.
pub open spec fn spec_sum_selected(s: Seq<BillV>, rt: ReportType) -> int
    decreases s.len(),
{
    if s.len() == 0 {
        0
    } else {
        spec_sum_selected(s.drop_last(), rt) + spec_select(s.last(), rt)
    }
}

pub proof fn lemma_tax_sum_nonneg(s: Seq<crate::bill::Tax>, ty: TaxType)
    ensures
        crate::bill::spec_tax_sum(s, ty) >= 0,
    decreases s.len(),
{
    if s.len() > 0 {
        lemma_tax_sum_nonneg(s.drop_last(), ty);
    }
}

pub proof fn lemma_select_nonneg(b: BillV, rt: ReportType)
    ensures
        spec_select(b, rt) >= 0,
{
    lemma_tax_sum_nonneg(crate::bill::group_lines(b.taxes.withheld), TaxType::Iva);
    lemma_tax_sum_nonneg(crate::bill::group_lines(b.taxes.carried_forward), TaxType::Iva);
    lemma_tax_sum_nonneg(crate::bill::group_lines(b.taxes.withheld), TaxType::Isr);
    lemma_tax_sum_nonneg(crate::bill::group_lines(b.taxes.carried_forward), TaxType::Isr);
}

/// The sum over any prefix never exceeds the sum over the whole.
proof fn lemma_sum_selected_prefix(s: Seq<BillV>, k: int, rt: ReportType)
    requires
        0 <= k <= s.len(),
    ensures
        spec_sum_selected(s.take(k), rt) <= spec_sum_selected(s, rt),
    decreases s.len(),
{
    if k < s.len() {
        assert(s.drop_last().take(k) =~= s.take(k));
        lemma_sum_selected_prefix(s.drop_last(), k, rt);
        lemma_select_nonneg(s.last(), rt);
    } else {
        assert(s.take(k) =~= s);
    }
}

/// Removing one invoice takes exactly its selected field out of the
/// sum.
proof fn lemma_sum_selected_remove(s: Seq<BillV>, j: int, rt: ReportType)
    requires
        0 <= j < s.len(),
    ensures
        spec_sum_selected(s.remove(j), rt) == spec_sum_selected(s, rt) - spec_select(s[j], rt),
    decreases s.len(),
{
    if j == s.len() - 1 {
        assert(s.remove(j) =~= s.drop_last());
    } else {
        assert(s.remove(j).drop_last() =~= s.drop_last().remove(j));
        assert(s.remove(j).last() == s.last());
        lemma_sum_selected_remove(s.drop_last(), j, rt);
        assert(s.drop_last()[j] == s[j]);
    }
}

/// Aggregation is order-independent: two sequences holding the same
/// invoices, each the same number of times, fold to the identical sum
/// whichever way they are ordered.
pub proof fn lemma_sum_selected_permutation(s1: Seq<BillV>, s2: Seq<BillV>, rt: ReportType)
    requires
        s1.to_multiset() == s2.to_multiset(),
    ensures
        spec_sum_selected(s1, rt) == spec_sum_selected(s2, rt),
    decreases s1.len(),
{
    s1.to_multiset_ensures();
    s2.to_multiset_ensures();
    if s1.len() == 0 {
        assert(s2.len() == 0);
    } else {
        let x = s1.last();
        assert(s1.contains(x));
        assert(s1.to_multiset().count(x) > 0);
        assert(s2.contains(x));
        let j = choose|j: int| 0 <= j < s2.len() && s2[j] == x;
        assert(s1.remove(s1.len() - 1) =~= s1.drop_last());
        assert(s1.drop_last().to_multiset() == s1.to_multiset().remove(x));
        assert(s2.remove(j).to_multiset() == s2.to_multiset().remove(x));
        lemma_sum_selected_permutation(s1.drop_last(), s2.remove(j), rt);
        lemma_sum_selected_remove(s2, j, rt);
    }
}

/// Fold the selected field over the invoices into one exact decimal
/// value; `None` exactly when the mathematical sum leaves the
/// representable range.
#[verifier::loop_isolation(false)]
pub fn get_result(bills: &Vec<Bill>, rt: ReportType) -> (r: Option<Amount>)
    requires
        forall|i: int| 0 <= i < bills@.len() ==> (#[trigger] bills@[i]).wf(),
    ensures
        r matches Some(a) ==> a.units == spec_sum_selected(
            bills@.map_values(|b: Bill| b@),
            rt,
        ),
        r is Some <==> spec_sum_selected(bills@.map_values(|b: Bill| b@), rt) <= u128::MAX,
{
    let ghost views = bills@.map_values(|b: Bill| b@);
    let mut acc: u128 = 0;
    let mut i: usize = 0;
    proof {
        assert(views.take(0) =~= Seq::<BillV>::empty());
    }
    while i < bills.len()
        invariant
            0 <= i <= bills@.len(),
            acc == spec_sum_selected(views.take(i as int), rt),
        decreases bills@.len() - i,
    {
        proof {
            assert(views.take(i + 1).drop_last() =~= views.take(i as int));
            assert(views.take(i + 1).last() == views[i as int]);
            assert(views[i as int] == bills@[i as int]@);
        }
        let sel = select_amount(&bills[i], rt);
        if sel.units > u128::MAX - acc {
            proof {
                lemma_sum_selected_prefix(views, i + 1, rt);
            }
            return None;
        }
        acc = acc + sel.units;
        i = i + 1;
    }
    proof {
        assert(views.take(bills@.len() as int) =~= views);
    }
    Some(Amount { units: acc })
}

/// Read the selected monetary field off one invoice.
pub fn select_amount(bill: &Bill, rt: ReportType) -> (r: Amount)
    requires
        bill.wf(),
    ensures
        r.units == spec_select(bill@, rt),
{
    match rt {
        ReportType::Total => bill.total(),
        ReportType::Subtotal => bill.subtotal(),
        ReportType::Iva => bill.iva(),
        ReportType::Isr => bill.isr(),
    }
}

/// A report's full configuration: what to filter and what to sum.
#[derive(Clone, Debug)]
pub struct Config {
    pub extractor_config: bill_extractor::Config,
    pub report_type: ReportType,
}

/// The report engine: extracts, filters and folds in one pass.
#[derive(Clone, Debug)]
pub struct Reporter {
    pub config: Config,
}

impl Reporter {
    pub open spec fn wf(self) -> bool {
        self.config.extractor_config.wf()
    }

    pub fn new(config: Config) -> (r: Self)
        ensures
            r.config == config,
    {
        Reporter { config }
    }

    /// Fold the retained invoices of the given raw documents into one
    /// exact decimal value. Fails only when the sum leaves the
    /// representable range; the result is the same value a caller
    /// obtains by materializing `extract_bills` and folding the list.
    pub fn money_report(&self, raws: Vec<RawBill>) -> (r: Result<Amount, String>)
        requires
            self.wf(),
        ensures
            ({
                let kept = spec_extract(
                    raws@.map_values(|rb: RawBill| rb@),
                    self.config.extractor_config@,
                );
                match r {
                    Ok(a) => a.units == spec_sum_selected(kept, self.config.report_type)
                        && spec_sum_selected(kept, self.config.report_type) <= u128::MAX,
                    Err(_) => spec_sum_selected(kept, self.config.report_type) > u128::MAX,
                }
            }),
    {
        let cfg = bill_extractor::Config {
            subject_rfc: self.config.extractor_config.subject_rfc.clone(),
            subject_type: self.config.extractor_config.subject_type,
            dates: self.config.extractor_config.dates,
        };
        let extractor = BillExtractor::new(cfg);
        let bills = extractor.extract_bills(raws);
        match get_result(&bills, self.config.report_type) {
            Some(a) => Ok(a),
            None => Err(String::from_str("the report total exceeds the representable range")),
        }
    }
}

} // verus!
