use vstd::prelude::*;
use crate::amount::{Amount, AMOUNT_LIMIT};
use crate::datetime::DateTime;

verus! {

/// Most tax lines a Withheld or CarriedForward group may carry.
pub const TAX_LIST_LIMIT: usize = 65536;

/// The closed set of tax kinds an invoice may carry, externally
/// encoded as `"001"` (ISR) and `"002"` (IVA).
#[derive(Clone, Copy, Debug, PartialEq, Eq, Structural)]
pub enum TaxType {
    Isr,
    Iva,
}

pub open spec fn isr_code() -> Seq<char> {
    seq!['0', '0', '1']
}

pub open spec fn iva_code() -> Seq<char> {
    seq!['0', '0', '2']
}

/// The tax kind a three-digit code denotes, if any.
pub open spec fn spec_tax_type_of(s: Seq<char>) -> Option<TaxType> {
    if s == isr_code() {
        Some(TaxType::Isr)
    } else if s == iva_code() {
        Some(TaxType::Iva)
    } else {
        None
    }
}

impl TaxType {
    pub open spec fn spec_code(self) -> Seq<char> {
        match self {
            TaxType::Isr => isr_code(),
            TaxType::Iva => iva_code(),
        }
    }

    /// Decode a tax-kind code; every code but `"001"` and `"002"` is
    /// rejected.
    pub fn from_code(code: &str) -> (r: Option<TaxType>)
        ensures
            r == spec_tax_type_of(code@),
    {
        if code.unicode_len() != 3 {
            proof {
                assert(code@ != isr_code() && code@ != iva_code());
            }
            return None;
        }
        let c0 = code.get_char(0);
        let c1 = code.get_char(1);
        let c2 = code.get_char(2);
        if c0 == '0' && c1 == '0' && c2 == '1' {
            proof {
                assert(code@ =~= isr_code());
            }
            Some(TaxType::Isr)
        } else if c0 == '0' && c1 == '0' && c2 == '2' {
            proof {
                assert(code@ =~= iva_code());
                assert(code@ != isr_code());
            }
            Some(TaxType::Iva)
        } else {
            proof {
                assert(code@ != isr_code() && code@ != iva_code());
            }
            None
        }
    }

    /// The external code of this tax kind.
    pub fn code(&self) -> (r: String)
        ensures
            r@ == self.spec_code(),
    {
        proof {
            reveal_strlit("001");
            reveal_strlit("002");
        }
        match self {
            TaxType::Isr => {
                let s = String::from_str("001");
                proof {
                    assert(s@ =~= isr_code());
                }
                s
            },
            TaxType::Iva => {
                let s = String::from_str("002");
                proof {
                    assert(s@ =~= iva_code());
                }
                s
            },
        }
    }
}

/// One tax line: a kind and an exact amount.
#[derive(Clone, Copy, Debug, PartialEq, Eq, Structural)]
pub struct Tax {
    pub ty: TaxType,
    pub value: Amount,
}

/// A tax-line list a group may carry: bounded in length, every amount
/// within range, so that group sums stay representable.
pub open spec fn tax_list_wf(s: Seq<Tax>) -> bool {
    &&& s.len() <= TAX_LIST_LIMIT
    &&& forall|i: int| 0 <= i < s.len() ==> (#[trigger] s[i]).value.units <= AMOUNT_LIMIT
}

/// The exact sum, in micro-units, of the lines of kind `ty`.
pub open spec fn spec_tax_sum(s: Seq<Tax>, ty: TaxType) -> int
    decreases s.len(),
{
    if s.len() == 0 {
        0
    } else {
        spec_tax_sum(s.drop_last(), ty) + if s.last().ty == ty {
            s.last().value.units as int
        } else {
            0
        }
    }
}

pub proof fn lemma_tax_sum_bounds(s: Seq<Tax>, ty: TaxType)
    requires
        forall|i: int| 0 <= i < s.len() ==> (#[trigger] s[i]).value.units <= AMOUNT_LIMIT,
    ensures
        0 <= spec_tax_sum(s, ty) <= s.len() * AMOUNT_LIMIT,
    decreases s.len(),
{
    if s.len() > 0 {
        lemma_tax_sum_bounds(s.drop_last(), ty);
        assert((s.len() - 1) * AMOUNT_LIMIT + AMOUNT_LIMIT == s.len() * AMOUNT_LIMIT)
            by (nonlinear_arith);
    }
}

/// The sum of the lines of kind `ty` over two concatenated lists is
/// the sum of the sums.
pub proof fn lemma_tax_sum_concat(a: Seq<Tax>, b: Seq<Tax>, ty: TaxType)
    ensures
        spec_tax_sum(a + b, ty) == spec_tax_sum(a, ty) + spec_tax_sum(b, ty),
    decreases b.len(),
{
    if b.len() == 0 {
        assert(a + b =~= a);
    } else {
        lemma_tax_sum_concat(a, b.drop_last(), ty);
        assert((a + b).drop_last() =~= a + b.drop_last());
        assert((a + b).last() == b.last());
    }
}

impl Tax {
    /// Fold a list of tax lines into the exact sum of those of kind
    /// `ty`.
    #[verifier::loop_isolation(false)]
    pub fn sum_iter(taxes: &Vec<Tax>, ty: TaxType) -> (r: Amount)
        requires
            tax_list_wf(taxes@),
        ensures
            r.units == spec_tax_sum(taxes@, ty),
    {
        let mut acc: u128 = 0;
        let mut i: usize = 0;
        while i < taxes.len()
            invariant
                0 <= i <= taxes@.len(),
                acc == spec_tax_sum(taxes@.take(i as int), ty),
                acc <= i * AMOUNT_LIMIT,
            decreases taxes@.len() - i,
        {
            proof {
                assert(taxes@.take(i + 1).drop_last() =~= taxes@.take(i as int));
                assert(taxes@.take(i + 1).last() == taxes@[i as int]);
                assert(i * AMOUNT_LIMIT + AMOUNT_LIMIT == (i + 1) * AMOUNT_LIMIT)
                    by (nonlinear_arith);
                assert((i + 1) * AMOUNT_LIMIT <= TAX_LIST_LIMIT * AMOUNT_LIMIT)
                    by (nonlinear_arith)
                    requires
                        i + 1 <= TAX_LIST_LIMIT,
                ;
            }
            let t = &taxes[i];
            if t.ty == ty {
                acc = acc + t.value.units;
            }
            i = i + 1;
        }
        proof {
            assert(taxes@.take(taxes@.len() as int) =~= taxes@);
        }
        Amount { units: acc }
    }
}

/// The invoice's withheld-tax group.
#[derive(Clone, Debug)]
pub struct Withheld {
    pub taxes: Vec<Tax>,
}

impl Withheld {
    pub open spec fn wf(self) -> bool {
        tax_list_wf(self.taxes@)
    }

    pub fn iva(&self) -> (r: Amount)
        requires
            self.wf(),
        ensures
            r.units == spec_tax_sum(self.taxes@, TaxType::Iva),
    {
        Tax::sum_iter(&self.taxes, TaxType::Iva)
    }

    pub fn isr(&self) -> (r: Amount)
        requires
            self.wf(),
        ensures
            r.units == spec_tax_sum(self.taxes@, TaxType::Isr),
    {
        Tax::sum_iter(&self.taxes, TaxType::Isr)
    }
}

/// The invoice's carried-forward-tax group.
#[derive(Clone, Debug)]
pub struct CarriedForward {
    pub taxes: Vec<Tax>,
}

impl CarriedForward {
    pub open spec fn wf(self) -> bool {
        tax_list_wf(self.taxes@)
    }

    pub fn iva(&self) -> (r: Amount)
        requires
            self.wf(),
        ensures
            r.units == spec_tax_sum(self.taxes@, TaxType::Iva),
    {
        Tax::sum_iter(&self.taxes, TaxType::Iva)
    }

    pub fn isr(&self) -> (r: Amount)
        requires
            self.wf(),
        ensures
            r.units == spec_tax_sum(self.taxes@, TaxType::Isr),
    {
        Tax::sum_iter(&self.taxes, TaxType::Isr)
    }
}

/// The invoice's tax section: either group may be absent.
#[derive(Clone, Debug)]
pub struct Taxes {
    pub withheld: Option<Withheld>,
    pub carried_forward: Option<CarriedForward>,
}

#[verifier::ext_equal]
pub struct TaxesV {
    pub withheld: Option<Seq<Tax>>,
    pub carried_forward: Option<Seq<Tax>>,
}

impl View for Taxes {
    type V = TaxesV;

    open spec fn view(&self) -> TaxesV {
        TaxesV {
            withheld: match self.withheld {
                Some(w) => Some(w.taxes@),
                None => None,
            },
            carried_forward: match self.carried_forward {
                Some(c) => Some(c.taxes@),
                None => None,
            },
        }
    }
}

/// The issuing party of an invoice.
#[derive(Clone, Debug)]
pub struct Emisor {
    pub rfc: String,
    pub name: String,
    pub fiscal_regiment: String,
}

#[verifier::ext_equal]
pub struct EmisorV {
    pub rfc: Seq<char>,
    pub name: Seq<char>,
    pub fiscal_regiment: Seq<char>,
}

impl View for Emisor {
    type V = EmisorV;

    open spec fn view(&self) -> EmisorV {
        EmisorV { rfc: self.rfc@, name: self.name@, fiscal_regiment: self.fiscal_regiment@ }
    }
}

/// The receiving party of an invoice.
#[derive(Clone, Debug)]
pub struct Recipient {
    pub rfc: String,
    pub name: String,
    pub zip_code: String,
    pub fiscal_regiment: String,
    pub cfdi_use: String,
}

#[verifier::ext_equal]
pub struct RecipientV {
    pub rfc: Seq<char>,
    pub name: Seq<char>,
    pub zip_code: Seq<char>,
    pub fiscal_regiment: Seq<char>,
    pub cfdi_use: Seq<char>,
}

impl View for Recipient {
    type V = RecipientV;

    open spec fn view(&self) -> RecipientV {
        RecipientV {
            rfc: self.rfc@,
            name: self.name@,
            zip_code: self.zip_code@,
            fiscal_regiment: self.fiscal_regiment@,
            cfdi_use: self.cfdi_use@,
        }
    }
}

/// One invoice line item.
#[derive(Clone, Debug)]
pub struct Concept {
    pub key: String,
    pub quantity: Amount,
    pub unity_key: String,
    pub unity: String,
    pub description: String,
    pub unitary_price: Amount,
    pub value: Amount,
}

#[verifier::ext_equal]
pub struct ConceptV {
    pub key: Seq<char>,
    pub quantity: Amount,
    pub unity_key: Seq<char>,
    pub unity: Seq<char>,
    pub description: Seq<char>,
    pub unitary_price: Amount,
    pub value: Amount,
}

impl View for Concept {
    type V = ConceptV;

    open spec fn view(&self) -> ConceptV {
        ConceptV {
            key: self.key@,
            quantity: self.quantity,
            unity_key: self.unity_key@,
            unity: self.unity@,
            description: self.description@,
            unitary_price: self.unitary_price,
            value: self.value,
        }
    }
}

/// The ordered line items of an invoice.
#[derive(Clone, Debug)]
pub struct Concepts {
    pub list: Vec<Concept>,
}

impl View for Concepts {
    type V = Seq<ConceptV>;

    open spec fn view(&self) -> Seq<ConceptV> {
        self.list@.map_values(|c: Concept| c@)
    }
}

/// One parsed invoice. Declared `total` and `subtotal` are taken as
/// authoritative source fields; the derived IVA and ISR amounts are
/// sums over the tax section.
#[derive(Clone, Debug)]
pub struct Bill {
    pub version: String,
    pub date: DateTime,
    pub pay_form: String,
    pub subtotal: Amount,
    pub currency: String,
    pub total: Amount,
    pub receipt_type: String,
    pub exportation: String,
    pub pay_method: String,
    pub expedition_place: String,
    pub emisor: Emisor,
    pub recipient: Recipient,
    pub concepts: Concepts,
    pub taxes: Taxes,
}

#[verifier::ext_equal]
pub struct BillV {
    pub version: Seq<char>,
    pub date: DateTime,
    pub pay_form: Seq<char>,
    pub subtotal: Amount,
    pub currency: Seq<char>,
    pub total: Amount,
    pub receipt_type: Seq<char>,
    pub exportation: Seq<char>,
    pub pay_method: Seq<char>,
    pub expedition_place: Seq<char>,
    pub emisor: EmisorV,
    pub recipient: RecipientV,
    pub concepts: Seq<ConceptV>,
    pub taxes: TaxesV,
}

impl View for Bill {
    type V = BillV;

    open spec fn view(&self) -> BillV {
        BillV {
            version: self.version@,
            date: self.date,
            pay_form: self.pay_form@,
            subtotal: self.subtotal,
            currency: self.currency@,
            total: self.total,
            receipt_type: self.receipt_type@,
            exportation: self.exportation@,
            pay_method: self.pay_method@,
            expedition_place: self.expedition_place@,
            emisor: self.emisor@,
            recipient: self.recipient@,
            concepts: self.concepts@,
            taxes: self.taxes@,
        }
    }
}

pub open spec fn group_lines(o: Option<Seq<Tax>>) -> Seq<Tax> {
    match o {
        Some(s) => s,
        None => Seq::empty(),
    }
}

/// Every tax line of the invoice, withheld group first.
pub open spec fn spec_all_tax_lines(b: BillV) -> Seq<Tax> {
    group_lines(b.taxes.withheld) + group_lines(b.taxes.carried_forward)
}

/// The derived tax amount of kind `ty`: the sum over both groups, an
/// absent group contributing zero.
pub open spec fn spec_bill_tax(b: BillV, ty: TaxType) -> int {
    spec_tax_sum(group_lines(b.taxes.withheld), ty) + spec_tax_sum(
        group_lines(b.taxes.carried_forward),
        ty,
    )
}

impl BillV {
    /// Every amount within range, both tax groups bounded, and the
    /// timestamp a real calendar moment.
    pub open spec fn wf(self) -> bool {
        &&& self.date.wf()
        &&& self.subtotal.units <= AMOUNT_LIMIT
        &&& self.total.units <= AMOUNT_LIMIT
        &&& tax_list_wf(group_lines(self.taxes.withheld))
        &&& tax_list_wf(group_lines(self.taxes.carried_forward))
    }
}

/// Runtime check of `tax_list_wf`, for callers outside verified code.
#[verifier::loop_isolation(false)]
pub fn check_tax_list(taxes: &Vec<Tax>) -> (r: bool)
    ensures
        r == tax_list_wf(taxes@),
{
    if taxes.len() > TAX_LIST_LIMIT {
        return false;
    }
    let mut i: usize = 0;
    while i < taxes.len()
        invariant
            0 <= i <= taxes@.len(),
            forall|j: int| 0 <= j < i ==> (#[trigger] taxes@[j]).value.units <= AMOUNT_LIMIT,
        decreases taxes@.len() - i,
    {
        if taxes[i].value.units > AMOUNT_LIMIT {
            return false;
        }
        i = i + 1;
    }
    true
}

impl Bill {
    pub open spec fn wf(self) -> bool {
        self@.wf()
    }

    /// Runtime check of `wf`, for callers outside verified code.
    pub fn check_wf(&self) -> (r: bool)
        ensures
            r == self.wf(),
    {
        let withheld_ok = match &self.taxes.withheld {
            Some(w) => check_tax_list(&w.taxes),
            None => true,
        };
        let carried_ok = match &self.taxes.carried_forward {
            Some(c) => check_tax_list(&c.taxes),
            None => true,
        };
        self.date.check_wf() && self.subtotal.units <= AMOUNT_LIMIT && self.total.units
            <= AMOUNT_LIMIT && withheld_ok && carried_ok
    }

    /// The declared gross total, an identity projection.
    #[inline]
    pub fn total(&self) -> (r: Amount)
        ensures
            r == self.total,
    {
        self.total
    }

    /// The declared subtotal, an identity projection.
    #[inline]
    pub fn subtotal(&self) -> (r: Amount)
        ensures
            r == self.subtotal,
    {
        self.subtotal
    }

    /// The derived IVA amount: the sum of IVA lines across the
    /// withheld and carried-forward groups, an absent group
    /// contributing zero.
    pub fn iva(&self) -> (r: Amount)
        requires
            self.wf(),
        ensures
            r.units == spec_bill_tax(self@, TaxType::Iva),
    {
        self.tax_amount(TaxType::Iva)
    }

    /// The derived ISR amount, computed the same way as `iva`.
    pub fn isr(&self) -> (r: Amount)
        requires
            self.wf(),
        ensures
            r.units == spec_bill_tax(self@, TaxType::Isr),
    {
        self.tax_amount(TaxType::Isr)
    }

    fn tax_amount(&self, ty: TaxType) -> (r: Amount)
        requires
            self.wf(),
        ensures
            r.units == spec_bill_tax(self@, ty),
    {
        let mut total: u128 = 0;
        proof {
            lemma_tax_sum_bounds(group_lines(self@.taxes.withheld), ty);
            lemma_tax_sum_bounds(group_lines(self@.taxes.carried_forward), ty);
            assert(group_lines(self@.taxes.withheld).len() * AMOUNT_LIMIT <= TAX_LIST_LIMIT
                * AMOUNT_LIMIT) by (nonlinear_arith)
                requires
                    group_lines(self@.taxes.withheld).len() <= TAX_LIST_LIMIT,
            ;
            assert(group_lines(self@.taxes.carried_forward).len() * AMOUNT_LIMIT <= TAX_LIST_LIMIT
                * AMOUNT_LIMIT) by (nonlinear_arith)
                requires
                    group_lines(self@.taxes.carried_forward).len() <= TAX_LIST_LIMIT,
            ;
        }
        if let Some(w) = &self.taxes.withheld {
            total = total + Tax::sum_iter(&w.taxes, ty).units;
        }
        if let Some(c) = &self.taxes.carried_forward {
            total = total + Tax::sum_iter(&c.taxes, ty).units;
        }
        Amount { units: total }
    }
}

/// The derived tax amount of a kind equals the sum of the lines of
/// that kind over all tax lines of the invoice, both groups combined.
pub proof fn lemma_tax_amount_is_combined_sum(b: BillV, ty: TaxType)
    ensures
        spec_bill_tax(b, ty) == spec_tax_sum(spec_all_tax_lines(b), ty),
{
    lemma_tax_sum_concat(group_lines(b.taxes.withheld), group_lines(b.taxes.carried_forward), ty);
}

} // verus!
