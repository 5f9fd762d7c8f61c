use vstd::prelude::*;
use crate::amount::{parse_amount, spec_parse_amount, AMOUNT_LIMIT};
use crate::bill::{
    spec_tax_type_of, tax_list_wf, Bill, BillV, CarriedForward, Concept, ConceptV, Concepts,
    Emisor, Recipient, Tax, TaxType, Taxes, TaxesV, Withheld, TAX_LIST_LIMIT,
};
use crate::datetime::{parse_datetime, spec_parse_datetime};

verus! {

/// Why one document was rejected. A rejection is document-level: the
/// pipeline drops the document and goes on.
#[derive(Clone, Copy, Debug, PartialEq, Eq, Structural)]
pub enum ParseError {
    /// The issue timestamp is not a real calendar moment in the fixed
    /// layout.
    BadTimestamp,
    /// A monetary field is not a well-formed decimal numeral in range.
    BadAmount,
    /// A tax line carries a code other than `"001"` and `"002"`.
    UnknownTaxKind,
    /// A tax group carries more lines than the crate can sum.
    TooManyTaxes,
}

/// One tax line as read from a document, before validation.
#[derive(Clone, Debug)]
pub struct RawTax {
    pub ty: String,
    pub value: String,
}

#[verifier::ext_equal]
pub struct RawTaxV {
    pub ty: Seq<char>,
    pub value: Seq<char>,
}

impl View for RawTax {
    type V = RawTaxV;

    open spec fn view(&self) -> RawTaxV {
        RawTaxV { ty: self.ty@, value: self.value@ }
    }
}

/// The tax section as read from a document.
#[derive(Clone, Debug)]
pub struct RawTaxes {
    pub withheld: Option<Vec<RawTax>>,
    pub carried_forward: Option<Vec<RawTax>>,
}

#[verifier::ext_equal]
pub struct RawTaxesV {
    pub withheld: Option<Seq<RawTaxV>>,
    pub carried_forward: Option<Seq<RawTaxV>>,
}

impl View for RawTaxes {
    type V = RawTaxesV;

    open spec fn view(&self) -> RawTaxesV {
        RawTaxesV {
            withheld: match self.withheld {
                Some(l) => Some(l@.map_values(|t: RawTax| t@)),
                None => None,
            },
            carried_forward: match self.carried_forward {
                Some(l) => Some(l@.map_values(|t: RawTax| t@)),
                None => None,
            },
        }
    }
}

/// One line item as read from a document, before validation.
#[derive(Clone, Debug)]
pub struct RawConcept {
    pub key: String,
    pub quantity: String,
    pub unity_key: String,
    pub unity: String,
    pub description: String,
    pub unitary_price: String,
    pub value: String,
}

#[verifier::ext_equal]
pub struct RawConceptV {
    pub key: Seq<char>,
    pub quantity: Seq<char>,
    pub unity_key: Seq<char>,
    pub unity: Seq<char>,
    pub description: Seq<char>,
    pub unitary_price: Seq<char>,
    pub value: Seq<char>,
}

impl View for RawConcept {
    type V = RawConceptV;

    open spec fn view(&self) -> RawConceptV {
        RawConceptV {
            key: self.key@,
            quantity: self.quantity@,
            unity_key: self.unity_key@,
            unity: self.unity@,
            description: self.description@,
            unitary_price: self.unitary_price@,
            value: self.value@,
        }
    }
}

/// The line items as read from a document.
#[derive(Clone, Debug)]
pub struct RawConcepts {
    pub list: Vec<RawConcept>,
}

impl View for RawConcepts {
    type V = Seq<RawConceptV>;

    open spec fn view(&self) -> Seq<RawConceptV> {
        self.list@.map_values(|c: RawConcept| c@)
    }
}

/// One document as read from its text, before validation: every field
/// still textual except the parties, which carry only text.
#[derive(Clone, Debug)]
pub struct RawBill {
    pub version: String,
    pub date: String,
    pub pay_form: String,
    pub subtotal: String,
    pub currency: String,
    pub total: String,
    pub receipt_type: String,
    pub exportation: String,
    pub pay_method: String,
    pub expedition_place: String,
    pub emisor: Emisor,
    pub recipient: Recipient,
    pub concepts: RawConcepts,
    pub taxes: RawTaxes,
}

#[verifier::ext_equal]
pub struct RawBillV {
    pub version: Seq<char>,
    pub date: Seq<char>,
    pub pay_form: Seq<char>,
    pub subtotal: Seq<char>,
    pub currency: Seq<char>,
    pub total: Seq<char>,
    pub receipt_type: Seq<char>,
    pub exportation: Seq<char>,
    pub pay_method: Seq<char>,
    pub expedition_place: Seq<char>,
    pub emisor: <Emisor as View>::V,
    pub recipient: <Recipient as View>::V,
    pub concepts: Seq<RawConceptV>,
    pub taxes: RawTaxesV,
}

impl View for RawBill {
    type V = RawBillV;

    open spec fn view(&self) -> RawBillV {
        RawBillV {
            version: self.version@,
            date: self.date@,
            pay_form: self.pay_form@,
            subtotal: self.subtotal@,
            currency: self.currency@,
            total: self.total@,
            receipt_type: self.receipt_type@,
            exportation: self.exportation@,
            pay_method: self.pay_method@,
            expedition_place: self.expedition_place@,
            emisor: self.emisor@,
            recipient: self.recipient@,
            concepts: self.concepts@,
            taxes: self.taxes@,
        }
    }
}

/// Validating one tax line: its code must be a known kind and its
/// amount a well-formed numeral.
pub open spec fn spec_parse_tax(t: RawTaxV) -> Result<Tax, ParseError> {
    match spec_tax_type_of(t.ty) {
        None => Err(ParseError::UnknownTaxKind),
        Some(ty) => match spec_parse_amount(t.value) {
            None => Err(ParseError::BadAmount),
            Some(v) => Ok(Tax { ty, value: v }),
        },
    }
}

/// Validating a tax-line list, stopping at the first bad line.
pub open spec fn spec_parse_tax_lines(s: Seq<RawTaxV>) -> Result<Seq<Tax>, ParseError>
    decreases s.len(),
{
    if s.len() == 0 {
        Ok(Seq::empty())
    } else {
        match spec_parse_tax_lines(s.drop_last()) {
            Err(e) => Err(e),
            Ok(rest) => match spec_parse_tax(s.last()) {
                Err(e) => Err(e),
                Ok(t) => Ok(rest.push(t)),
            },
        }
    }
}

/// Validating an optional tax group: an absent group stays absent; a
/// present one must be bounded and line-by-line valid.
pub open spec fn spec_parse_tax_group(o: Option<Seq<RawTaxV>>) -> Result<
    Option<Seq<Tax>>,
    ParseError,
> {
    match o {
        None => Ok(None),
        Some(s) => if s.len() > TAX_LIST_LIMIT {
            Err(ParseError::TooManyTaxes)
        } else {
            match spec_parse_tax_lines(s) {
                Err(e) => Err(e),
                Ok(l) => Ok(Some(l)),
            }
        },
    }
}

/// Validating one line item: its three monetary fields must be
/// well-formed numerals; the textual fields are kept as they are.
pub open spec fn spec_parse_concept(c: RawConceptV) -> Result<ConceptV, ParseError> {
    match spec_parse_amount(c.quantity) {
        None => Err(ParseError::BadAmount),
        Some(q) => match spec_parse_amount(c.unitary_price) {
            None => Err(ParseError::BadAmount),
            Some(p) => match spec_parse_amount(c.value) {
                None => Err(ParseError::BadAmount),
                Some(v) => Ok(
                    ConceptV {
                        key: c.key,
                        quantity: q,
                        unity_key: c.unity_key,
                        unity: c.unity,
                        description: c.description,
                        unitary_price: p,
                        value: v,
                    },
                ),
            },
        },
    }
}

/// Validating the line items, stopping at the first bad one.
pub open spec fn spec_parse_concepts(s: Seq<RawConceptV>) -> Result<Seq<ConceptV>, ParseError>
    decreases s.len(),
{
    if s.len() == 0 {
        Ok(Seq::empty())
    } else {
        match spec_parse_concepts(s.drop_last()) {
            Err(e) => Err(e),
            Ok(rest) => match spec_parse_concept(s.last()) {
                Err(e) => Err(e),
                Ok(c) => Ok(rest.push(c)),
            },
        }
    }
}

/// What validating one document yields: the invoice whose monetary
/// fields, timestamp and tax kinds are the parsed values of the raw
/// text, or the first rejection in field order.
pub open spec fn spec_parse_bill(r: RawBillV) -> Result<BillV, ParseError> {
    match spec_parse_datetime(r.date) {
        None => Err(ParseError::BadTimestamp),
        Some(date) => match spec_parse_amount(r.subtotal) {
            None => Err(ParseError::BadAmount),
            Some(subtotal) => match spec_parse_amount(r.total) {
                None => Err(ParseError::BadAmount),
                Some(total) => match spec_parse_concepts(r.concepts) {
                    Err(e) => Err(e),
                    Ok(concepts) => match spec_parse_tax_group(r.taxes.withheld) {
                        Err(e) => Err(e),
                        Ok(withheld) => match spec_parse_tax_group(r.taxes.carried_forward) {
                            Err(e) => Err(e),
                            Ok(carried_forward) => Ok(
                                BillV {
                                    version: r.version,
                                    date,
                                    pay_form: r.pay_form,
                                    subtotal,
                                    currency: r.currency,
                                    total,
                                    receipt_type: r.receipt_type,
                                    exportation: r.exportation,
                                    pay_method: r.pay_method,
                                    expedition_place: r.expedition_place,
                                    emisor: r.emisor,
                                    recipient: r.recipient,
                                    concepts,
                                    taxes: TaxesV { withheld, carried_forward },
                                },
                            ),
                        },
                    },
                },
            },
        },
    }
}

proof fn lemma_tax_lines_err_extends(s: Seq<RawTaxV>, k: int, e: ParseError)
    requires
        0 <= k <= s.len(),
        spec_parse_tax_lines(s.take(k)) == Err::<Seq<Tax>, ParseError>(e),
    ensures
        spec_parse_tax_lines(s) == Err::<Seq<Tax>, ParseError>(e),
    decreases s.len() - k,
{
    if k < s.len() {
        assert(s.take(k + 1).drop_last() =~= s.take(k));
        lemma_tax_lines_err_extends(s, k + 1, e);
    } else {
        assert(s.take(k) =~= s);
    }
}

proof fn lemma_concepts_err_extends(s: Seq<RawConceptV>, k: int, e: ParseError)
    requires
        0 <= k <= s.len(),
        spec_parse_concepts(s.take(k)) == Err::<Seq<ConceptV>, ParseError>(e),
    ensures
        spec_parse_concepts(s) == Err::<Seq<ConceptV>, ParseError>(e),
    decreases s.len() - k,
{
    if k < s.len() {
        assert(s.take(k + 1).drop_last() =~= s.take(k));
        lemma_concepts_err_extends(s, k + 1, e);
    } else {
        assert(s.take(k) =~= s);
    }
}

#[verifier::loop_isolation(false)]
fn parse_tax_lines(list: Vec<RawTax>) -> (r: Result<Vec<Tax>, ParseError>)
    requires
        list@.len() <= TAX_LIST_LIMIT,
    ensures
        match r {
            Ok(v) => spec_parse_tax_lines(list@.map_values(|t: RawTax| t@)) == Ok::<
                Seq<Tax>,
                ParseError,
            >(v@) && tax_list_wf(v@),
            Err(e) => spec_parse_tax_lines(list@.map_values(|t: RawTax| t@)) == Err::<
                Seq<Tax>,
                ParseError,
            >(e),
        },
{
    let ghost views = list@.map_values(|t: RawTax| t@);
    let mut out: Vec<Tax> = Vec::new();
    let mut i: usize = 0;
    proof {
        assert(views.take(0) =~= Seq::<RawTaxV>::empty());
        assert(spec_parse_tax_lines(Seq::<RawTaxV>::empty()) == Ok::<Seq<Tax>, ParseError>(
            Seq::empty(),
        ));
    }
    while i < list.len()
        invariant
            0 <= i <= list@.len(),
            spec_parse_tax_lines(views.take(i as int)) == Ok::<Seq<Tax>, ParseError>(out@),
            out@.len() == i,
            tax_list_wf(out@),
        decreases list@.len() - i,
    {
        proof {
            assert(views.take(i + 1).drop_last() =~= views.take(i as int));
            assert(views.take(i + 1).last() == views[i as int]);
            assert(views[i as int] == list@[i as int]@);
        }
        let t = &list[i];
        let ty = match TaxType::from_code(t.ty.as_str()) {
            Some(ty) => ty,
            None => {
                proof {
                    lemma_tax_lines_err_extends(views, i + 1, ParseError::UnknownTaxKind);
                }
                return Err(ParseError::UnknownTaxKind);
            },
        };
        let value = match parse_amount(t.value.as_str()) {
            Some(v) => v,
            None => {
                proof {
                    lemma_tax_lines_err_extends(views, i + 1, ParseError::BadAmount);
                }
                return Err(ParseError::BadAmount);
            },
        };
        out.push(Tax { ty, value });
        i = i + 1;
    }
    proof {
        assert(views.take(list@.len() as int) =~= views);
    }
    Ok(out)
}

fn parse_tax_group_withheld(o: Option<Vec<RawTax>>) -> (r: Result<Option<Withheld>, ParseError>)
    ensures
        match r {
            Ok(g) => spec_parse_tax_group(
                match o {
                    Some(l) => Some(l@.map_values(|t: RawTax| t@)),
                    None => None,
                },
            ) == Ok::<Option<Seq<Tax>>, ParseError>(
                match g {
                    Some(w) => Some(w.taxes@),
                    None => None,
                },
            ) && (g matches Some(w) ==> w.wf()),
            Err(e) => spec_parse_tax_group(
                match o {
                    Some(l) => Some(l@.map_values(|t: RawTax| t@)),
                    None => None,
                },
            ) == Err::<Option<Seq<Tax>>, ParseError>(e),
        },
{
    match o {
        None => Ok(None),
        Some(l) => {
            if l.len() > TAX_LIST_LIMIT {
                return Err(ParseError::TooManyTaxes);
            }
            match parse_tax_lines(l) {
                Ok(v) => Ok(Some(Withheld { taxes: v })),
                Err(e) => Err(e),
            }
        },
    }
}

fn parse_tax_group_carried(o: Option<Vec<RawTax>>) -> (r: Result<
    Option<CarriedForward>,
    ParseError,
>)
    ensures
        match r {
            Ok(g) => spec_parse_tax_group(
                match o {
                    Some(l) => Some(l@.map_values(|t: RawTax| t@)),
                    None => None,
                },
            ) == Ok::<Option<Seq<Tax>>, ParseError>(
                match g {
                    Some(c) => Some(c.taxes@),
                    None => None,
                },
            ) && (g matches Some(c) ==> c.wf()),
            Err(e) => spec_parse_tax_group(
                match o {
                    Some(l) => Some(l@.map_values(|t: RawTax| t@)),
                    None => None,
                },
            ) == Err::<Option<Seq<Tax>>, ParseError>(e),
        },
{
    match o {
        None => Ok(None),
        Some(l) => {
            if l.len() > TAX_LIST_LIMIT {
                return Err(ParseError::TooManyTaxes);
            }
            match parse_tax_lines(l) {
                Ok(v) => Ok(Some(CarriedForward { taxes: v })),
                Err(e) => Err(e),
            }
        },
    }
}

#[verifier::loop_isolation(false)]
fn parse_concepts(raw: RawConcepts) -> (r: Result<Concepts, ParseError>)
    ensures
        match r {
            Ok(c) => spec_parse_concepts(raw@) == Ok::<Seq<ConceptV>, ParseError>(c@),
            Err(e) => spec_parse_concepts(raw@) == Err::<Seq<ConceptV>, ParseError>(e),
        },
{
    let ghost views = raw@;
    let list = raw.list;
    let mut out: Vec<Concept> = Vec::new();
    let mut i: usize = 0;
    proof {
        assert(views.take(0) =~= Seq::<RawConceptV>::empty());
        assert(out@.map_values(|c: Concept| c@) =~= Seq::<ConceptV>::empty());
        assert(spec_parse_concepts(Seq::<RawConceptV>::empty()) == Ok::<Seq<ConceptV>, ParseError>(
            Seq::empty(),
        ));
    }
    while i < list.len()
        invariant
            0 <= i <= list@.len(),
            list@.map_values(|c: RawConcept| c@) == views,
            spec_parse_concepts(views.take(i as int)) == Ok::<Seq<ConceptV>, ParseError>(
                out@.map_values(|c: Concept| c@),
            ),
            out@.len() == i,
        decreases list@.len() - i,
    {
        proof {
            assert(views.take(i + 1).drop_last() =~= views.take(i as int));
            assert(views.take(i + 1).last() == views[i as int]);
            assert(views[i as int] == list@[i as int]@);
        }
        let c = &list[i];
        let quantity = match parse_amount(c.quantity.as_str()) {
            Some(v) => v,
            None => {
                proof {
                    lemma_concepts_err_extends(views, i + 1, ParseError::BadAmount);
                }
                return Err(ParseError::BadAmount);
            },
        };
        let unitary_price = match parse_amount(c.unitary_price.as_str()) {
            Some(v) => v,
            None => {
                proof {
                    lemma_concepts_err_extends(views, i + 1, ParseError::BadAmount);
                }
                return Err(ParseError::BadAmount);
            },
        };
        let value = match parse_amount(c.value.as_str()) {
            Some(v) => v,
            None => {
                proof {
                    lemma_concepts_err_extends(views, i + 1, ParseError::BadAmount);
                }
                return Err(ParseError::BadAmount);
            },
        };
        let parsed = Concept {
            key: c.key.clone(),
            quantity,
            unity_key: c.unity_key.clone(),
            unity: c.unity.clone(),
            description: c.description.clone(),
            unitary_price,
            value,
        };
        let ghost prev = out@;
        out.push(parsed);
        proof {
            assert(spec_parse_concept(views[i as int]) matches Ok(cv) && cv =~= parsed@);
            assert(out@.map_values(|c: Concept| c@) =~= prev.map_values(|c: Concept| c@).push(
                parsed@,
            ));
        }
        i = i + 1;
    }
    proof {
        assert(views.take(list@.len() as int) =~= views);
    }
    Ok(Concepts { list: out })
}

/// Validate one raw document into an invoice, exactly as
/// `spec_parse_bill` states; a returned invoice is well-formed.
pub fn parse_bill(raw: RawBill) -> (r: Result<Bill, ParseError>)
    ensures
        match r {
            Ok(b) => spec_parse_bill(raw@) == Ok::<BillV, ParseError>(b@) && b.wf(),
            Err(e) => spec_parse_bill(raw@) == Err::<BillV, ParseError>(e),
        },
{
    let date = match parse_datetime(raw.date.as_str()) {
        Some(d) => d,
        None => {
            return Err(ParseError::BadTimestamp);
        },
    };
    let subtotal = match parse_amount(raw.subtotal.as_str()) {
        Some(a) => a,
        None => {
            return Err(ParseError::BadAmount);
        },
    };
    let total = match parse_amount(raw.total.as_str()) {
        Some(a) => a,
        None => {
            return Err(ParseError::BadAmount);
        },
    };
    let concepts = match parse_concepts(raw.concepts) {
        Ok(c) => c,
        Err(e) => {
            return Err(e);
        },
    };
    let withheld = match parse_tax_group_withheld(raw.taxes.withheld) {
        Ok(g) => g,
        Err(e) => {
            return Err(e);
        },
    };
    let carried_forward = match parse_tax_group_carried(raw.taxes.carried_forward) {
        Ok(g) => g,
        Err(e) => {
            return Err(e);
        },
    };
    let bill = Bill {
        version: raw.version,
        date,
        pay_form: raw.pay_form,
        subtotal,
        currency: raw.currency,
        total,
        receipt_type: raw.receipt_type,
        exportation: raw.exportation,
        pay_method: raw.pay_method,
        expedition_place: raw.expedition_place,
        emisor: raw.emisor,
        recipient: raw.recipient,
        concepts,
        taxes: Taxes { withheld, carried_forward },
    };
    proof {
        assert(spec_parse_bill(raw@) matches Ok(bv) && bv =~= bill@);
    }
    Ok(bill)
}

} // verus!
