//! The invoice document: its parts, its arithmetic and its validation.
use crate::date::{ymd_before, Date};
use crate::decimal::{
    decimal_product, decimal_sum, decimal_text, less_value, opt_view, pow10, same_value, Dec,
};
use crate::date::compact_text;
use crate::text::{
    all_digits, ascii_alnum, ascii_lower, chars_of, decimal_digits, digits_of, is_ascii_alnum,
    is_blank, is_blank_str, lemma_decimal_digits, lemma_decimal_digits_fit, lemma_zero_pad,
    pad_with_zeros, string_from_chars, to_ascii_lower, zero_pad,
};
use vstd::prelude::*;

verus! {

/// Invoice number, dates, currency and terms.
#[derive(Clone, Debug)]
pub struct InvoiceMeta {
    pub number: u64,
    pub date: Date,
    pub due_date: Option<Date>,
    pub currency: Option<String>,
    pub payment_terms: Option<String>,
}

/// The seller or the customer.
#[derive(Clone, Debug)]
pub struct Party {
    pub name: String,
    pub address: String,
    pub email: Option<String>,
    pub phone: Option<String>,
    pub tax_id: Option<String>,
}

/// One billable line.
#[derive(Clone, Debug)]
pub struct LineItem {
    pub description: String,
    pub quantity: Dec,
    pub unit_price: Dec,
    pub amount: Option<Dec>,
}

/// Totals that the document may declare.
#[derive(Clone, Debug)]
pub struct Totals {
    pub subtotal: Option<Dec>,
    pub tax_rate: Option<Dec>,
    pub tax: Option<Dec>,
    pub total: Option<Dec>,
}

impl Default for Totals {
    fn default() -> (r: Totals)
        ensures
            r.subtotal is None && r.tax_rate is None && r.tax is None && r.total is None,
    {
        Totals { subtotal: None, tax_rate: None, tax: None, total: None }
    }
}

/// Output settings of one document.
#[derive(Clone, Debug)]
pub struct OutputOptions {
    /// Tera template string for the output HTML filename.
    /// Example: `{{ company_slug }}-{{ invoice_date }}-{{ invoice_number }}.html`
    pub filename: Option<String>,
}

impl Default for OutputOptions {
    fn default() -> (r: OutputOptions)
        ensures
            r.filename is None,
    {
        OutputOptions { filename: None }
    }
}

/// One invoice, as its YAML file describes it.
#[derive(Clone, Debug)]
pub struct InvoiceDocument {
    pub invoice: InvoiceMeta,
    pub company: Party,
    pub client: Party,
    pub line_items: Vec<LineItem>,
    pub totals: Totals,
    pub notes: Vec<String>,
    pub output: OutputOptions,
}

// ---------------------------------------------------------------------------
// Arithmetic
/// The amount of a line: its declared amount, else `quantity * unit_price`
/// (`None` where the product overflows).
pub open spec fn line_amount(item: LineItem) -> Option<(int, nat)> {
    match item.amount {
        Some(a) => Some(a@),
        None => decimal_product(item.quantity@, item.unit_price@),
    }
}

/// The sum, starting from zero, of the amounts of the first `n` lines, added
/// in order (`None` where a product or a sum overflows).
pub open spec fn running_subtotal(items: Seq<LineItem>, n: nat) -> Option<(int, nat)>
    decreases n,
{
    if n == 0 {
        Some((0int, 0nat))
    } else {
        match running_subtotal(items, (n - 1) as nat) {
            Some(acc) => match line_amount(items[n - 1]) {
                Some(x) => decimal_sum(acc, x),
                None => None,
            },
            None => None,
        }
    }
}

/// The subtotal of a document: the sum of its line amounts.
pub open spec fn subtotal_of(doc: InvoiceDocument) -> Option<(int, nat)> {
    running_subtotal(doc.line_items@, doc.line_items@.len())
}

/// The tax: the declared tax, else `subtotal * tax_rate`, else zero.
pub open spec fn tax_of(doc: InvoiceDocument, subtotal: (int, nat)) -> Option<(int, nat)> {
    match doc.totals.tax {
        Some(t) => Some(t@),
        None => rated_tax(doc, subtotal),
    }
}

/// The tax that the rate gives: `subtotal * tax_rate`, or zero without a rate.
pub open spec fn rated_tax(doc: InvoiceDocument, subtotal: (int, nat)) -> Option<(int, nat)> {
    match doc.totals.tax_rate {
        Some(rate) => decimal_product(subtotal, rate@),
        None => Some((0int, 0nat)),
    }
}

/// The total: the declared total, else `subtotal + tax`.
pub open spec fn total_of(doc: InvoiceDocument, subtotal: (int, nat), tax: (int, nat)) -> Option<
    (int, nat),
> {
    match doc.totals.total {
        Some(t) => Some(t@),
        None => decimal_sum(subtotal, tax),
    }
}

// ---------------------------------------------------------------------------
// Validation
/// Why a document is refused.
#[derive(Clone, Debug)]
pub enum ValidationError {
    BlankCompanyName,
    BlankClientName,
    BlankCompanyAddress,
    BlankClientAddress,
    NoLineItems,
    BlankDescription { index: usize },
    NonPositiveQuantity { index: usize },
    NegativeUnitPrice { index: usize },
    AmountMismatch { index: usize, amount: Dec, expected: Dec },
    DueBeforeIssue,
    SubtotalMismatch { declared: Dec, computed: Dec },
    TaxMismatch { declared: Dec, computed: Dec },
    TotalMismatch { declared: Dec, computed: Dec },
}

/// A `ValidationError` with its decimals taken by value.
pub enum Fault {
    BlankCompanyName,
    BlankClientName,
    BlankCompanyAddress,
    BlankClientAddress,
    NoLineItems,
    BlankDescription { index: nat },
    NonPositiveQuantity { index: nat },
    NegativeUnitPrice { index: nat },
    AmountMismatch { index: nat, amount: (int, nat), expected: (int, nat) },
    DueBeforeIssue,
    SubtotalMismatch { declared: (int, nat), computed: (int, nat) },
    TaxMismatch { declared: (int, nat), computed: (int, nat) },
    TotalMismatch { declared: (int, nat), computed: (int, nat) },
}

impl View for ValidationError {
    type V = Fault;

    open spec fn view(&self) -> Fault {
        match *self {
            ValidationError::BlankCompanyName => Fault::BlankCompanyName,
            ValidationError::BlankClientName => Fault::BlankClientName,
            ValidationError::BlankCompanyAddress => Fault::BlankCompanyAddress,
            ValidationError::BlankClientAddress => Fault::BlankClientAddress,
            ValidationError::NoLineItems => Fault::NoLineItems,
            ValidationError::BlankDescription { index } => Fault::BlankDescription {
                index: index as nat,
            },
            ValidationError::NonPositiveQuantity { index } => Fault::NonPositiveQuantity {
                index: index as nat,
            },
            ValidationError::NegativeUnitPrice { index } => Fault::NegativeUnitPrice {
                index: index as nat,
            },
            ValidationError::AmountMismatch { index, amount, expected } => Fault::AmountMismatch {
                index: index as nat,
                amount: amount@,
                expected: expected@,
            },
            ValidationError::DueBeforeIssue => Fault::DueBeforeIssue,
            ValidationError::SubtotalMismatch { declared, computed } => Fault::SubtotalMismatch {
                declared: declared@,
                computed: computed@,
            },
            ValidationError::TaxMismatch { declared, computed } => Fault::TaxMismatch {
                declared: declared@,
                computed: computed@,
            },
            ValidationError::TotalMismatch { declared, computed } => Fault::TotalMismatch {
                declared: declared@,
                computed: computed@,
            },
        }
    }
}

/// A validation result with its error taken by value.
pub open spec fn result_view(r: Result<(), ValidationError>) -> Result<(), Fault> {
    match r {
        Ok(()) => Ok(()),
        Err(e) => Err(e@),
    }
}

/// The checks of one line, in order; `None` where `quantity * unit_price`
/// overflows.
pub open spec fn line_outcome(item: LineItem, index: nat) -> Option<Result<(), Fault>> {
    if is_blank(item.description@) {
        Some(Err(Fault::BlankDescription { index }))
    } else if !less_value((0int, 0nat), item.quantity@) {
        Some(Err(Fault::NonPositiveQuantity { index }))
    } else if less_value(item.unit_price@, (0int, 0nat)) {
        Some(Err(Fault::NegativeUnitPrice { index }))
    } else {
        match item.amount {
            None => Some(Ok(())),
            Some(amount) => match decimal_product(item.quantity@, item.unit_price@) {
                None => None,
                Some(expected) => if same_value(amount@, expected) {
                    Some(Ok(()))
                } else {
                    Some(Err(Fault::AmountMismatch { index, amount: amount@, expected }))
                },
            },
        }
    }
}

/// The checks of the lines from `i` on, in order.
pub open spec fn lines_outcome(items: Seq<LineItem>, i: nat) -> Option<Result<(), Fault>>
    decreases items.len() - i,
{
    if i >= items.len() {
        Some(Ok(()))
    } else {
        match line_outcome(items[i as int], i) {
            Some(Ok(())) => lines_outcome(items, i + 1),
            other => other,
        }
    }
}

/// The checks of the totals, given the subtotal: a declared subtotal must
/// equal the computed one, a declared tax the tax that the rate gives, and a
/// declared total `subtotal + tax`.
pub open spec fn totals_outcome(doc: InvoiceDocument, subtotal: (int, nat)) -> Option<
    Result<(), Fault>,
> {
    if differs(doc.totals.subtotal, subtotal) {
        Some(
            Err(Fault::SubtotalMismatch { declared: doc.totals.subtotal.unwrap()@, computed: subtotal }),
        )
    } else {
        match rated_tax(doc, subtotal) {
            None => None,
            Some(expected_tax) => if differs(doc.totals.tax, expected_tax) {
                Some(
                    Err(
                        Fault::TaxMismatch {
                            declared: doc.totals.tax.unwrap()@,
                            computed: expected_tax,
                        },
                    ),
                )
            } else {
                match tax_of(doc, subtotal) {
                    None => None,
                    Some(tax) => match decimal_sum(subtotal, tax) {
                        None => None,
                        Some(expected_total) => if differs(doc.totals.total, expected_total) {
                            Some(
                                Err(
                                    Fault::TotalMismatch {
                                        declared: doc.totals.total.unwrap()@,
                                        computed: expected_total,
                                    },
                                ),
                            )
                        } else {
                            Some(Ok(()))
                        },
                    },
                }
            },
        }
    }
}

/// A declared value is present and differs from the computed one.
pub open spec fn differs(declared: Option<Dec>, computed: (int, nat)) -> bool {
    match declared {
        Some(d) => !same_value(d@, computed),
        None => false,
    }
}

/// The due date is set and comes before the issue date.
pub open spec fn due_before_issue(doc: InvoiceDocument) -> bool {
    match doc.invoice.due_date {
        Some(due) => ymd_before(due@, doc.invoice.date@),
        None => false,
    }
}

/// The outcome of validating a document: the first failed check, or `Ok`;
/// `None` where the arithmetic on the way overflows.
pub open spec fn validation_outcome(doc: InvoiceDocument) -> Option<Result<(), Fault>> {
    if is_blank(doc.company.name@) {
        Some(Err(Fault::BlankCompanyName))
    } else if is_blank(doc.client.name@) {
        Some(Err(Fault::BlankClientName))
    } else if is_blank(doc.company.address@) {
        Some(Err(Fault::BlankCompanyAddress))
    } else if is_blank(doc.client.address@) {
        Some(Err(Fault::BlankClientAddress))
    } else if doc.line_items@.len() == 0 {
        Some(Err(Fault::NoLineItems))
    } else {
        match lines_outcome(doc.line_items@, 0) {
            Some(Ok(())) => if due_before_issue(doc) {
                Some(Err(Fault::DueBeforeIssue))
            } else {
                match subtotal_of(doc) {
                    None => None,
                    Some(subtotal) => totals_outcome(doc, subtotal),
                }
            },
            other => other,
        }
    }
}

/// A declared line amount against the computed `quantity * unit_price`: equal
/// in value, or the mismatch of line `index`.
pub fn amount_verdict(index: usize, amount: &Dec, expected: &Dec) -> (r: Result<(), ValidationError>)
    ensures
        result_view(r) == if same_value(amount@, expected@) {
            Ok::<(), Fault>(())
        } else {
            Err(Fault::AmountMismatch { index: index as nat, amount: amount@, expected: expected@ })
        },
{
    if amount.same_as(expected) {
        Ok(())
    } else {
        Err(ValidationError::AmountMismatch { index, amount: *amount, expected: *expected })
    }
}

/// A declared value, if any, against the computed one: absent, or equal in
/// value.
pub fn matches_declared(declared: &Option<Dec>, computed: &Dec) -> (r: bool)
    ensures
        r == !differs(*declared, computed@),
{
    match declared {
        Some(d) => d.same_as(computed),
        None => true,
    }
}

impl InvoiceDocument {
    /// The subtotal, or `None` where the arithmetic overflows.
    pub fn checked_subtotal(&self) -> (r: Option<Dec>)
        ensures
            opt_view(r) == subtotal_of(*self),
            self.line_items@.len() == 1 && self.line_items@[0].amount is Some ==> (r matches Some(
                t,
            ) && t@ == self.line_items@[0].amount.unwrap()@),
    {
        let mut sum = Dec::zero();
        let mut i: usize = 0;
        while i < self.line_items.len()
            invariant
                i <= self.line_items@.len(),
                running_subtotal(self.line_items@, i as nat) == Some(sum@),
                i == 0 ==> sum@ == (0int, 0nat),
                i == 1 && self.line_items@[0].amount is Some ==> sum@
                    == self.line_items@[0].amount.unwrap()@,
            decreases self.line_items.len() - i,
        {
            let item = &self.line_items[i];
            let amount = match &item.amount {
                Some(a) => *a,
                None => match item.quantity.checked_mul(&item.unit_price) {
                    Some(p) => p,
                    None => {
                        proof {
                            lemma_running_none(self.line_items@, (i + 1) as nat);
                        }
                        return None;
                    },
                },
            };
            match sum.checked_add(&amount) {
                Some(s) => {
                    sum = s;
                },
                None => {
                    proof {
                        lemma_running_none(self.line_items@, (i + 1) as nat);
                    }
                    return None;
                },
            }
            i = i + 1;
        }
        Some(sum)
    }

    /// The sum of the line amounts (a declared amount, else
    /// `quantity * unit_price`), added in order from zero.
    pub fn computed_subtotal(&self) -> (r: Dec)
        requires
            subtotal_of(*self) is Some,
        ensures
            Some(r@) == subtotal_of(*self),
            self.line_items@.len() == 1 && self.line_items@[0].amount is Some ==> r@
                == self.line_items@[0].amount.unwrap()@,
    {
        self.checked_subtotal().unwrap()
    }

    /// The tax for a subtotal, or `None` where `subtotal * tax_rate` overflows.
    pub fn checked_tax(&self, subtotal: &Dec) -> (r: Option<Dec>)
        ensures
            opt_view(r) == tax_of(*self, subtotal@),
    {
        match &self.totals.tax {
            Some(t) => Some(*t),
            None => match &self.totals.tax_rate {
                Some(rate) => subtotal.checked_mul(rate),
                None => Some(Dec::zero()),
            },
        }
    }

    /// The declared tax; else `subtotal * tax_rate`; else zero.
    pub fn computed_tax(&self, subtotal: Dec) -> (r: Dec)
        requires
            tax_of(*self, subtotal@) is Some,
        ensures
            Some(r@) == tax_of(*self, subtotal@),
    {
        self.checked_tax(&subtotal).unwrap()
    }

    /// The total for a subtotal and a tax, or `None` where the sum overflows.
    pub fn checked_total(&self, subtotal: &Dec, tax: &Dec) -> (r: Option<Dec>)
        ensures
            opt_view(r) == total_of(*self, subtotal@, tax@),
    {
        match &self.totals.total {
            Some(t) => Some(*t),
            None => subtotal.checked_add(tax),
        }
    }

    /// The declared total; else `subtotal + tax`.
    pub fn computed_total(&self, subtotal: Dec, tax: Dec) -> (r: Dec)
        requires
            total_of(*self, subtotal@, tax@) is Some,
        ensures
            Some(r@) == total_of(*self, subtotal@, tax@),
    {
        self.checked_total(&subtotal, &tax).unwrap()
    }

    /// The checks of the lines, in order, or `None` on overflow.
    fn check_lines(&self) -> (r: Option<Result<(), ValidationError>>)
        ensures
            match r {
                Some(x) => lines_outcome(self.line_items@, 0) == Some(result_view(x)),
                None => lines_outcome(self.line_items@, 0) is None,
            },
    {
        let zero = Dec::zero();
        let mut i: usize = 0;
        while i < self.line_items.len()
            invariant
                i <= self.line_items@.len(),
                zero@ == (0int, 0nat),
                lines_outcome(self.line_items@, 0) == lines_outcome(self.line_items@, i as nat),
            decreases self.line_items.len() - i,
        {
            let item = &self.line_items[i];
            if is_blank_str(item.description.as_str()) {
                return Some(Err(ValidationError::BlankDescription { index: i }));
            }
            if !zero.less_than(&item.quantity) {
                return Some(Err(ValidationError::NonPositiveQuantity { index: i }));
            }
            if item.unit_price.less_than(&zero) {
                return Some(Err(ValidationError::NegativeUnitPrice { index: i }));
            }
            if let Some(amount) = &item.amount {
                match item.quantity.checked_mul(&item.unit_price) {
                    None => {
                        return None;
                    },
                    Some(expected) => {
                        if let Err(e) = amount_verdict(i, amount, &expected) {
                            return Some(Err(e));
                        }
                    },
                }
            }
            i = i + 1;
        }
        Some(Ok(()))
    }

    /// The checks of the totals for a subtotal, or `None` on overflow.
    fn check_totals(&self, subtotal: &Dec) -> (r: Option<Result<(), ValidationError>>)
        ensures
            match r {
                Some(x) => totals_outcome(*self, subtotal@) == Some(result_view(x)),
                None => totals_outcome(*self, subtotal@) is None,
            },
    {
        if !matches_declared(&self.totals.subtotal, subtotal) {
            return Some(
                Err(
                    ValidationError::SubtotalMismatch {
                        declared: self.totals.subtotal.unwrap(),
                        computed: *subtotal,
                    },
                ),
            );
        }
        let expected_tax = match &self.totals.tax_rate {
            Some(rate) => match subtotal.checked_mul(rate) {
                Some(t) => t,
                None => {
                    return None;
                },
            },
            None => Dec::zero(),
        };
        if !matches_declared(&self.totals.tax, &expected_tax) {
            return Some(
                Err(
                    ValidationError::TaxMismatch {
                        declared: self.totals.tax.unwrap(),
                        computed: expected_tax,
                    },
                ),
            );
        }
        let tax = match self.checked_tax(subtotal) {
            Some(t) => t,
            None => {
                return None;
            },
        };
        let expected_total = match subtotal.checked_add(&tax) {
            Some(t) => t,
            None => {
                return None;
            },
        };
        if !matches_declared(&self.totals.total, &expected_total) {
            return Some(
                Err(
                    ValidationError::TotalMismatch {
                        declared: self.totals.total.unwrap(),
                        computed: expected_total,
                    },
                ),
            );
        }
        Some(Ok(()))
    }

    /// Validation, or `None` where the arithmetic on the way overflows.
    fn check(&self) -> (r: Option<Result<(), ValidationError>>)
        ensures
            match r {
                Some(x) => validation_outcome(*self) == Some(result_view(x)),
                None => validation_outcome(*self) is None,
            },
    {
        if is_blank_str(self.company.name.as_str()) {
            return Some(Err(ValidationError::BlankCompanyName));
        }
        if is_blank_str(self.client.name.as_str()) {
            return Some(Err(ValidationError::BlankClientName));
        }
        if is_blank_str(self.company.address.as_str()) {
            return Some(Err(ValidationError::BlankCompanyAddress));
        }
        if is_blank_str(self.client.address.as_str()) {
            return Some(Err(ValidationError::BlankClientAddress));
        }
        if self.line_items.len() == 0 {
            return Some(Err(ValidationError::NoLineItems));
        }
        match self.check_lines() {
            Some(Ok(())) => {},
            other => {
                return other;
            },
        }
        if let Some(due) = &self.invoice.due_date {
            if due.is_before(&self.invoice.date) {
                return Some(Err(ValidationError::DueBeforeIssue));
            }
        }
        match self.checked_subtotal() {
            None => None,
            Some(subtotal) => self.check_totals(&subtotal),
        }
    }

    /// Checks that the document is complete and that its arithmetic is
    /// consistent; the first failed check is the error.
    pub fn validate(&self) -> (r: Result<(), ValidationError>)
        requires
            validation_outcome(*self) is Some,
        ensures
            validation_outcome(*self) == Some(result_view(r)),
    {
        self.check().unwrap()
    }

    /// `validate`, where its arithmetic does not overflow; `None` where it does.
    pub fn try_validate(&self) -> (r: Option<Result<(), ValidationError>>)
        ensures
            match r {
                Some(x) => validation_outcome(*self) == Some(result_view(x)),
                None => validation_outcome(*self) is None,
            },
    {
        match self.check() {
            Some(_) => Some(self.validate()),
            None => None,
        }
    }
}

/// `"line_items[<index>]"`.
pub open spec fn line_label(index: nat) -> Seq<char> {
    "line_items["@ + decimal_digits(index) + "]"@
}

/// `"<head> (<declared>) <middle> (<computed>)"`.
pub open spec fn mismatch_words(
    head: Seq<char>,
    declared: (int, nat),
    middle: Seq<char>,
    computed: (int, nat),
) -> Seq<char> {
    head + " ("@ + decimal_text(declared) + ") "@ + middle + " ("@ + decimal_text(computed)
        + ")"@
}

/// The message of a refusal.
pub open spec fn fault_text(f: Fault) -> Seq<char> {
    match f {
        Fault::BlankCompanyName => "company.name is required and cannot be blank"@,
        Fault::BlankClientName => "client.name is required and cannot be blank"@,
        Fault::BlankCompanyAddress => "company.address is required and cannot be blank"@,
        Fault::BlankClientAddress => "client.address is required and cannot be blank"@,
        Fault::NoLineItems => "line_items must contain at least one entry"@,
        Fault::BlankDescription { index } => line_label(index)
            + ".description cannot be blank"@,
        Fault::NonPositiveQuantity { index } => line_label(index)
            + ".quantity must be greater than zero"@,
        Fault::NegativeUnitPrice { index } => line_label(index)
            + ".unit_price cannot be negative"@,
        Fault::AmountMismatch { index, amount, expected } => line_label(index) + mismatch_words(
            ".amount"@,
            amount,
            "does not match quantity * unit_price"@,
            expected,
        ),
        Fault::DueBeforeIssue => "invoice.due_date cannot be before invoice.date"@,
        Fault::SubtotalMismatch { declared, computed } => mismatch_words(
            "totals.subtotal"@,
            declared,
            "does not match sum of line items"@,
            computed,
        ),
        Fault::TaxMismatch { declared, computed } => mismatch_words(
            "totals.tax"@,
            declared,
            "does not match computed tax"@,
            computed,
        ),
        Fault::TotalMismatch { declared, computed } => mismatch_words(
            "totals.total"@,
            declared,
            "does not match computed total"@,
            computed,
        ),
    }
}

fn line_prefix(index: usize) -> (r: String)
    ensures
        r@ == line_label(index as nat),
{
    let mut r = String::from_str("line_items[");
    let digits = string_from_chars(&digits_of(index as u64));
    r.append(digits.as_str());
    r.append("]");
    r
}

fn mismatch_text(head: &str, declared: &Dec, middle: &str, computed: &Dec) -> (r: String)
    ensures
        r@ == mismatch_words(head@, declared@, middle@, computed@),
{
    let mut r = String::from_str(head);
    r.append(" (");
    r.append(declared.to_text().as_str());
    r.append(") ");
    r.append(middle);
    r.append(" (");
    r.append(computed.to_text().as_str());
    r.append(")");
    r
}

impl ValidationError {
    /// What went wrong, in words.
    pub fn message(&self) -> (r: String)
        ensures
            r@ == fault_text(self@),
    {
        match self {
            ValidationError::BlankCompanyName => String::from_str(
                "company.name is required and cannot be blank",
            ),
            ValidationError::BlankClientName => String::from_str(
                "client.name is required and cannot be blank",
            ),
            ValidationError::BlankCompanyAddress => String::from_str(
                "company.address is required and cannot be blank",
            ),
            ValidationError::BlankClientAddress => String::from_str(
                "client.address is required and cannot be blank",
            ),
            ValidationError::NoLineItems => String::from_str(
                "line_items must contain at least one entry",
            ),
            ValidationError::BlankDescription { index } => {
                let mut r = line_prefix(*index);
                r.append(".description cannot be blank");
                r
            },
            ValidationError::NonPositiveQuantity { index } => {
                let mut r = line_prefix(*index);
                r.append(".quantity must be greater than zero");
                r
            },
            ValidationError::NegativeUnitPrice { index } => {
                let mut r = line_prefix(*index);
                r.append(".unit_price cannot be negative");
                r
            },
            ValidationError::AmountMismatch { index, amount, expected } => {
                let mut r = line_prefix(*index);
                let rest = mismatch_text(
                    ".amount",
                    amount,
                    "does not match quantity * unit_price",
                    expected,
                );
                r.append(rest.as_str());
                r
            },
            ValidationError::DueBeforeIssue => String::from_str(
                "invoice.due_date cannot be before invoice.date",
            ),
            ValidationError::SubtotalMismatch { declared, computed } => mismatch_text(
                "totals.subtotal",
                declared,
                "does not match sum of line items",
                computed,
            ),
            ValidationError::TaxMismatch { declared, computed } => mismatch_text(
                "totals.tax",
                declared,
                "does not match computed tax",
                computed,
            ),
            ValidationError::TotalMismatch { declared, computed } => mismatch_text(
                "totals.total",
                declared,
                "does not match computed total",
                computed,
            ),
        }
    }
}

/// The ASCII letters and digits of `s`, in order.
pub open spec fn alnum_chars(s: Seq<char>) -> Seq<char>
    decreases s.len(),
{
    if s.len() == 0 {
        Seq::empty()
    } else if is_ascii_alnum(s.last()) {
        alnum_chars(s.drop_last()).push(s.last())
    } else {
        alnum_chars(s.drop_last())
    }
}

/// The first `n` elements of `s`, or all of it where it is shorter.
pub open spec fn at_most(s: Seq<char>, n: nat) -> Seq<char> {
    if s.len() <= n {
        s
    } else {
        s.take(n as int)
    }
}

/// The first five ASCII letters and digits of a name, lowercased.
pub open spec fn slug_of(name: Seq<char>) -> Seq<char> {
    at_most(alnum_chars(name), 5).map_values(|c: char| ascii_lower(c))
}

impl InvoiceDocument {
    /// First five alphanumeric characters from the company name, lowercased.
    pub fn company_slug(&self) -> (r: String)
        ensures
            r@ == slug_of(self.company.name@),
    {
        let name = chars_of(self.company.name.as_str());
        let mut out: Vec<char> = Vec::new();
        let mut i: usize = 0;
        while i < name.len()
            invariant
                i <= name@.len(),
                name@ == self.company.name@,
                out@ == at_most(alnum_chars(name@.take(i as int)), 5).map_values(
                    |c: char| ascii_lower(c),
                ),
            decreases name.len() - i,
        {
            let c = name[i];
            proof {
                assert(name@.take(i + 1).drop_last() == name@.take(i as int));
                assert(name@.take(i + 1).last() == c);
            }
            if ascii_alnum(c) && out.len() < 5 {
                out.push(to_ascii_lower(c));
            }
            proof {
                let before = alnum_chars(name@.take(i as int));
                let after = alnum_chars(name@.take(i + 1));
                if is_ascii_alnum(c) {
                    assert(after == before.push(c));
                    if before.len() < 5 {
                        assert(at_most(after, 5) == at_most(before, 5).push(c));
                    } else {
                        assert(at_most(after, 5) == at_most(before, 5));
                    }
                } else {
                    assert(after == before);
                }
                assert(out@ =~= at_most(after, 5).map_values(|c: char| ascii_lower(c)));
            }
            i = i + 1;
        }
        proof {
            assert(name@.take(name@.len() as int) == name@);
        }
        string_from_chars(&out)
    }

    /// The issue date as `YYYYMMDD`.
    pub fn invoice_date_compact(&self) -> (r: String)
        ensures
            r@ == compact_text(self.invoice.date@.0, self.invoice.date@.1, self.invoice.date@.2),
    {
        self.invoice.date.compact()
    }

    /// The invoice number in decimal, with `'0'`s in front up to `width`
    /// characters (`format!("{:0width$}", number)`).
    pub fn padded_invoice_number(&self, width: usize) -> (r: String)
        ensures
            r@ == zero_pad(decimal_digits(self.invoice.number as nat), width as nat),
    {
        let digits = digits_of(self.invoice.number);
        let padded = pad_with_zeros(digits, width);
        string_from_chars(&padded)
    }
}

/// A line that passes validation: described, with a positive quantity, a
/// price that is not negative, and a declared amount, if any, equal to
/// `quantity * unit_price`.
pub open spec fn line_is_consistent(item: LineItem) -> bool {
    &&& !is_blank(item.description@)
    &&& less_value((0int, 0nat), item.quantity@)
    &&& !less_value(item.unit_price@, (0int, 0nat))
    &&& match item.amount {
        Some(a) => match decimal_product(item.quantity@, item.unit_price@) {
            Some(expected) => same_value(a@, expected),
            None => false,
        },
        None => true,
    }
}

/// The checks ran and found nothing wrong.
pub open spec fn passes(o: Option<Result<(), Fault>>) -> bool {
    o matches Some(Ok(_))
}

proof fn lemma_lines_ok(items: Seq<LineItem>, i: nat)
    requires
        passes(lines_outcome(items, i)),
    ensures
        forall|k: int| i <= k < items.len() ==> passes(line_outcome(#[trigger] items[k], k as nat)),
    decreases items.len() - i,
{
    if i < items.len() {
        lemma_lines_ok(items, i + 1);
    }
}

/// A document that passes validation is complete and consistent: its names
/// and addresses are not blank, it has lines and each of them is consistent,
/// the due date is not before the issue date, and the declared subtotal, tax
/// and total equal, in value, the sum of the line amounts, the tax that the
/// rate gives, and subtotal plus tax.
pub proof fn lemma_valid_document_is_consistent(doc: InvoiceDocument)
    requires
        passes(validation_outcome(doc)),
    ensures
        !is_blank(doc.company.name@),
        !is_blank(doc.client.name@),
        !is_blank(doc.company.address@),
        !is_blank(doc.client.address@),
        doc.line_items@.len() > 0,
        forall|i: int| 0 <= i < doc.line_items@.len() ==> line_is_consistent(
            #[trigger] doc.line_items@[i],
        ),
        !due_before_issue(doc),
        subtotal_of(doc) is Some,
        !differs(doc.totals.subtotal, subtotal_of(doc).unwrap()),
        rated_tax(doc, subtotal_of(doc).unwrap()) is Some,
        !differs(doc.totals.tax, rated_tax(doc, subtotal_of(doc).unwrap()).unwrap()),
        decimal_sum(
            subtotal_of(doc).unwrap(),
            tax_of(doc, subtotal_of(doc).unwrap()).unwrap(),
        ) is Some,
        !differs(
            doc.totals.total,
            decimal_sum(
                subtotal_of(doc).unwrap(),
                tax_of(doc, subtotal_of(doc).unwrap()).unwrap(),
            ).unwrap(),
        ),
{
    assert(passes(lines_outcome(doc.line_items@, 0)));
    lemma_lines_ok(doc.line_items@, 0);
    assert forall|i: int| 0 <= i < doc.line_items@.len() implies line_is_consistent(
        #[trigger] doc.line_items@[i],
    ) by {
        assert(passes(line_outcome(doc.line_items@[i], i as nat)));
    }
}

/// Without a declared total, the total is `subtotal + tax`; with one that
/// passed validation, the total has the value of `subtotal + tax`.
pub proof fn lemma_total_is_subtotal_plus_tax(doc: InvoiceDocument)
    requires
        passes(validation_outcome(doc)),
    ensures
        ({
            let subtotal = subtotal_of(doc).unwrap();
            let tax = tax_of(doc, subtotal).unwrap();
            &&& total_of(doc, subtotal, tax) is Some
            &&& same_value(total_of(doc, subtotal, tax).unwrap(), decimal_sum(subtotal, tax).unwrap())
        }),
{
    lemma_valid_document_is_consistent(doc);
    let subtotal = subtotal_of(doc).unwrap();
    let tax = tax_of(doc, subtotal).unwrap();
    let sum = decimal_sum(subtotal, tax).unwrap();
    assert(sum.0 * pow10(sum.1) == sum.0 * pow10(sum.1));
}

/// The first five letters and digits of a name, lowercased, are at most five
/// characters, each a lowercase ASCII letter or a digit.
pub proof fn lemma_slug_shape(name: Seq<char>)
    ensures
        slug_of(name).len() <= 5,
        forall|i: int| 0 <= i < slug_of(name).len() ==> {
            let c = #[trigger] slug_of(name)[i];
            ('0' <= c && c <= '9') || ('a' <= c && c <= 'z')
        },
{
    lemma_alnum_chars(name);
    let picked = at_most(alnum_chars(name), 5);
    assert forall|i: int| 0 <= i < slug_of(name).len() implies {
        let c = #[trigger] slug_of(name)[i];
        ('0' <= c && c <= '9') || ('a' <= c && c <= 'z')
    } by {
        assert(picked[i] == alnum_chars(name)[i]);
        assert(is_ascii_alnum(picked[i]));
        assert(slug_of(name)[i] == ascii_lower(picked[i]));
        lemma_lower_alnum(picked[i]);
    }
}

proof fn lemma_alnum_chars(s: Seq<char>)
    ensures
        forall|i: int| 0 <= i < alnum_chars(s).len() ==> is_ascii_alnum(#[trigger] alnum_chars(s)[i]),
    decreases s.len(),
{
    if s.len() > 0 {
        lemma_alnum_chars(s.drop_last());
        let init = alnum_chars(s.drop_last());
        if is_ascii_alnum(s.last()) {
            assert forall|i: int| 0 <= i < alnum_chars(s).len() implies is_ascii_alnum(
                #[trigger] alnum_chars(s)[i],
            ) by {
                if i < init.len() {
                    assert(alnum_chars(s)[i] == init[i]);
                }
            }
        }
    }
}

proof fn lemma_lower_alnum(c: char)
    requires
        is_ascii_alnum(c),
    ensures
        ({
            let l = ascii_lower(c);
            ('0' <= l && l <= '9') || ('a' <= l && l <= 'z')
        }),
{
    if 'A' <= c && c <= 'Z' {
        assert((c as u32) + 32 <= 'z' as u32);
    }
}

/// The zero-padded invoice number is digits only, at least `width` of them,
/// and exactly `width` where the number has no more digits than that.
pub proof fn lemma_padded_number_shape(number: nat, width: nat)
    ensures
        all_digits(zero_pad(decimal_digits(number), width)),
        zero_pad(decimal_digits(number), width).len() >= width,
        width >= 1 && number < pow10(width) ==> zero_pad(decimal_digits(number), width).len()
            == width,
{
    lemma_decimal_digits(number);
    lemma_zero_pad(decimal_digits(number), width);
    if width >= 1 && number < pow10(width) {
        lemma_decimal_digits_fit(number, width);
    }
}

/// The line checks never give a fault that is not about a line.
proof fn lemma_lines_faults(items: Seq<LineItem>, i: nat)
    ensures
        match lines_outcome(items, i) {
            Some(Err(f)) => f is BlankDescription || f is NonPositiveQuantity
                || f is NegativeUnitPrice || f is AmountMismatch,
            _ => true,
        },
    decreases items.len() - i,
{
    if i < items.len() {
        lemma_lines_faults(items, i + 1);
    }
}

/// Lines that are each consistent pass the line checks.
proof fn lemma_consistent_lines_pass(items: Seq<LineItem>, i: nat)
    requires
        forall|k: int| 0 <= k < items.len() ==> line_is_consistent(#[trigger] items[k]),
    ensures
        lines_outcome(items, i) == Some(Ok::<(), Fault>(())),
    decreases items.len() - i,
{
    if i < items.len() {
        assert(line_is_consistent(items[i as int]));
        lemma_consistent_lines_pass(items, i + 1);
    }
}

/// A due date is refused only where, as a calendar date, it comes before the
/// issue date: an earlier year, or the same year and an earlier month, or the
/// same month and an earlier day.
pub proof fn lemma_due_refused_only_when_earlier(doc: InvoiceDocument)
    ensures
        validation_outcome(doc) matches Some(Err(Fault::DueBeforeIssue)) ==> (
        doc.invoice.due_date matches Some(due) && ymd_before(due@, doc.invoice.date@)),
{
    lemma_lines_faults(doc.line_items@, 0);
}

/// The conditions that the documentation sets on an invoice: names and
/// addresses not blank, at least one line and each line consistent, a due
/// date not before the issue date, and declared subtotal, tax and total equal
/// in value to the computed ones.
pub open spec fn documented_conditions_hold(doc: InvoiceDocument) -> bool {
    &&& !is_blank(doc.company.name@)
    &&& !is_blank(doc.client.name@)
    &&& !is_blank(doc.company.address@)
    &&& !is_blank(doc.client.address@)
    &&& doc.line_items@.len() > 0
    &&& forall|k: int| 0 <= k < doc.line_items@.len() ==> line_is_consistent(
        #[trigger] doc.line_items@[k],
    )
    &&& match doc.invoice.due_date {
        Some(due) => !ymd_before(due@, doc.invoice.date@),
        None => true,
    }
    &&& match subtotal_of(doc) {
        Some(subtotal) => {
            &&& !differs(doc.totals.subtotal, subtotal)
            &&& match rated_tax(doc, subtotal) {
                Some(expected_tax) => !differs(doc.totals.tax, expected_tax),
                None => true,
            }
            &&& match tax_of(doc, subtotal) {
                Some(tax) => match decimal_sum(subtotal, tax) {
                    Some(total) => !differs(doc.totals.total, total),
                    None => true,
                },
                None => true,
            }
        },
        None => true,
    }
}

/// A document that meets every documented condition passes validation,
/// unless its arithmetic overflows on the way.
pub proof fn lemma_documented_conditions_pass(doc: InvoiceDocument)
    requires
        documented_conditions_hold(doc),
    ensures
        validation_outcome(doc) is None || passes(validation_outcome(doc)),
{
    lemma_consistent_lines_pass(doc.line_items@, 0);
}

/// The running subtotal starts at zero, and each line adds its amount: a
/// declared amount as it is, else `quantity * unit_price`.
pub proof fn lemma_subtotal_adds_each_line(items: Seq<LineItem>, n: nat)
    requires
        n < items.len(),
    ensures
        running_subtotal(items, 0) == Some((0int, 0nat)),
        running_subtotal(items, n + 1) == match running_subtotal(items, n) {
            Some(acc) => match items[n as int].amount {
                Some(a) => decimal_sum(acc, a@),
                None => match decimal_product(items[n as int].quantity@, items[n as int].unit_price@) {
                    Some(p) => decimal_sum(acc, p),
                    None => None,
                },
            },
            None => None,
        },
{
}

/// The tax is the declared one, else the subtotal times the tax rate, else
/// zero; the total is the declared one, else the subtotal plus the tax.
pub proof fn lemma_tax_and_total_rules(doc: InvoiceDocument, subtotal: (int, nat), tax: (int, nat))
    ensures
        tax_of(doc, subtotal) == match doc.totals.tax {
            Some(t) => Some(t@),
            None => match doc.totals.tax_rate {
                Some(rate) => decimal_product(subtotal, rate@),
                None => Some((0int, 0nat)),
            },
        },
        total_of(doc, subtotal, tax) == match doc.totals.total {
            Some(t) => Some(t@),
            None => decimal_sum(subtotal, tax),
        },
{
}

/// The subtotal of a document with one line whose amount is declared is
/// zero plus that amount.
pub proof fn lemma_one_declared_line_subtotal(doc: InvoiceDocument)
    requires
        doc.line_items@.len() == 1,
        doc.line_items@[0].amount is Some,
    ensures
        subtotal_of(doc) == decimal_sum((0int, 0nat), doc.line_items@[0].amount.unwrap()@),
{
    lemma_subtotal_adds_each_line(doc.line_items@, 0);
}

/// How the slug grows with the name, one character at a time: an empty name
/// has an empty slug; a character that is not an ASCII letter or digit leaves
/// it as it is; a letter or digit is added, lowercased, while the slug has
/// fewer than five characters, and leaves a five-character slug as it is.
pub proof fn lemma_slug_grows(name: Seq<char>, c: char)
    ensures
        slug_of(Seq::<char>::empty()) == Seq::<char>::empty(),
        !is_ascii_alnum(c) ==> slug_of(name.push(c)) == slug_of(name),
        is_ascii_alnum(c) && slug_of(name).len() < 5 ==> slug_of(name.push(c)) == slug_of(
            name,
        ).push(ascii_lower(c)),
        slug_of(name).len() == 5 ==> slug_of(name.push(c)) == slug_of(name),
{
    let e = Seq::<char>::empty();
    assert(slug_of(e) =~= e);
    let n = name.push(c);
    assert(n.drop_last() =~= name);
    assert(n.last() == c);
    let a = alnum_chars(name);
    if is_ascii_alnum(c) {
        assert(alnum_chars(n) == a.push(c));
        if a.len() < 5 {
            assert(slug_of(n) =~= slug_of(name).push(ascii_lower(c)));
        } else {
            assert(a.push(c).take(5) =~= at_most(a, 5));
            assert(slug_of(n) =~= slug_of(name));
        }
    } else {
        assert(alnum_chars(n) == a);
    }
}

/// The padded invoice number ends with the number's own digits, and every
/// character before them is a `0`.
pub proof fn lemma_padded_number_reads_back(number: nat, width: nat)
    ensures
        ({
            let d = decimal_digits(number);
            let p = zero_pad(d, width);
            &&& p.len() >= d.len()
            &&& p.skip(p.len() - d.len()) == d
            &&& forall|i: int| 0 <= i < p.len() - d.len() ==> p[i] == '0'
        }),
{
    let d = decimal_digits(number);
    let p = zero_pad(d, width);
    assert(p.skip(p.len() - d.len()) =~= d);
}

/// Once a product or a sum overflows, the running subtotal stays undefined.
proof fn lemma_running_none(items: Seq<LineItem>, n: nat)
    requires
        n >= 1,
        running_subtotal(items, (n - 1) as nat) is None || line_amount(items[n - 1]) is None
            || decimal_sum(
            running_subtotal(items, (n - 1) as nat).unwrap(),
            line_amount(items[n - 1]).unwrap(),
        ) is None,
    ensures
        forall|m: nat| n <= m ==> #[trigger] running_subtotal(items, m) is None,
{
    assert forall|m: nat| n <= m implies #[trigger] running_subtotal(items, m) is None by {
        lemma_running_none_at(items, n, m);
    }
}

proof fn lemma_running_none_at(items: Seq<LineItem>, n: nat, m: nat)
    requires
        n >= 1,
        n <= m,
        running_subtotal(items, (n - 1) as nat) is None || line_amount(items[n - 1]) is None
            || decimal_sum(
            running_subtotal(items, (n - 1) as nat).unwrap(),
            line_amount(items[n - 1]).unwrap(),
        ) is None,
    ensures
        running_subtotal(items, m) is None,
    decreases m - n,
{
    if m > n {
        lemma_running_none_at(items, n, (m - 1) as nat);
    }
}

} // verus!
