//! What an invoice template is rendered from, rendering it with Tera, and
//! the output file name.
use crate::date::{compact_text, iso_text, Date};
use crate::decimal::{decimal_product, decimal_sum, decimal_text, less_value, pow10, same_value, Dec};
use crate::invoice::{
    lemma_total_is_subtotal_plus_tax, lemma_valid_document_is_consistent, line_amount,
    line_is_consistent, passes, rated_tax, slug_of, subtotal_of, tax_of, total_of,
    validation_outcome, InvoiceDocument, LineItem, Party,
};
use crate::text::{
    chars_of, decimal_digits, has_char, is_unicode_whitespace, lemma_trim_has_no_outer_whitespace,
    opt_text, string_from_chars, trim_chars, trim_spec, zero_pad,
};
use tera::{Context as TeraContext, Tera};
use vstd::prelude::*;

verus! {

/// Bundled HTML invoice template, used where no template file is given.
pub const DEFAULT_HTML_TEMPLATE: &'static str = r#"<!DOCTYPE html>
<html lang="en">
<head>
<meta charset="utf-8">
<title>Invoice #{{ invoice.number }} - {{ company.name }}</title>
<style>
body { font-family: sans-serif; margin: 2em; color: #222; }
table { border-collapse: collapse; width: 100%; }
th, td { border-bottom: 1px solid #ccc; padding: 0.4em; text-align: left; }
td.num, th.num { text-align: right; }
.totals td { border: none; }
</style>
</head>
<body>
<h1>Invoice #{{ invoice.number }}</h1>
<p>Date: {{ invoice.date }}{% if invoice.due_date %}<br>Due: {{ invoice.due_date }}{% endif %}{% if invoice.payment_terms %}<br>Terms: {{ invoice.payment_terms }}{% endif %}</p>
<table>
<tr>
<td>
<h2>From</h2>
<p><strong>{{ company.name }}</strong><br>{{ company.address | replace(from="\n", to="<br>") }}</p>
{% if company.email %}<p>{{ company.email }}</p>{% endif %}
{% if company.phone %}<p>{{ company.phone }}</p>{% endif %}
{% if company.tax_id %}<p>Tax ID: {{ company.tax_id }}</p>{% endif %}
</td>
<td>
<h2>Bill to</h2>
<p><strong>{{ client.name }}</strong><br>{{ client.address | replace(from="\n", to="<br>") }}</p>
{% if client.email %}<p>{{ client.email }}</p>{% endif %}
{% if client.phone %}<p>{{ client.phone }}</p>{% endif %}
{% if client.tax_id %}<p>Tax ID: {{ client.tax_id }}</p>{% endif %}
</td>
</tr>
</table>
<table>
<tr><th>Description</th><th class="num">Quantity</th><th class="num">Unit price</th><th class="num">Amount</th></tr>
{% for item in line_items %}<tr><td>{{ item.description }}</td><td class="num">{{ item.quantity }}</td><td class="num">{{ invoice.currency }} {{ item.unit_price }}</td><td class="num">{{ invoice.currency }} {{ item.amount }}</td></tr>
{% endfor %}</table>
<table class="totals">
<tr><td>Subtotal</td><td class="num">{{ invoice.currency }} {{ totals.subtotal }}</td></tr>
{% if totals.has_tax %}<tr><td>Tax{% if totals.tax_rate %} ({{ totals.tax_rate }}){% endif %}</td><td class="num">{{ invoice.currency }} {{ totals.tax }}</td></tr>
{% endif %}<tr><td><strong>Total</strong></td><td class="num"><strong>{{ invoice.currency }} {{ totals.total }}</strong></td></tr>
</table>
{% for note in notes %}<p>{{ note }}</p>
{% endfor %}</body>
</html>
"#;

/// Built-in output filename template.
pub const DEFAULT_FILENAME_TEMPLATE: &'static str =
    "{{ company_slug }}-{{ invoice_date }}-{{ invoice_number }}.html";

/// Width of the zero-padded invoice number in the template context.
pub const INVOICE_NUMBER_WIDTH: usize = 4;

/// `invoice` in the template context.
#[derive(Clone, Debug)]
pub struct InvoiceView {
    pub number: u64,
    pub date: Date,
    pub due_date: Option<Date>,
    pub currency: String,
    pub payment_terms: Option<String>,
}

/// `company` and `client` in the template context.
#[derive(Clone, Debug)]
pub struct PartyView {
    pub name: String,
    pub address: String,
    pub email: Option<String>,
    pub phone: Option<String>,
    pub tax_id: Option<String>,
}

/// One element of `line_items` in the template context.
#[derive(Clone, Debug)]
pub struct LineItemView {
    pub description: String,
    pub quantity: Dec,
    pub unit_price: Dec,
    pub amount: Dec,
}

/// `totals` in the template context.
#[derive(Clone, Debug)]
pub struct TotalsView {
    pub subtotal: Dec,
    pub tax_rate: Option<Dec>,
    pub tax: Dec,
    pub total: Dec,
    pub has_tax: bool,
}

/// Everything that HTML and filename templates can refer to.
#[derive(Clone, Debug)]
pub struct InvoiceTemplateContext {
    pub invoice: InvoiceView,
    pub company: PartyView,
    pub client: PartyView,
    pub line_items: Vec<LineItemView>,
    pub totals: TotalsView,
    pub notes: Vec<String>,
    pub company_slug: String,
    pub invoice_date: String,
    pub invoice_number: String,
}

fn copy_opt_string(o: &Option<String>) -> (r: Option<String>)
    ensures
        opt_text(r) == opt_text(*o),
{
    match o {
        Some(s) => Some(s.clone()),
        None => None,
    }
}

/// The party view shows the party's fields as they are.
pub open spec fn shows_party(v: PartyView, p: Party) -> bool {
    &&& v.name@ == p.name@
    &&& v.address@ == p.address@
    &&& opt_text(v.email) == opt_text(p.email)
    &&& opt_text(v.phone) == opt_text(p.phone)
    &&& opt_text(v.tax_id) == opt_text(p.tax_id)
}

/// The fields of a party, for a template.
pub fn party_view(party: &Party) -> (r: PartyView)
    ensures
        shows_party(r, *party),
{
    PartyView {
        name: party.name.clone(),
        address: party.address.clone(),
        email: copy_opt_string(&party.email),
        phone: copy_opt_string(&party.phone),
        tax_id: copy_opt_string(&party.tax_id),
    }
}

/// The currency: the declared one, else `USD`.
pub open spec fn currency_of(doc: InvoiceDocument) -> Seq<char> {
    match doc.invoice.currency {
        Some(c) => c@,
        None => "USD"@,
    }
}

/// The arithmetic that a context needs does not overflow.
pub open spec fn context_defined(doc: InvoiceDocument) -> bool {
    &&& (forall|i: int| 0 <= i < doc.line_items@.len() ==> #[trigger] line_amount(
        doc.line_items@[i],
    ) is Some)
    &&& subtotal_of(doc) is Some
    &&& tax_of(doc, subtotal_of(doc).unwrap()) is Some
    &&& total_of(doc, subtotal_of(doc).unwrap(), tax_of(doc, subtotal_of(doc).unwrap()).unwrap())
        is Some
}

/// A line view shows a line: its amount is the line amount.
pub open spec fn shows_line(v: LineItemView, item: LineItem) -> bool {
    &&& v.description@ == item.description@
    &&& v.quantity == item.quantity
    &&& v.unit_price == item.unit_price
    &&& line_amount(item) == Some(v.amount@)
}

/// The context shows the document, with the computed subtotal, tax and total.
pub open spec fn shows_document(c: InvoiceTemplateContext, doc: InvoiceDocument) -> bool {
    let subtotal = subtotal_of(doc).unwrap();
    let tax = tax_of(doc, subtotal).unwrap();
    &&& c.invoice.number == doc.invoice.number
    &&& c.invoice.date == doc.invoice.date
    &&& c.invoice.due_date == doc.invoice.due_date
    &&& c.invoice.currency@ == currency_of(doc)
    &&& opt_text(c.invoice.payment_terms) == opt_text(doc.invoice.payment_terms)
    &&& shows_party(c.company, doc.company)
    &&& shows_party(c.client, doc.client)
    &&& c.line_items@.len() == doc.line_items@.len()
    &&& (forall|i: int| 0 <= i < c.line_items@.len() ==> shows_line(
        #[trigger] c.line_items@[i],
        doc.line_items@[i],
    ))
    &&& c.totals.subtotal@ == subtotal
    &&& c.totals.tax_rate == doc.totals.tax_rate
    &&& c.totals.tax@ == tax
    &&& Some(c.totals.total@) == total_of(doc, subtotal, tax)
    &&& c.totals.has_tax == less_value((0int, 0nat), tax)
    &&& c.notes@.len() == doc.notes@.len()
    &&& (forall|i: int| 0 <= i < c.notes@.len() ==> #[trigger] c.notes@[i]@ == doc.notes@[i]@)
    &&& c.company_slug@ == slug_of(doc.company.name@)
    &&& c.invoice_date@ == compact_text(
        doc.invoice.date@.0,
        doc.invoice.date@.1,
        doc.invoice.date@.2,
    )
    &&& c.invoice_number@ == zero_pad(decimal_digits(doc.invoice.number as nat), 4)
}

fn copy_notes(notes: &Vec<String>) -> (r: Vec<String>)
    ensures
        r@.len() == notes@.len(),
        forall|i: int| 0 <= i < r@.len() ==> #[trigger] r@[i]@ == notes@[i]@,
{
    let mut r: Vec<String> = Vec::new();
    let mut i: usize = 0;
    while i < notes.len()
        invariant
            i <= notes@.len(),
            r@.len() == i,
            forall|k: int| 0 <= k < i ==> #[trigger] r@[k]@ == notes@[k]@,
        decreases notes.len() - i,
    {
        r.push(notes[i].clone());
        i = i + 1;
    }
    r
}

/// The line views, or `None` where a line amount overflows.
fn line_views(items: &Vec<LineItem>) -> (r: Option<Vec<LineItemView>>)
    ensures
        r is Some <==> (forall|i: int| 0 <= i < items@.len() ==> #[trigger] line_amount(
            items@[i],
        ) is Some),
        r matches Some(v) ==> v@.len() == items@.len() && (forall|i: int|
            0 <= i < v@.len() ==> shows_line(#[trigger] v@[i], items@[i])),
{
    let mut r: Vec<LineItemView> = Vec::new();
    let mut i: usize = 0;
    while i < items.len()
        invariant
            i <= items@.len(),
            r@.len() == i,
            forall|k: int| 0 <= k < i ==> shows_line(#[trigger] r@[k], items@[k]),
            forall|k: int| 0 <= k < i ==> #[trigger] line_amount(items@[k]) is Some,
        decreases items.len() - i,
    {
        let item = &items[i];
        let amount = match &item.amount {
            Some(a) => *a,
            None => match item.quantity.checked_mul(&item.unit_price) {
                Some(p) => p,
                None => {
                    proof {
                        assert(line_amount(items@[i as int]) is None);
                    }
                    return None;
                },
            },
        };
        r.push(
            LineItemView {
                description: item.description.clone(),
                quantity: item.quantity,
                unit_price: item.unit_price,
                amount,
            },
        );
        i = i + 1;
    }
    Some(r)
}

/// The template context, or `None` where its arithmetic overflows.
fn context_of(doc: &InvoiceDocument) -> (r: Option<InvoiceTemplateContext>)
    ensures
        r is Some <==> context_defined(*doc),
        r matches Some(c) ==> shows_document(c, *doc),
{
    let line_items = match line_views(&doc.line_items) {
        Some(v) => v,
        None => {
            return None;
        },
    };
    let subtotal = match doc.checked_subtotal() {
        Some(s) => s,
        None => {
            return None;
        },
    };
    let tax = match doc.checked_tax(&subtotal) {
        Some(t) => t,
        None => {
            return None;
        },
    };
    let total = match doc.checked_total(&subtotal, &tax) {
        Some(t) => t,
        None => {
            return None;
        },
    };
    let currency = match &doc.invoice.currency {
        Some(c) => c.clone(),
        None => String::from_str("USD"),
    };
    let zero = Dec::zero();
    Some(
        InvoiceTemplateContext {
            invoice: InvoiceView {
                number: doc.invoice.number,
                date: doc.invoice.date,
                due_date: doc.invoice.due_date,
                currency,
                payment_terms: copy_opt_string(&doc.invoice.payment_terms),
            },
            company: party_view(&doc.company),
            client: party_view(&doc.client),
            line_items,
            totals: TotalsView {
                subtotal,
                tax_rate: doc.totals.tax_rate,
                tax,
                total,
                has_tax: zero.less_than(&tax),
            },
            notes: copy_notes(&doc.notes),
            company_slug: doc.company_slug(),
            invoice_date: doc.invoice_date_compact(),
            invoice_number: doc.padded_invoice_number(INVOICE_NUMBER_WIDTH),
        },
    )
}

/// The values that HTML and filename templates are rendered from: the
/// document's fields, each line's amount, the subtotal, tax and total, the
/// company slug, the compact issue date and the zero-padded invoice number.
pub fn build_context(doc: &InvoiceDocument) -> (r: InvoiceTemplateContext)
    requires
        context_defined(*doc),
    ensures
        shows_document(r, *doc),
{
    context_of(doc).unwrap()
}

/// `build_context`, where its arithmetic does not overflow; `None` where it does.
pub fn try_build_context(doc: &InvoiceDocument) -> (r: Option<InvoiceTemplateContext>)
    ensures
        r is Some <==> context_defined(*doc),
        r matches Some(c) ==> shows_document(c, *doc),
{
    match context_of(doc) {
        Some(_) => Some(build_context(doc)),
        None => None,
    }
}

// ---------------------------------------------------------------------------
// The context as the data that templates see
/// A JSON value, as a template sees it.
pub ghost enum JsonData {
    Null,
    Bool(bool),
    Number(int),
    Str(Seq<char>),
    Array(Seq<JsonData>),
    Object(Map<Seq<char>, JsonData>),
}

/// The members of an object given in order, as a map (a later key replaces an
/// earlier one).
pub open spec fn members_map(m: Seq<(Seq<char>, JsonData)>) -> Map<Seq<char>, JsonData>
    decreases m.len(),
{
    if m.len() == 0 {
        Map::empty()
    } else {
        members_map(m.drop_last()).insert(m.last().0, m.last().1)
    }
}

/// Text, or `null`.
pub open spec fn opt_text_data(o: Option<Seq<char>>) -> JsonData {
    match o {
        Some(t) => JsonData::Str(t),
        None => JsonData::Null,
    }
}

/// A decimal as its text (`"450.00"`), as `serde` writes it.
pub open spec fn decimal_data(d: Dec) -> JsonData {
    JsonData::Str(decimal_text(d@))
}

pub open spec fn opt_decimal_data(d: Option<Dec>) -> JsonData {
    match d {
        Some(x) => decimal_data(x),
        None => JsonData::Null,
    }
}

/// A date as `"YYYY-MM-DD"`, as `serde` writes it.
pub open spec fn date_data(d: Date) -> JsonData {
    JsonData::Str(iso_text(d@.0, d@.1, d@.2))
}

pub open spec fn opt_date_data(d: Option<Date>) -> JsonData {
    match d {
        Some(x) => date_data(x),
        None => JsonData::Null,
    }
}

/// `invoice`: `number`, `date`, `due_date`, `currency`, `payment_terms`.
pub open spec fn invoice_data(v: InvoiceView) -> JsonData {
    JsonData::Object(
        members_map(
            seq![
                ("number"@, JsonData::Number(v.number as int)),
                ("date"@, date_data(v.date)),
                ("due_date"@, opt_date_data(v.due_date)),
                ("currency"@, JsonData::Str(v.currency@)),
                ("payment_terms"@, opt_text_data(opt_text(v.payment_terms))),
            ],
        ),
    )
}

/// A party: `name`, `address`, `email`, `phone`, `tax_id`.
pub open spec fn party_data(v: PartyView) -> JsonData {
    JsonData::Object(
        members_map(
            seq![
                ("name"@, JsonData::Str(v.name@)),
                ("address"@, JsonData::Str(v.address@)),
                ("email"@, opt_text_data(opt_text(v.email))),
                ("phone"@, opt_text_data(opt_text(v.phone))),
                ("tax_id"@, opt_text_data(opt_text(v.tax_id))),
            ],
        ),
    )
}

/// A line: `description`, `quantity`, `unit_price`, `amount`.
pub open spec fn line_data(v: LineItemView) -> JsonData {
    JsonData::Object(
        members_map(
            seq![
                ("description"@, JsonData::Str(v.description@)),
                ("quantity"@, decimal_data(v.quantity)),
                ("unit_price"@, decimal_data(v.unit_price)),
                ("amount"@, decimal_data(v.amount)),
            ],
        ),
    )
}

/// `totals`: `subtotal`, `tax_rate`, `tax`, `total`, `has_tax`.
pub open spec fn totals_data(v: TotalsView) -> JsonData {
    JsonData::Object(
        members_map(
            seq![
                ("subtotal"@, decimal_data(v.subtotal)),
                ("tax_rate"@, opt_decimal_data(v.tax_rate)),
                ("tax"@, decimal_data(v.tax)),
                ("total"@, decimal_data(v.total)),
                ("has_tax"@, JsonData::Bool(v.has_tax)),
            ],
        ),
    )
}

pub open spec fn lines_data(s: Seq<LineItemView>) -> Seq<JsonData> {
    s.map_values(|l: LineItemView| line_data(l))
}

pub open spec fn notes_data(s: Seq<String>) -> Seq<JsonData> {
    s.map_values(|t: String| JsonData::Str(t@))
}

/// The variables of a template: each field of the context under its name.
pub open spec fn context_data(c: InvoiceTemplateContext) -> Map<Seq<char>, JsonData> {
    members_map(
        seq![
            ("invoice"@, invoice_data(c.invoice)),
            ("company"@, party_data(c.company)),
            ("client"@, party_data(c.client)),
            ("line_items"@, JsonData::Array(lines_data(c.line_items@))),
            ("totals"@, totals_data(c.totals)),
            ("notes"@, JsonData::Array(notes_data(c.notes@))),
            ("company_slug"@, JsonData::Str(c.company_slug@)),
            ("invoice_date"@, JsonData::Str(c.invoice_date@)),
            ("invoice_number"@, JsonData::Str(c.invoice_number@)),
        ],
    )
}

/// The variables that a document's templates are rendered with: the data of
/// its template context (every context that shows the document has the same
/// data, see `lemma_context_data_is_the_documents`).
pub open spec fn template_data(doc: InvoiceDocument) -> Map<Seq<char>, JsonData> {
    context_data(choose|c: InvoiceTemplateContext| shows_document(c, doc))
}

/// Two contexts that show the same document give templates the same data.
pub proof fn lemma_context_data_is_the_documents(
    c: InvoiceTemplateContext,
    d: InvoiceTemplateContext,
    doc: InvoiceDocument,
)
    requires
        shows_document(c, doc),
        shows_document(d, doc),
    ensures
        context_data(c) == context_data(d),
{
    assert(invoice_data(c.invoice) == invoice_data(d.invoice));
    assert(party_data(c.company) == party_data(d.company));
    assert(party_data(c.client) == party_data(d.client));
    assert forall|i: int| 0 <= i < c.line_items@.len() implies line_data(c.line_items@[i])
        == line_data(d.line_items@[i]) by {
        assert(shows_line(c.line_items@[i], doc.line_items@[i]));
        assert(shows_line(d.line_items@[i], doc.line_items@[i]));
    }
    assert(lines_data(c.line_items@) =~= lines_data(d.line_items@));
    assert(notes_data(c.notes@) =~= notes_data(d.notes@));
    assert(totals_data(c.totals) == totals_data(d.totals));
}

/// A document's template data is that of any context that shows it.
proof fn lemma_template_data(c: InvoiceTemplateContext, doc: InvoiceDocument)
    requires
        shows_document(c, doc),
    ensures
        template_data(doc) == context_data(c),
{
    let d = choose|d: InvoiceTemplateContext| shows_document(d, doc);
    lemma_context_data_is_the_documents(c, d, doc);
}

/// The filename template for a document: the global one, else the document's
/// own, else the built-in default.
pub open spec fn chosen_template(global: Option<Seq<char>>, doc: InvoiceDocument) -> Seq<char> {
    match global {
        Some(g) => g,
        None => match doc.output.filename {
            Some(f) => f@,
            None => DEFAULT_FILENAME_TEMPLATE@,
        },
    }
}

/// Picks the output filename template: `--output-name`, else the document's
/// `output.filename`, else `DEFAULT_FILENAME_TEMPLATE`.
pub fn filename_template(global: Option<&str>, doc: &InvoiceDocument) -> (r: String)
    ensures
        r@ == chosen_template(
            match global {
                Some(g) => Some(g@),
                None => None,
            },
            *doc,
        ),
{
    match global {
        Some(g) => String::from_str(g),
        None => match &doc.output.filename {
            Some(f) => f.clone(),
            None => String::from_str(DEFAULT_FILENAME_TEMPLATE),
        },
    }
}

/// Why a rendered filename is refused.
#[derive(Clone, Debug)]
pub enum FilenameError {
    Empty,
    PathSeparator { name: String },
}

impl FilenameError {
    /// What went wrong, in words.
    pub fn message(&self) -> (r: String)
        ensures
            r@ == match self {
                FilenameError::Empty => "rendered output filename is empty"@,
                FilenameError::PathSeparator { name } => (
                "rendered output filename must not contain path separators: "@ + name@),
            },
    {
        match self {
            FilenameError::Empty => String::from_str("rendered output filename is empty"),
            FilenameError::PathSeparator { name } => {
                let mut r = String::from_str(
                    "rendered output filename must not contain path separators: ",
                );
                r.append(name.as_str());
                r
            },
        }
    }
}

/// `r` is what checking the rendered filename `name` gives: `name` trimmed,
/// refused where that is empty or holds `/` or `\`.
pub open spec fn sanitized(name: Seq<char>, r: Result<String, FilenameError>) -> bool {
    match r {
        Ok(s) => {
            &&& s@ == trim_spec(name)
            &&& s@.len() > 0
            &&& !s@.contains('/')
            &&& !s@.contains('\\')
        },
        Err(FilenameError::Empty) => trim_spec(name).len() == 0,
        Err(FilenameError::PathSeparator { name: t }) => {
            &&& t@ == trim_spec(name)
            &&& t@.len() > 0
            &&& (t@.contains('/') || t@.contains('\\'))
        },
    }
}

/// A rendered filename, trimmed; refused where it is empty or holds `/` or `\`.
pub fn sanitize_filename(name: &str) -> (r: Result<String, FilenameError>)
    ensures
        sanitized(name@, r),
{
    let chars = chars_of(name);
    let trimmed = trim_chars(&chars);
    if trimmed.len() == 0 {
        return Err(FilenameError::Empty);
    }
    let text = string_from_chars(&trimmed);
    if has_char(&trimmed, '/') || has_char(&trimmed, '\\') {
        return Err(FilenameError::PathSeparator { name: text });
    }
    Ok(text)
}

// ---------------------------------------------------------------------------
// Rendering with Tera
#[verifier::external_type_specification]
#[verifier::external_body]
pub struct ExTera(Tera);

#[verifier::external_type_specification]
#[verifier::external_body]
pub struct ExTeraContext(TeraContext);

#[verifier::external_type_specification]
#[verifier::external_body]
pub struct ExTeraValue(tera::Value);

#[verifier::external_type_specification]
#[verifier::external_body]
pub struct ExTeraError(tera::Error);

/// The templates that a `tera::Tera` holds: name to source text.
pub uninterp spec fn tera_templates(t: Tera) -> Map<Seq<char>, Seq<char>>;

/// The name suffixes of the templates whose output a `tera::Tera` escapes.
pub uninterp spec fn tera_autoescape_suffixes(t: Tera) -> Seq<Seq<char>>;

/// Whether Tera accepts `source` as the template `name` beside `templates`
/// (`Tera::add_raw_template`: the text parses, and every template's parents
/// and macro files are there).
pub uninterp spec fn tera_accepts(
    templates: Map<Seq<char>, Seq<char>>,
    name: Seq<char>,
    source: Seq<char>,
) -> bool;

/// `out` is a text that `Tera::render` can give for the template `name` of
/// `templates`, escaping as `suffixes` says, with the variables `data`. This
/// is a relation, not a function: a template may call `now`, `get_random` or
/// `get_env`.
pub uninterp spec fn tera_renders(
    templates: Map<Seq<char>, Seq<char>>,
    suffixes: Seq<Seq<char>>,
    name: Seq<char>,
    data: Map<Seq<char>, JsonData>,
    out: Seq<char>,
) -> bool;

/// `out` is a text that `Tera::one_off` can give for `template`, without
/// escaping, with the variables `data` (a relation, as for `tera_renders`).
pub uninterp spec fn tera_renders_once(
    template: Seq<char>,
    data: Map<Seq<char>, JsonData>,
    out: Seq<char>,
) -> bool;

/// What a `tera::Value` holds.
pub uninterp spec fn tera_value_data(v: tera::Value) -> JsonData;

/// The variables that a `tera::Context` holds.
pub uninterp spec fn tera_context_data(c: TeraContext) -> Map<Seq<char>, JsonData>;

/// No templates.
pub open spec fn no_templates() -> Map<Seq<char>, Seq<char>> {
    Map::empty()
}

/// A new `tera::Tera` (`Tera::default`).
/// Trusted: it holds no template, and escapes the output of templates named
/// `.html`, `.htm` or `.xml`.
#[verifier::external_body]
fn tera_default() -> (r: Tera)
    ensures
        tera_templates(r) == no_templates(),
        tera_autoescape_suffixes(r) == seq![".html"@, ".htm"@, ".xml"@],
{
    Tera::default()
}

/// Turns autoescaping off (`Tera::autoescape_on` with no suffixes).
/// Trusted: the templates stay; no suffix is escaped any more.
#[verifier::external_body]
fn tera_autoescape_off(tera: &mut Tera)
    ensures
        tera_templates(*final(tera)) == tera_templates(*old(tera)),
        tera_autoescape_suffixes(*final(tera)) == Seq::<Seq<char>>::empty(),
{
    tera.autoescape_on(vec![])
}

/// Parses `source` and adds it as `name` (`Tera::add_raw_template`).
/// Trusted: it succeeds exactly when `tera_accepts` holds of the templates
/// held before, `name` and `source`; then the templates are those with
/// `name` set to `source`. The escaping stays.
#[verifier::external_body]
fn tera_add_raw_template(tera: &mut Tera, name: &str, source: &str) -> (r: Result<
    (),
    tera::Error,
>)
    ensures
        r is Ok <==> tera_accepts(tera_templates(*old(tera)), name@, source@),
        r is Ok ==> tera_templates(*final(tera)) == tera_templates(*old(tera)).insert(
            name@,
            source@,
        ),
        tera_autoescape_suffixes(*final(tera)) == tera_autoescape_suffixes(*old(tera)),
{
    tera.add_raw_template(name, source)
}

/// Renders the template `name` (`Tera::render`).
/// Trusted: text that comes back is one that Tera can render from the
/// templates held, their escaping and the context's variables.
#[verifier::external_body]
fn tera_render(tera: &Tera, name: &str, context: &TeraContext) -> (r: Result<String, tera::Error>)
    ensures
        r matches Ok(s) ==> tera_renders(
            tera_templates(*tera),
            tera_autoescape_suffixes(*tera),
            name@,
            tera_context_data(*context),
            s@,
        ),
{
    tera.render(name, context)
}

/// Renders `template` once, without escaping (`Tera::one_off` with
/// `autoescape` false).
/// Trusted: text that comes back is one that Tera can render from that
/// template and the context's variables.
#[verifier::external_body]
fn tera_one_off(template: &str, context: &TeraContext) -> (r: Result<String, tera::Error>)
    ensures
        r matches Ok(s) ==> tera_renders_once(template@, tera_context_data(*context), s@),
{
    Tera::one_off(template, context, false)
}

/// `null` (`Value::Null`).
#[verifier::external_body]
fn null_value() -> (r: tera::Value)
    ensures
        tera_value_data(r) == JsonData::Null,
{
    tera::Value::Null
}

/// A boolean (`Value::Bool`).
#[verifier::external_body]
fn bool_value(b: bool) -> (r: tera::Value)
    ensures
        tera_value_data(r) == JsonData::Bool(b),
{
    tera::Value::Bool(b)
}

/// A number (`Value::from` a `u64`).
#[verifier::external_body]
fn u64_value(n: u64) -> (r: tera::Value)
    ensures
        tera_value_data(r) == JsonData::Number(n as int),
{
    tera::Value::from(n)
}

/// A string (`Value::String`).
#[verifier::external_body]
fn str_value(s: &str) -> (r: tera::Value)
    ensures
        tera_value_data(r) == JsonData::Str(s@),
{
    tera::Value::String(s.to_string())
}

/// What the values of a sequence hold.
pub open spec fn values_data(s: Seq<tera::Value>) -> Seq<JsonData> {
    s.map_values(|v: tera::Value| tera_value_data(v))
}

/// What the members of a sequence hold, with their keys.
pub open spec fn members_data(s: Seq<(String, tera::Value)>) -> Seq<(Seq<char>, JsonData)> {
    s.map_values(|p: (String, tera::Value)| (p.0@, tera_value_data(p.1)))
}

/// An array (`Value::Array`).
/// Trusted: it holds the items, in order.
#[verifier::external_body]
fn array_value(items: Vec<tera::Value>) -> (r: tera::Value)
    ensures
        tera_value_data(r) == JsonData::Array(values_data(items@)),
{
    tera::Value::Array(items)
}

/// An object of members (`Value::Object` of the members collected into a
/// `Map`, which inserts them in order).
/// Trusted: it holds the members, a later key replacing an earlier one.
#[verifier::external_body]
fn object_value(members: Vec<(String, tera::Value)>) -> (r: tera::Value)
    ensures
        tera_value_data(r) == JsonData::Object(members_map(members_data(members@))),
{
    tera::Value::Object(members.into_iter().collect())
}

/// Makes a Tera context of a value (`Context::from_value`).
/// Trusted: it succeeds exactly on an object, and then holds its members.
#[verifier::external_body]
fn tera_context_from_value(value: tera::Value) -> (r: Result<TeraContext, tera::Error>)
    ensures
        r is Ok <==> tera_value_data(value) is Object,
        r matches Ok(c) ==> tera_context_data(c) == tera_value_data(value)->Object_0,
{
    TeraContext::from_value(value)
}

fn opt_str_value(o: &Option<String>) -> (r: tera::Value)
    ensures
        tera_value_data(r) == opt_text_data(opt_text(*o)),
{
    match o {
        Some(t) => str_value(t.as_str()),
        None => null_value(),
    }
}

fn decimal_value(d: &Dec) -> (r: tera::Value)
    ensures
        tera_value_data(r) == decimal_data(*d),
{
    let t = d.to_text();
    str_value(t.as_str())
}

fn opt_decimal_value(d: &Option<Dec>) -> (r: tera::Value)
    ensures
        tera_value_data(r) == opt_decimal_data(*d),
{
    match d {
        Some(x) => decimal_value(x),
        None => null_value(),
    }
}

fn date_value(d: &Date) -> (r: tera::Value)
    ensures
        tera_value_data(r) == date_data(*d),
{
    let t = d.iso();
    str_value(t.as_str())
}

fn opt_date_value(d: &Option<Date>) -> (r: tera::Value)
    ensures
        tera_value_data(r) == opt_date_data(*d),
{
    match d {
        Some(x) => date_value(x),
        None => null_value(),
    }
}

fn member(key: &str, value: tera::Value) -> (r: (String, tera::Value))
    ensures
        r.0@ == key@,
        r.1 == value,
{
    (String::from_str(key), value)
}

fn invoice_value(v: &InvoiceView) -> (r: tera::Value)
    ensures
        tera_value_data(r) == invoice_data(*v),
{
    let mut m: Vec<(String, tera::Value)> = Vec::new();
    m.push(member("number", u64_value(v.number)));
    m.push(member("date", date_value(&v.date)));
    m.push(member("due_date", opt_date_value(&v.due_date)));
    m.push(member("currency", str_value(v.currency.as_str())));
    m.push(member("payment_terms", opt_str_value(&v.payment_terms)));
    proof {
        assert(members_data(m@) =~= seq![
            ("number"@, JsonData::Number(v.number as int)),
            ("date"@, date_data(v.date)),
            ("due_date"@, opt_date_data(v.due_date)),
            ("currency"@, JsonData::Str(v.currency@)),
            ("payment_terms"@, opt_text_data(opt_text(v.payment_terms))),
        ]);
    }
    object_value(m)
}

fn party_value(v: &PartyView) -> (r: tera::Value)
    ensures
        tera_value_data(r) == party_data(*v),
{
    let mut m: Vec<(String, tera::Value)> = Vec::new();
    m.push(member("name", str_value(v.name.as_str())));
    m.push(member("address", str_value(v.address.as_str())));
    m.push(member("email", opt_str_value(&v.email)));
    m.push(member("phone", opt_str_value(&v.phone)));
    m.push(member("tax_id", opt_str_value(&v.tax_id)));
    proof {
        assert(members_data(m@) =~= seq![
            ("name"@, JsonData::Str(v.name@)),
            ("address"@, JsonData::Str(v.address@)),
            ("email"@, opt_text_data(opt_text(v.email))),
            ("phone"@, opt_text_data(opt_text(v.phone))),
            ("tax_id"@, opt_text_data(opt_text(v.tax_id))),
        ]);
    }
    object_value(m)
}

fn line_value(v: &LineItemView) -> (r: tera::Value)
    ensures
        tera_value_data(r) == line_data(*v),
{
    let mut m: Vec<(String, tera::Value)> = Vec::new();
    m.push(member("description", str_value(v.description.as_str())));
    m.push(member("quantity", decimal_value(&v.quantity)));
    m.push(member("unit_price", decimal_value(&v.unit_price)));
    m.push(member("amount", decimal_value(&v.amount)));
    proof {
        assert(members_data(m@) =~= seq![
            ("description"@, JsonData::Str(v.description@)),
            ("quantity"@, decimal_data(v.quantity)),
            ("unit_price"@, decimal_data(v.unit_price)),
            ("amount"@, decimal_data(v.amount)),
        ]);
    }
    object_value(m)
}

fn totals_value(v: &TotalsView) -> (r: tera::Value)
    ensures
        tera_value_data(r) == totals_data(*v),
{
    let mut m: Vec<(String, tera::Value)> = Vec::new();
    m.push(member("subtotal", decimal_value(&v.subtotal)));
    m.push(member("tax_rate", opt_decimal_value(&v.tax_rate)));
    m.push(member("tax", decimal_value(&v.tax)));
    m.push(member("total", decimal_value(&v.total)));
    m.push(member("has_tax", bool_value(v.has_tax)));
    proof {
        assert(members_data(m@) =~= seq![
            ("subtotal"@, decimal_data(v.subtotal)),
            ("tax_rate"@, opt_decimal_data(v.tax_rate)),
            ("tax"@, decimal_data(v.tax)),
            ("total"@, decimal_data(v.total)),
            ("has_tax"@, JsonData::Bool(v.has_tax)),
        ]);
    }
    object_value(m)
}

fn lines_value(items: &Vec<LineItemView>) -> (r: tera::Value)
    ensures
        tera_value_data(r) == JsonData::Array(lines_data(items@)),
{
    let mut out: Vec<tera::Value> = Vec::new();
    let mut i: usize = 0;
    while i < items.len()
        invariant
            i <= items@.len(),
            out@.len() == i,
            forall|k: int| 0 <= k < i ==> tera_value_data(#[trigger] out@[k]) == line_data(
                items@[k],
            ),
        decreases items.len() - i,
    {
        out.push(line_value(&items[i]));
        i = i + 1;
    }
    proof {
        assert(values_data(out@) =~= lines_data(items@));
    }
    array_value(out)
}

fn notes_value(notes: &Vec<String>) -> (r: tera::Value)
    ensures
        tera_value_data(r) == JsonData::Array(notes_data(notes@)),
{
    let mut out: Vec<tera::Value> = Vec::new();
    let mut i: usize = 0;
    while i < notes.len()
        invariant
            i <= notes@.len(),
            out@.len() == i,
            forall|k: int| 0 <= k < i ==> tera_value_data(#[trigger] out@[k]) == JsonData::Str(
                notes@[k]@,
            ),
        decreases notes.len() - i,
    {
        out.push(str_value(notes[i].as_str()));
        i = i + 1;
    }
    proof {
        assert(values_data(out@) =~= notes_data(notes@));
    }
    array_value(out)
}

/// The Tera context of a template context: each field under its name.
pub fn tera_context(c: &InvoiceTemplateContext) -> (r: TeraContext)
    ensures
        tera_context_data(r) == context_data(*c),
{
    let mut m: Vec<(String, tera::Value)> = Vec::new();
    m.push(member("invoice", invoice_value(&c.invoice)));
    m.push(member("company", party_value(&c.company)));
    m.push(member("client", party_value(&c.client)));
    m.push(member("line_items", lines_value(&c.line_items)));
    m.push(member("totals", totals_value(&c.totals)));
    m.push(member("notes", notes_value(&c.notes)));
    m.push(member("company_slug", str_value(c.company_slug.as_str())));
    m.push(member("invoice_date", str_value(c.invoice_date.as_str())));
    m.push(member("invoice_number", str_value(c.invoice_number.as_str())));
    proof {
        assert(members_data(m@) =~= seq![
            ("invoice"@, invoice_data(c.invoice)),
            ("company"@, party_data(c.company)),
            ("client"@, party_data(c.client)),
            ("line_items"@, JsonData::Array(lines_data(c.line_items@))),
            ("totals"@, totals_data(c.totals)),
            ("notes"@, JsonData::Array(notes_data(c.notes@))),
            ("company_slug"@, JsonData::Str(c.company_slug@)),
            ("invoice_date"@, JsonData::Str(c.invoice_date@)),
            ("invoice_number"@, JsonData::Str(c.invoice_number@)),
        ]);
    }
    let value = object_value(m);
    match tera_context_from_value(value) {
        Ok(context) => context,
        Err(_) => {
            proof {
                assert(false);
            }
            unreached()
        },
    }
}

/// Why an invoice or a filename does not render.
#[derive(Debug)]
pub enum RenderError {
    /// Tera refuses the template file's text.
    Template(tera::Error),
    /// Tera refuses the bundled template.
    BundledTemplate(tera::Error),
    /// Rendering the invoice HTML fails.
    Html(tera::Error),
    /// The output filename template does not render.
    FilenameTemplate(tera::Error),
    /// The rendered filename is refused.
    Filename(FilenameError),
}

/// A Tera instance holding the invoice template, and that template's name.
pub struct Renderer {
    tera: Tera,
    template_name: String,
}

impl Renderer {
    /// The name that the invoice template is registered under.
    pub closed spec fn registered_name(self) -> Seq<char> {
        self.template_name@
    }

    /// The templates that the renderer holds: name to source text.
    pub closed spec fn templates(self) -> Map<Seq<char>, Seq<char>> {
        tera_templates(self.tera)
    }

    /// The name suffixes of the templates whose output is escaped.
    pub closed spec fn escaped_suffixes(self) -> Seq<Seq<char>> {
        tera_autoescape_suffixes(self.tera)
    }

    /// The name that the invoice template is registered under.
    pub fn template_name(&self) -> (r: &str)
        ensures
            r@ == self.registered_name(),
    {
        self.template_name.as_str()
    }
}

/// The name that the invoice template is registered under: `invoice.html` for
/// a template file, `default.html` for the bundled one.
pub open spec fn template_name_for(custom: bool) -> Seq<char> {
    if custom {
        "invoice.html"@
    } else {
        "default.html"@
    }
}

/// The invoice template's text: the template file's, else the bundled one.
pub open spec fn template_source(custom_source: Option<&str>) -> Seq<char> {
    match custom_source {
        Some(s) => s@,
        None => DEFAULT_HTML_TEMPLATE@,
    }
}

/// A Tera instance, with autoescaping off, holding the template file's text
/// (`custom_source`) under `invoice.html`, or the bundled template under
/// `default.html`; refused exactly where Tera does not accept that text.
pub fn build_renderer(custom_source: Option<&str>) -> (r: Result<Renderer, RenderError>)
    ensures
        r is Ok <==> tera_accepts(
            Map::empty(),
            template_name_for(custom_source is Some),
            template_source(custom_source),
        ),
        r matches Ok(rd) ==> {
            &&& rd.registered_name() == template_name_for(custom_source is Some)
            &&& rd.templates() == Map::<Seq<char>, Seq<char>>::empty().insert(
                template_name_for(custom_source is Some),
                template_source(custom_source),
            )
            &&& rd.escaped_suffixes() == Seq::<Seq<char>>::empty()
        },
        r matches Err(e) ==> match custom_source {
            Some(_) => e is Template,
            None => e is BundledTemplate,
        },
{
    let mut tera = tera_default();
    tera_autoescape_off(&mut tera);
    proof {
        reveal_strlit("invoice.html");
        reveal_strlit("default.html");
    }
    match custom_source {
        Some(source) => {
            let name = String::from_str("invoice.html");
            match tera_add_raw_template(&mut tera, name.as_str(), source) {
                Ok(()) => Ok(Renderer { tera, template_name: name }),
                Err(e) => Err(RenderError::Template(e)),
            }
        },
        None => {
            let name = String::from_str("default.html");
            match tera_add_raw_template(&mut tera, name.as_str(), DEFAULT_HTML_TEMPLATE) {
                Ok(()) => Ok(Renderer { tera, template_name: name }),
                Err(e) => Err(RenderError::BundledTemplate(e)),
            }
        },
    }
}

/// Renders the renderer's template with the document's template data; the
/// HTML that comes back is one that Tera renders from that template, its
/// escaping and that data.
pub fn render_invoice_html(renderer: &Renderer, doc: &InvoiceDocument) -> (r: Result<
    String,
    RenderError,
>)
    requires
        context_defined(*doc),
    ensures
        r matches Ok(html) ==> tera_renders(
            renderer.templates(),
            renderer.escaped_suffixes(),
            renderer.registered_name(),
            template_data(*doc),
            html@,
        ),
        r matches Err(e) ==> e is Html,
{
    let context = build_context(doc);
    let tera_context = tera_context(&context);
    proof {
        lemma_template_data(context, *doc);
    }
    match tera_render(&renderer.tera, renderer.template_name.as_str(), &tera_context) {
        Ok(html) => Ok(html),
        Err(e) => Err(RenderError::Html(e)),
    }
}

/// `render_invoice_html`, where the document's arithmetic does not overflow;
/// `None` where it does.
pub fn try_render_invoice_html(renderer: &Renderer, doc: &InvoiceDocument) -> (r: Option<
    Result<String, RenderError>,
>)
    ensures
        r is Some <==> context_defined(*doc),
        r matches Some(Ok(html)) ==> tera_renders(
            renderer.templates(),
            renderer.escaped_suffixes(),
            renderer.registered_name(),
            template_data(*doc),
            html@,
        ),
        r matches Some(Err(e)) ==> e is Html,
{
    match try_build_context(doc) {
        Some(_) => Some(render_invoice_html(renderer, doc)),
        None => None,
    }
}

/// A filename that can stand in a directory: not empty, without whitespace at
/// either end, without `/` or `\`.
pub open spec fn plain_filename(s: Seq<char>) -> bool {
    &&& s.len() > 0
    &&& !is_unicode_whitespace(s[0])
    &&& !is_unicode_whitespace(s.last())
    &&& !s.contains('/')
    &&& !s.contains('\\')
}

/// What rendering the filename template `template` with `data` and checking
/// the text gives: a text that Tera renders, checked by `sanitized`; or
/// Tera's own failure.
pub open spec fn filename_outcome(
    template: Seq<char>,
    data: Map<Seq<char>, JsonData>,
    r: Result<String, RenderError>,
) -> bool {
    match r {
        Ok(s) => exists|t: Seq<char>|
            #[trigger] tera_renders_once(template, data, t) && sanitized(
                t,
                Ok::<String, FilenameError>(s),
            ),
        Err(RenderError::Filename(e)) => exists|t: Seq<char>|
            #[trigger] tera_renders_once(template, data, t) && sanitized(
                t,
                Err::<String, FilenameError>(e),
            ),
        Err(RenderError::FilenameTemplate(_)) => true,
        Err(_) => false,
    }
}

/// Renders the filename template with the document's template data and checks
/// the text with `sanitize_filename`.
pub fn render_output_filename(doc: &InvoiceDocument, filename_template: &str) -> (r: Result<
    String,
    RenderError,
>)
    requires
        context_defined(*doc),
    ensures
        filename_outcome(filename_template@, template_data(*doc), r),
        r matches Ok(s) ==> plain_filename(s@),
{
    let context = build_context(doc);
    let tera_context = tera_context(&context);
    proof {
        lemma_template_data(context, *doc);
    }
    let rendered = match tera_one_off(filename_template, &tera_context) {
        Ok(text) => text,
        Err(e) => {
            return Err(RenderError::FilenameTemplate(e));
        },
    };
    let checked = sanitize_filename(rendered.as_str());
    proof {
        lemma_trim_has_no_outer_whitespace(rendered@);
        assert(tera_renders_once(filename_template@, template_data(*doc), rendered@));
    }
    match checked {
        Ok(name) => Ok(name),
        Err(e) => Err(RenderError::Filename(e)),
    }
}

/// `render_output_filename`, where the document's arithmetic does not
/// overflow; `None` where it does.
pub fn try_render_output_filename(doc: &InvoiceDocument, filename_template: &str) -> (r: Option<
    Result<String, RenderError>,
>)
    ensures
        r is Some <==> context_defined(*doc),
        r matches Some(x) ==> filename_outcome(filename_template@, template_data(*doc), x),
        r matches Some(Ok(s)) ==> plain_filename(s@),
{
    match try_build_context(doc) {
        Some(_) => Some(render_output_filename(doc, filename_template)),
        None => None,
    }
}

/// A context shows the declared currency as it is, and `USD` only where none
/// is declared.
pub proof fn lemma_context_currency(c: InvoiceTemplateContext, doc: InvoiceDocument)
    requires
        shows_document(c, doc),
    ensures
        match doc.invoice.currency {
            Some(cur) => c.invoice.currency@ == cur@,
            None => c.invoice.currency@ == "USD"@,
        },
{
}

/// A context carries the document's number and dates, its notes, the company
/// slug, the compact issue date, the number padded to four digits, one line
/// per document line with that line's amount (declared, else quantity times
/// unit price), the computed subtotal, and `has_tax` exactly where the tax is
/// above zero.
pub proof fn lemma_context_fields(c: InvoiceTemplateContext, doc: InvoiceDocument)
    requires
        context_defined(doc),
        shows_document(c, doc),
    ensures
        c.invoice.number == doc.invoice.number,
        c.invoice.date == doc.invoice.date,
        c.invoice.due_date == doc.invoice.due_date,
        c.company_slug@ == slug_of(doc.company.name@),
        c.invoice_date@ == compact_text(doc.invoice.date@.0, doc.invoice.date@.1, doc.invoice.date@.2),
        c.invoice_number@ == zero_pad(decimal_digits(doc.invoice.number as nat), 4),
        c.line_items@.len() == doc.line_items@.len(),
        forall|i: int| 0 <= i < c.line_items@.len() ==> match doc.line_items@[i].amount {
            Some(a) => (#[trigger] c.line_items@[i]).amount@ == a@,
            None => Some(c.line_items@[i].amount@) == decimal_product(
                doc.line_items@[i].quantity@,
                doc.line_items@[i].unit_price@,
            ),
        },
        Some(c.totals.subtotal@) == subtotal_of(doc),
        c.totals.has_tax == less_value((0int, 0nat), c.totals.tax@),
        c.notes@.len() == doc.notes@.len(),
        forall|i: int| 0 <= i < c.notes@.len() ==> #[trigger] c.notes@[i]@ == doc.notes@[i]@,
{
    assert forall|i: int| 0 <= i < c.line_items@.len() implies match doc.line_items@[i].amount {
        Some(a) => (#[trigger] c.line_items@[i]).amount@ == a@,
        None => Some(c.line_items@[i].amount@) == decimal_product(
            doc.line_items@[i].quantity@,
            doc.line_items@[i].unit_price@,
        ),
    } by {
        assert(shows_line(c.line_items@[i], doc.line_items@[i]));
    }
}

/// A global filename template is used whatever the document says; without
/// one, the document's own template comes before the built-in default.
pub proof fn lemma_global_template_wins(global: Seq<char>, doc: InvoiceDocument)
    ensures
        chosen_template(Some(global), doc) == global,
        doc.output.filename matches Some(f) ==> chosen_template(None, doc) == f@,
        doc.output.filename is None ==> chosen_template(None, doc) == DEFAULT_FILENAME_TEMPLATE@,
{
}

/// A rendered filename is accepted exactly when, trimmed, it is not empty and
/// holds neither `/` nor `\`; it is then kept as trimmed, unchanged otherwise.
pub proof fn lemma_plain_names_are_kept(name: Seq<char>, r: Result<String, FilenameError>)
    requires
        sanitized(name, r),
    ensures
        r is Ok <==> (trim_spec(name).len() > 0 && !trim_spec(name).contains('/')
            && !trim_spec(name).contains('\\')),
        r matches Ok(s) ==> s@ == trim_spec(name),
{
}

/// For a document that passes validation, the context that it renders with is
/// consistent: every line amount has the value of `quantity * unit_price`, the
/// tax has the value that the rate gives, and the total has the value of
/// subtotal plus tax.
pub proof fn lemma_valid_context_is_consistent(doc: InvoiceDocument, c: InvoiceTemplateContext)
    requires
        passes(validation_outcome(doc)),
        context_defined(doc),
        shows_document(c, doc),
    ensures
        forall|i: int| 0 <= i < c.line_items@.len() ==> {
            let item = #[trigger] c.line_items@[i];
            &&& decimal_product(item.quantity@, item.unit_price@) is Some
            &&& same_value(item.amount@, decimal_product(item.quantity@, item.unit_price@).unwrap())
        },
        same_value(c.totals.tax@, rated_tax(doc, c.totals.subtotal@).unwrap()),
        decimal_sum(c.totals.subtotal@, c.totals.tax@) is Some,
        same_value(c.totals.total@, decimal_sum(c.totals.subtotal@, c.totals.tax@).unwrap()),
{
    lemma_valid_document_is_consistent(doc);
    lemma_total_is_subtotal_plus_tax(doc);
    assert forall|i: int| 0 <= i < c.line_items@.len() implies {
        let item = #[trigger] c.line_items@[i];
        &&& decimal_product(item.quantity@, item.unit_price@) is Some
        &&& same_value(item.amount@, decimal_product(item.quantity@, item.unit_price@).unwrap())
    } by {
        let item = c.line_items@[i];
        let source = doc.line_items@[i];
        assert(shows_line(item, source));
        assert(line_is_consistent(source));
        let v = item.amount@;
        assert(v.0 * pow10(v.1) == v.0 * pow10(v.1));
    }
    let t = c.totals.tax@;
    assert(t.0 * pow10(t.1) == t.0 * pow10(t.1));
}

} // verus!
