//! The migration engine: schema-diff-driven migration of flow data when a
//! category's field set changes, and versioned, idempotent data migrations
//! recorded in a ledger.

use vstd::prelude::*;
use vstd::string::{StrSliceExecFns, StringExecFns};
use crate::errors::StoreError;
use crate::floattext::{dec_val, is_digit, float_text_ok, float_text_trunc, float_text_parses, float_text_truncate};
use crate::models::{Category, CategoryField, CustomField, FieldType, Flow, field_type_eq,
    field_names_unique, custom_field_names_unique, str_eq, wf_category, wf_flow, flow_same};

verus! {

// ---------------------------------------------------------------------------
// Trusted text and number primitives
// ---------------------------------------------------------------------------

/// What str::to_lowercase returns; the result depends on the characters alone.
pub uninterp spec fn lower_of(s: Seq<char>) -> Seq<char>;

/// Relies on str::to_lowercase.
#[verifier::external_body]
fn lower_str(s: &str) -> (r: String)
    ensures
        r@ == lower_of(s@),
{
    s.to_lowercase()
}

/// Whether the text is empty or all Unicode whitespace, as str::trim sees it.
pub uninterp spec fn blank_of(s: Seq<char>) -> bool;

/// Relies on str::trim and str::is_empty.
#[verifier::external_body]
fn is_blank(s: &str) -> (r: bool)
    ensures
        r == blank_of(s@),
{
    s.trim().is_empty()
}

/// The characters are one or more decimal digits.
pub open spec fn dec_digits(s: Seq<char>) -> bool {
    s.len() > 0 && forall|i: int| 0 <= i < s.len() ==> is_digit(#[trigger] s[i])
}

/// What str::parse::<i64> returns: an optional sign followed by decimal
/// digits, rejected when the value leaves the i64 range.
pub open spec fn int_parse_spec(s: Seq<char>) -> Option<i64> {
    let digits = if s.len() > 0 && (s[0] == '+' || s[0] == '-') {
        s.drop_first()
    } else {
        s
    };
    if !dec_digits(digits) {
        None
    } else {
        let v = if s.len() > 0 && s[0] == '-' {
            -dec_val(digits)
        } else {
            dec_val(digits)
        };
        if i64::MIN <= v <= i64::MAX {
            Some(v as i64)
        } else {
            None
        }
    }
}

/// Relies on str::parse::<i64>: accepts an optional sign and decimal digits,
/// fails on anything else and on overflow.
#[verifier::external_body]
fn parse_int(s: &str) -> (r: Option<i64>)
    ensures
        r == int_parse_spec(s@),
{
    s.parse::<i64>().ok()
}

/// The decimal text of an integer: a minus sign for negative values, then
/// digits without leading zeros.
pub open spec fn dec_str_of_nat(v: int) -> Seq<char>
    decreases v,
{
    if v <= 0 {
        seq![]
    } else {
        dec_str_of_nat(v / 10).push((('0' as int + v % 10) as char))
    }
}

/// What i64::to_string returns.
pub open spec fn dec_str_of(i: i64) -> Seq<char> {
    if i == 0 {
        seq!['0']
    } else if i < 0 {
        seq!['-'] + dec_str_of_nat(-(i as int))
    } else {
        dec_str_of_nat(i as int)
    }
}

/// Relies on i64::to_string: the plain decimal rendering.
#[verifier::external_body]
fn int_to_string(i: i64) -> (r: String)
    ensures
        r@ == dec_str_of(i),
{
    i.to_string()
}

/// Whether chrono parses the text with the `%Y-%m-%d` format.
pub uninterp spec fn iso_date_ok(s: Seq<char>) -> bool;

/// Relies on chrono::NaiveDate::parse_from_str with `%Y-%m-%d`.
#[verifier::external_body]
fn is_iso_date(s: &str) -> (r: bool)
    ensures
        r == iso_date_ok(s@),
{
    chrono::NaiveDate::parse_from_str(s, "%Y-%m-%d").is_ok()
}

/// The `YYYY-MM-DD` rendering of a `MM/DD/YYYY` date, when the text parses
/// as one.
pub uninterp spec fn mdy_to_iso(s: Seq<char>) -> Option<Seq<char>>;

/// Relies on chrono::NaiveDate::parse_from_str with `%m/%d/%Y` and
/// NaiveDate::format with `%Y-%m-%d`: parses the US-style date and renders
/// it back in ISO form.
#[verifier::external_body]
fn reformat_mdy_to_iso(s: &str) -> (r: Option<String>)
    ensures
        match r {
            Some(t) => mdy_to_iso(s@) == Some(t@),
            None => mdy_to_iso(s@) is None,
        },
{
    chrono::NaiveDate::parse_from_str(s, "%m/%d/%Y")
        .ok()
        .map(|d| d.format("%Y-%m-%d").to_string())
}

/// Relies on String::push: appends one character.
#[verifier::external_body]
fn push_char(s: &mut String, c: char)
    ensures
        final(s)@ == old(s)@.push(c),
{
    s.push(c);
}

// ---------------------------------------------------------------------------
// Value coercion (schema-diff migration, per-field)
// ---------------------------------------------------------------------------

/// Currency cleaning drops every dollar sign and comma.
pub open spec fn currency_clean(s: Seq<char>) -> Seq<char> {
    s.filter(|c: char| c != '$' && c != ',')
}

/// The dollar signs and commas removed from the text.
fn strip_currency(v: &str) -> (r: String)
    ensures
        r@ == currency_clean(v@),
{
    let n = v.unicode_len();
    let mut out = String::new();
    let mut i: usize = 0;
    proof {
        assert(v@.subrange(0, 0) =~= Seq::<char>::empty());
        assert(Seq::<char>::empty().filter(|c: char| c != '$' && c != ',') =~= Seq::<char>::empty());
    }
    while i < n
        invariant
            n == v@.len(),
            i <= n,
            out@ == v@.subrange(0, i as int).filter(|c: char| c != '$' && c != ','),
        decreases n - i,
    {
        let c = v.get_char(i);
        let ghost prefix = v@.subrange(0, i as int);
        let ghost next_prefix = v@.subrange(0, i + 1);
        proof {
            assert(next_prefix.drop_last() =~= prefix);
            assert(next_prefix.last() == c);
            reveal_with_fuel(Seq::filter, 2);
            assert(next_prefix.filter(|c: char| c != '$' && c != ',')
                == prefix.filter(|c: char| c != '$' && c != ',') + (if c != '$' && c != ',' {
                seq![c]
            } else {
                Seq::<char>::empty()
            }));
        }
        if !(c == '$' || c == ',') {
            push_char(&mut out, c);
            proof {
                assert(out@ =~= next_prefix.filter(|c: char| c != '$' && c != ','));
            }
        } else {
            proof {
                assert(out@ =~= next_prefix.filter(|c: char| c != '$' && c != ','));
            }
        }
        i = i + 1;
    }
    proof {
        assert(v@.subrange(0, n as int) =~= v@);
    }
    out
}

/// What becomes of one stored text value when its field's logical type is
/// (re)declared as `ft`: `Some` keeps the field with that text, `None` drops
/// the field.  Blank values are handled one level up and never reach this.
pub open spec fn coerce_spec(ft: FieldType, v: Seq<char>) -> Option<Seq<char>> {
    match ft {
        FieldType::Integer => if int_parse_spec(v) is Some {
            Some(v)
        } else {
            match float_text_trunc(v) {
                Some(t) => Some(dec_str_of(t)),
                None => None,
            }
        },
        FieldType::Float => if float_text_ok(v) {
            Some(v)
        } else {
            match int_parse_spec(v) {
                Some(i) => Some(dec_str_of(i)),
                None => None,
            }
        },
        FieldType::Currency => if float_text_ok(currency_clean(v)) {
            Some(currency_clean(v))
        } else {
            None
        },
        FieldType::Boolean => if lower_of(v) == "true"@ || lower_of(v) == "1"@ || lower_of(v)
            == "yes"@ || lower_of(v) == "y"@ {
            Some("true"@)
        } else if lower_of(v) == "false"@ || lower_of(v) == "0"@ || lower_of(v) == "no"@
            || lower_of(v) == "n"@ {
            Some("false"@)
        } else {
            None
        },
        FieldType::Date => if iso_date_ok(v) {
            Some(v)
        } else {
            mdy_to_iso(v)
        },
        _ => Some(v),
    }
}

/// Coerce one non-blank stored value into the field's declared type;
/// `None` means the field is dropped from the flow.
pub fn coerce_value(ft: &FieldType, v: &str) -> (r: Option<String>)
    ensures
        match r {
            Some(t) => coerce_spec(*ft, v@) == Some(t@),
            None => coerce_spec(*ft, v@) is None,
        },
{
    match ft {
        FieldType::Integer => {
            if parse_int(v).is_some() {
                Some(v.to_owned())
            } else {
                match float_text_truncate(v) {
                    Some(t) => Some(int_to_string(t)),
                    None => None,
                }
            }
        },
        FieldType::Float => {
            if float_text_parses(v) {
                Some(v.to_owned())
            } else {
                match parse_int(v) {
                    Some(i) => Some(int_to_string(i)),
                    None => None,
                }
            }
        },
        FieldType::Currency => {
            let clean = strip_currency(v);
            if float_text_parses(clean.as_str()) {
                Some(clean)
            } else {
                None
            }
        },
        FieldType::Boolean => {
            let lower = lower_str(v);
            let l = lower.as_str();
            if str_eq(l, "true") || str_eq(l, "1") || str_eq(l, "yes") || str_eq(l, "y") {
                Some(String::from_str("true"))
            } else if str_eq(l, "false") || str_eq(l, "0") || str_eq(l, "no") || str_eq(l, "n") {
                Some(String::from_str("false"))
            } else {
                None
            }
        },
        FieldType::Date => {
            if is_iso_date(v) {
                Some(v.to_owned())
            } else {
                reformat_mdy_to_iso(v)
            }
        },
        _ => Some(v.to_owned()),
    }
}

// ---------------------------------------------------------------------------
// Schema diff
// ---------------------------------------------------------------------------

/// Some field with this name exists.
pub open spec fn has_field(fields: Seq<CategoryField>, name: Seq<char>) -> bool {
    exists|i: int| 0 <= i < fields.len() && fields[i].name@ == name
}

/// The declared type of the named field (unique when field names are unique).
pub open spec fn field_type_of(fields: Seq<CategoryField>, name: Seq<char>) -> FieldType {
    fields[choose|i: int| 0 <= i < fields.len() && fields[i].name@ == name].field_type
}

/// A field was removed, a field was added, or a field's type changed.
pub open spec fn schema_changed(old_f: Seq<CategoryField>, new_f: Seq<CategoryField>) -> bool {
    (exists|i: int| 0 <= i < old_f.len() && !has_field(new_f, (#[trigger] old_f[i]).name@))
        || (exists|i: int| 0 <= i < new_f.len() && !has_field(old_f, (#[trigger] new_f[i]).name@))
        || (exists|i: int, j: int|
        0 <= i < new_f.len() && 0 <= j < old_f.len() && (#[trigger] new_f[i]).name@
            == (#[trigger] old_f[j]).name@ && !field_type_eq(new_f[i].field_type, old_f[j].field_type))
}

/// The index of the field with this name, if any.
fn find_field(fields: &Vec<CategoryField>, name: &str) -> (r: Option<usize>)
    ensures
        match r {
            Some(i) => i < fields@.len() && fields@[i as int].name@ == name@,
            None => !has_field(fields@, name@),
        },
{
    let n = fields.len();
    let mut i: usize = 0;
    while i < n
        invariant
            n == fields@.len(),
            i <= n,
            forall|k: int| 0 <= k < i ==> (#[trigger] fields@[k]).name@ != name@,
        decreases n - i,
    {
        if str_eq(fields[i].name.as_str(), name) {
            return Some(i);
        }
        i = i + 1;
    }
    None
}

/// Whether saving `new_category` over `old_category` must migrate the
/// category's flows: true exactly when a field was added, removed, or had
/// its type changed.
pub fn has_schema_changes(old_category: &Category, new_category: &Category) -> (r: bool)
    requires
        wf_category(*old_category),
        wf_category(*new_category),
    ensures
        r == schema_changed(old_category.fields@, new_category.fields@),
{
    let old_f = &old_category.fields;
    let new_f = &new_category.fields;
    let n_old = old_f.len();
    let n_new = new_f.len();
    let mut i: usize = 0;
    while i < n_old
        invariant
            n_old == old_f@.len(),
            old_f@ == old_category.fields@,
            new_f@ == new_category.fields@,
            i <= n_old,
            forall|k: int| 0 <= k < i ==> has_field(new_f@, (#[trigger] old_f@[k]).name@),
        decreases n_old - i,
    {
        if find_field(new_f, old_f[i].name.as_str()).is_none() {
            return true;
        }
        i = i + 1;
    }
    let mut j: usize = 0;
    while j < n_new
        invariant
            n_new == new_f@.len(),
            old_f@ == old_category.fields@,
            new_f@ == new_category.fields@,
            j <= n_new,
            forall|k: int| 0 <= k < j ==> has_field(old_f@, (#[trigger] new_f@[k]).name@),
        decreases n_new - j,
    {
        if find_field(old_f, new_f[j].name.as_str()).is_none() {
            return true;
        }
        j = j + 1;
    }
    let mut k: usize = 0;
    while k < n_new
        invariant
            n_new == new_f@.len(),
            n_old == old_f@.len(),
            k <= n_new,
            wf_category(*old_category),
            old_f@ == old_category.fields@,
            new_f@ == new_category.fields@,
            forall|a: int, b: int|
                0 <= a < k && 0 <= b < n_old && (#[trigger] new_f@[a]).name@
                    == (#[trigger] old_f@[b]).name@ ==> field_type_eq(
                    new_f@[a].field_type,
                    old_f@[b].field_type,
                ),
        decreases n_new - k,
    {
        match find_field(old_f, new_f[k].name.as_str()) {
            Some(b0) => {
                if !new_f[k].field_type.same(&old_f[b0].field_type) {
                    return true;
                }
                proof {
                    assert(forall|b: int|
                        0 <= b < n_old && (#[trigger] old_f@[b]).name@ == new_f@[k as int].name@
                            ==> b == b0);
                }
            },
            None => {
                return true;
            },
        }
        k = k + 1;
    }
    false
}

// ---------------------------------------------------------------------------
// Flow migration under a schema change
// ---------------------------------------------------------------------------

/// The first value stored under this field name, if any.
pub open spec fn cf_lookup(cf: Seq<CustomField>, name: Seq<char>) -> Option<Seq<char>>
    decreases cf.len(),
{
    if cf.len() == 0 {
        None
    } else if cf[0].name@ == name {
        Some(cf[0].value@)
    } else {
        cf_lookup(cf.drop_first(), name)
    }
}

/// Looking a name up after a push: the old entry wins, the pushed one fills
/// a gap.
pub proof fn lemma_cf_lookup_push(s: Seq<CustomField>, e: CustomField, n: Seq<char>)
    ensures
        cf_lookup(s.push(e), n) == if cf_lookup(s, n) is Some {
            cf_lookup(s, n)
        } else if e.name@ == n {
            Some(e.value@)
        } else {
            None::<Seq<char>>
        },
    decreases s.len(),
{
    if s.len() == 0 {
        assert(s.push(e)[0] == e);
        assert(s.push(e).drop_first() =~= s);
    } else {
        assert(s.push(e)[0] == s[0]);
        assert(s.push(e).drop_first() =~= s.drop_first().push(e));
        lemma_cf_lookup_push(s.drop_first(), e, n);
    }
}

/// A name is absent exactly when no entry carries it.
pub proof fn lemma_cf_lookup_none(s: Seq<CustomField>, n: Seq<char>)
    ensures
        (cf_lookup(s, n) is None) <==> (forall|k: int| 0 <= k < s.len()
            ==> (#[trigger] s[k]).name@ != n),
    decreases s.len(),
{
    if s.len() > 0 {
        lemma_cf_lookup_none(s.drop_first(), n);
        assert(forall|k: int| 0 <= k < s.drop_first().len()
            ==> #[trigger] s.drop_first()[k] == s[k + 1]);
        if s[0].name@ != n && (cf_lookup(s.drop_first(), n) is None) {
            assert forall|k: int| 0 <= k < s.len() implies (#[trigger] s[k]).name@ != n by {
                if k > 0 {
                    assert(s.drop_first()[k - 1].name@ != n);
                }
            }
        }
    }
}

/// What the named custom field holds after migration to the new field set:
/// nothing when the flow never carried it or the field left the schema or
/// its value resists coercion; the untouched value when it is blank; the
/// coerced value otherwise.
pub open spec fn migrated_value(
    fields: Seq<CategoryField>,
    cf: Seq<CustomField>,
    name: Seq<char>,
) -> Option<Seq<char>> {
    match cf_lookup(cf, name) {
        Some(v) => if !has_field(fields, name) {
            None
        } else if blank_of(v) {
            Some(v)
        } else {
            coerce_spec(field_type_of(fields, name), v)
        },
        None => None,
    }
}

/// Rewrite one flow's custom fields to fit a new field set: fields that left
/// the schema are dropped, blank values are kept untouched, and every other
/// value is coerced into the field's new type or dropped.
pub fn migrate_custom_fields(new_fields: &Vec<CategoryField>, cf: &Vec<CustomField>) -> (r: Vec<
    CustomField,
>)
    requires
        field_names_unique(new_fields@),
        custom_field_names_unique(cf@),
    ensures
        custom_field_names_unique(r@),
        forall|n: Seq<char>| #[trigger] cf_lookup(r@, n) == migrated_value(new_fields@, cf@, n),
{
    let n = cf.len();
    let mut out: Vec<CustomField> = Vec::new();
    let mut i: usize = 0;
    proof {
        assert(cf@.take(0) =~= Seq::<CustomField>::empty());
    }
    while i < n
        invariant
            n == cf@.len(),
            i <= n,
            field_names_unique(new_fields@),
            custom_field_names_unique(cf@),
            custom_field_names_unique(out@),
            forall|q: Seq<char>| #[trigger] cf_lookup(out@, q) == migrated_value(
                new_fields@,
                cf@.take(i as int),
                q,
            ),
        decreases n - i,
    {
        let ghost prev = out@;
        let ghost prefix = cf@.take(i as int);
        let ghost next_prefix = cf@.take(i + 1);
        let ghost e = cf@[i as int];
        proof {
            assert(next_prefix =~= prefix.push(e));
            // the entry's name is new to both the prefix and the output
            assert(forall|k: int| 0 <= k < i ==> (#[trigger] cf@[k]).name@ != e.name@);
            lemma_cf_lookup_none(prefix, e.name@);
            assert(cf_lookup(prefix, e.name@) is None);
            assert(cf_lookup(prev, e.name@) is None);
            lemma_cf_lookup_none(prev, e.name@);
        }
        let entry = &cf[i];
        let kept: Option<CustomField> = match find_field(new_fields, entry.name.as_str()) {
            Some(j) => {
                proof {
                    assert(forall|b: int|
                        0 <= b < new_fields@.len() && (#[trigger] new_fields@[b]).name@
                            == e.name@ ==> b == j);
                    assert(field_type_of(new_fields@, e.name@) == new_fields@[j as int].field_type);
                }
                if is_blank(entry.value.as_str()) {
                    Some(CustomField { name: entry.name.clone(), value: entry.value.clone() })
                } else {
                    match coerce_value(&new_fields[j].field_type, entry.value.as_str()) {
                        Some(v) => Some(CustomField { name: entry.name.clone(), value: v }),
                        None => None,
                    }
                }
            },
            None => None,
        };
        match kept {
            Some(new_entry) => {
                let ghost ne = new_entry;
                out.push(new_entry);
                proof {
                    assert(out@ =~= prev.push(ne));
                    assert forall|q: Seq<char>| #[trigger] cf_lookup(out@, q) == migrated_value(
                        new_fields@,
                        next_prefix,
                        q,
                    ) by {
                        lemma_cf_lookup_push(prev, ne, q);
                        lemma_cf_lookup_push(prefix, e, q);
                    }
                    assert(custom_field_names_unique(out@)) by {
                        assert(forall|k: int| 0 <= k < prev.len()
                            ==> (#[trigger] prev[k]).name@ != ne.name@);
                        assert(forall|k: int| 0 <= k < prev.len() ==> #[trigger] out@[k] == prev[k]);
                    }
                }
            },
            None => {
                proof {
                    assert forall|q: Seq<char>| #[trigger] cf_lookup(out@, q) == migrated_value(
                        new_fields@,
                        next_prefix,
                        q,
                    ) by {
                        lemma_cf_lookup_push(prefix, e, q);
                    }
                }
            },
        }
        i = i + 1;
    }
    proof {
        assert(cf@.take(n as int) =~= cf@);
    }
    out
}

/// The migrated flow carries the same identity and data, with its custom
/// fields rewritten to the new schema.
pub open spec fn flow_migrated(new_cat: Category, of: Flow, nf: Flow) -> bool {
    nf.id@ == of.id@ && nf.date@ == of.date@ && nf.amount@ == of.amount@ && nf.category_id@
        == of.category_id@ && nf.description@ == of.description@ && nf.linked_flows.deep_view()
        == of.linked_flows.deep_view() && nf.tax_deductible == of.tax_deductible
        && custom_field_names_unique(nf.custom_fields@) && (forall|n: Seq<char>|
        #[trigger] cf_lookup(nf.custom_fields@, n) == migrated_value(
            new_cat.fields@,
            of.custom_fields@,
            n,
        ))
}

/// Migrate every flow of the saved category to its new field set; flows of
/// other categories are untouched.  Runs only when the schema changed.
pub fn migrate_flows_to_new_category(
    flows: &Vec<Flow>,
    old_category: &Category,
    new_category: &Category,
) -> (r: Vec<Flow>)
    requires
        wf_category(*old_category),
        wf_category(*new_category),
        forall|k: int| 0 <= k < flows@.len() ==> wf_flow(#[trigger] flows@[k]),
    ensures
        r@.len() == flows@.len(),
        forall|k: int| 0 <= k < flows@.len() ==> if (flows@[k].category_id@ == new_category.id@
            && schema_changed(old_category.fields@, new_category.fields@)) {
            flow_migrated(*new_category, flows@[k], #[trigger] r@[k])
        } else {
            flow_same(r@[k], flows@[k])
        },
        forall|k: int| 0 <= k < flows@.len() ==> (#[trigger] r@[k]).id@ == flows@[k].id@
            && r@[k].category_id@ == flows@[k].category_id@,
{
    let changed = has_schema_changes(old_category, new_category);
    let n = flows.len();
    let mut out: Vec<Flow> = Vec::new();
    let mut i: usize = 0;
    while i < n
        invariant
            n == flows@.len(),
            i <= n,
            out@.len() == i,
            changed == schema_changed(old_category.fields@, new_category.fields@),
            wf_category(*old_category),
            wf_category(*new_category),
            forall|k: int| 0 <= k < flows@.len() ==> wf_flow(#[trigger] flows@[k]),
            forall|k: int| 0 <= k < i ==> if (flows@[k].category_id@ == new_category.id@
                && schema_changed(old_category.fields@, new_category.fields@)) {
                flow_migrated(*new_category, flows@[k], #[trigger] out@[k])
            } else {
                flow_same(out@[k], flows@[k])
            },
            forall|k: int| 0 <= k < i ==> (#[trigger] out@[k]).id@ == flows@[k].id@
                && out@[k].category_id@ == flows@[k].category_id@,
        decreases n - i,
    {
        let f = &flows[i];
        if changed && str_eq(f.category_id.as_str(), new_category.id.as_str()) {
            let migrated = migrate_custom_fields(&new_category.fields, &f.custom_fields);
            out.push(
                Flow {
                    id: f.id.clone(),
                    date: f.date.clone(),
                    amount: f.amount.clone(),
                    category_id: f.category_id.clone(),
                    description: f.description.clone(),
                    linked_flows: crate::models::clone_string_vec(&f.linked_flows),
                    custom_fields: migrated,
                    tax_deductible: f.tax_deductible,
                },
            );
        } else {
            out.push(crate::models::clone_flow(f));
        }
        i = i + 1;
    }
    out
}

// ---------------------------------------------------------------------------
// Versioned data migrations
// ---------------------------------------------------------------------------

/// One applied migration, as the ledger records it.
#[derive(Debug, Clone, PartialEq)]
pub struct MigrationRecord {
    pub name: String,
    pub version: i64,
    /// Seconds since the Unix epoch.
    pub applied_at: i64,
}

/// The ledger records this name and version as applied.
pub open spec fn ledger_has(ledger: Seq<MigrationRecord>, name: Seq<char>, version: int) -> bool {
    exists|i: int|
        0 <= i < ledger.len() && (#[trigger] ledger[i]).name@ == name && ledger[i].version
            == version
}

/// The version of the numeric field-type unification migration.
pub const NUMERIC_MIGRATION_VERSION: i64 = 1;

/// Relies on chrono::Utc::now: seconds since the epoch; the value depends on
/// the clock, so nothing is promised of it.
#[verifier::external_body]
fn now_timestamp() -> (r: i64)
{
    chrono::Utc::now().timestamp()
}

/// Whether the ledger records this migration.
fn ledger_contains(ledger: &Vec<MigrationRecord>, name: &str, version: i64) -> (r: bool)
    ensures
        r == ledger_has(ledger@, name@, version as int),
{
    let n = ledger.len();
    let mut i: usize = 0;
    while i < n
        invariant
            n == ledger@.len(),
            i <= n,
            forall|k: int| 0 <= k < i ==> !((#[trigger] ledger@[k]).name@ == name@
                && ledger@[k].version == version),
        decreases n - i,
    {
        if str_eq(ledger[i].name.as_str(), name) && ledger[i].version == version {
            return true;
        }
        i = i + 1;
    }
    false
}

/// The deprecated `Number` alias collapses to `Float`; everything else keeps
/// its type.
pub open spec fn normalize_type(t: FieldType) -> FieldType {
    match t {
        FieldType::Number => FieldType::Float,
        _ => t,
    }
}

/// The field with its type normalized and everything else kept.
pub open spec fn field_normalized(n: CategoryField, o: CategoryField) -> bool {
    n.name@ == o.name@ && n.required == o.required && crate::models::opt_str_eq(
        n.default_value,
        o.default_value,
    ) && field_type_eq(n.field_type, normalize_type(o.field_type))
}

/// The category with every `Number` field collapsed to `Float` and
/// everything else kept.
pub open spec fn category_normalized(n: Category, o: Category) -> bool {
    n.id@ == o.id@ && n.name@ == o.name@ && n.flow_type == o.flow_type
        && crate::models::opt_str_eq(n.parent_id, o.parent_id) && n.tax_deduction
        == o.tax_deduction && n.fields@.len() == o.fields@.len() && (forall|j: int|
        0 <= j < n.fields@.len() ==> field_normalized(#[trigger] n.fields@[j], o.fields@[j]))
}

/// No field anywhere still carries the deprecated `Number` type.
pub open spec fn no_number_fields(cats: Seq<Category>) -> bool {
    forall|i: int, j: int|
        0 <= i < cats.len() && 0 <= j < (#[trigger] cats[i]).fields@.len() ==> !((
        #[trigger] cats[i].fields@[j]).field_type matches FieldType::Number)
}

/// Collapse the deprecated `Number` field type to `Float` across every
/// category; nothing else changes.
pub fn convert_number_to_float(categories: &Vec<Category>) -> (r: Vec<Category>)
    ensures
        r@.len() == categories@.len(),
        forall|i: int| 0 <= i < r@.len() ==> category_normalized(
            #[trigger] r@[i],
            categories@[i],
        ),
        no_number_fields(r@),
{
    let n = categories.len();
    let mut out: Vec<Category> = Vec::new();
    let mut i: usize = 0;
    while i < n
        invariant
            n == categories@.len(),
            i <= n,
            out@.len() == i,
            forall|k: int| 0 <= k < i ==> category_normalized(
                #[trigger] out@[k],
                categories@[k],
            ),
            forall|k: int, j: int|
                0 <= k < i && 0 <= j < (#[trigger] out@[k]).fields@.len() ==> !((
                #[trigger] out@[k].fields@[j]).field_type matches FieldType::Number),
        decreases n - i,
    {
        let c = &categories[i];
        let m = c.fields.len();
        let mut fields: Vec<CategoryField> = Vec::new();
        let mut j: usize = 0;
        while j < m
            invariant
                m == c.fields@.len(),
                j <= m,
                fields@.len() == j,
                forall|k: int| 0 <= k < j ==> field_normalized(
                    #[trigger] fields@[k],
                    c.fields@[k],
                ),
                forall|k: int| 0 <= k < j ==> !((#[trigger] fields@[k]).field_type
                    matches FieldType::Number),
            decreases m - j,
        {
            let of = &c.fields[j];
            let new_type = match &of.field_type {
                FieldType::Number => FieldType::Float,
                other => crate::models::clone_field_type(other),
            };
            fields.push(
                CategoryField {
                    name: of.name.clone(),
                    field_type: new_type,
                    required: of.required,
                    default_value: crate::models::clone_opt_string(&of.default_value),
                },
            );
            j = j + 1;
        }
        out.push(
            Category {
                id: c.id.clone(),
                name: c.name.clone(),
                flow_type: if c.flow_type == crate::models::FlowType::Income {
                    crate::models::FlowType::Income
                } else {
                    crate::models::FlowType::Expense
                },
                parent_id: crate::models::clone_opt_string(&c.parent_id),
                fields,
                tax_deduction: crate::models::TaxDeductionInfo {
                    deduction_allowed: c.tax_deduction.deduction_allowed,
                    default_value: c.tax_deduction.default_value,
                },
            },
        );
        i = i + 1;
    }
    out
}

/// The post-condition validator of the numeric migration: no `Number` field
/// may remain anywhere.
pub fn validate_migration(categories: &Vec<Category>) -> (r: bool)
    ensures
        r == no_number_fields(categories@),
{
    let n = categories.len();
    let mut i: usize = 0;
    while i < n
        invariant
            n == categories@.len(),
            i <= n,
            forall|k: int, j: int|
                0 <= k < i && 0 <= j < (#[trigger] categories@[k]).fields@.len() ==> !((
                #[trigger] categories@[k].fields@[j]).field_type matches FieldType::Number),
        decreases n - i,
    {
        let m = categories[i].fields.len();
        let mut j: usize = 0;
        while j < m
            invariant
                i < n,
                n == categories@.len(),
                m == categories@[i as int].fields@.len(),
                j <= m,
                forall|k: int| 0 <= k < j ==> !((
                #[trigger] categories@[i as int].fields@[k]).field_type
                    matches FieldType::Number),
            decreases m - j,
        {
            if matches!(&categories[i].fields[j].field_type, FieldType::Number) {
                return false;
            }
            j = j + 1;
        }
        i = i + 1;
    }
    true
}

/// Run every versioned migration not yet in the ledger.  The one known
/// migration collapses the deprecated `Number` field type to `Float`; its
/// name and version are recorded so that a second run changes nothing, and
/// the ledger only advances when the validator accepts the migrated data.
pub fn run_migrations(categories: &mut Vec<Category>, ledger: &mut Vec<MigrationRecord>) -> (r:
    Result<(), StoreError>)
    ensures
        r is Ok,
        ledger_has(final(ledger)@, "convert_number_to_float"@, NUMERIC_MIGRATION_VERSION as int),
        ledger_has(old(ledger)@, "convert_number_to_float"@, NUMERIC_MIGRATION_VERSION as int)
            ==> final(categories)@ == old(categories)@ && final(ledger)@ == old(ledger)@,
        !ledger_has(old(ledger)@, "convert_number_to_float"@, NUMERIC_MIGRATION_VERSION as int)
            ==> final(categories)@.len() == old(categories)@.len() && (forall|i: int|
            0 <= i < final(categories)@.len() ==> category_normalized(
                #[trigger] final(categories)@[i],
                old(categories)@[i],
            )) && no_number_fields(final(categories)@)
            && final(ledger)@.len() == old(ledger)@.len() + 1
            && final(ledger)@.take(old(ledger)@.len() as int) == old(ledger)@
            && final(ledger)@.last().name@ == "convert_number_to_float"@
            && final(ledger)@.last().version == NUMERIC_MIGRATION_VERSION,
{
    let name = "convert_number_to_float";
    if ledger_contains(ledger, name, NUMERIC_MIGRATION_VERSION) {
        return Ok(());
    }
    let migrated = convert_number_to_float(categories);
    if !validate_migration(&migrated) {
        // Unreachable: the conversion leaves no `Number` field behind, and
        // an unvalidated migration must never advance the ledger.
        return Err(StoreError::MigrationValidationFailed);
    }
    *categories = migrated;
    let ghost before = ledger@;
    ledger.push(
        MigrationRecord {
            name: String::from_str(name),
            version: NUMERIC_MIGRATION_VERSION,
            applied_at: now_timestamp(),
        },
    );
    proof {
        assert(ledger@.take(before.len() as int) =~= before);
        assert(ledger@.last().name@ == "convert_number_to_float"@);
    }
    Ok(())
}

} // verus!
