//! The data model: categories with typed custom fields, and flows.

use vstd::prelude::*;

verus! {

/// Whether a category records money coming in or going out.
#[derive(Debug, Clone, PartialEq, Eq, Structural)]
pub enum FlowType {
    Income,
    Expense,
}

/// Whether flows under a category may be tax deductible, and the default.
#[derive(Debug, Clone, PartialEq, Eq, Structural)]
pub struct TaxDeductionInfo {
    pub deduction_allowed: bool,
    pub default_value: bool,
}

/// The logical type of a custom field.  Values are stored as text regardless
/// of the logical type and validated on write.
#[derive(Debug, Clone, PartialEq)]
pub enum FieldType {
    Text,
    Integer,
    Float,
    Currency,
    Boolean,
    Date,
    Select(Vec<String>),
    /// Deprecated alias of `Float`, kept only so stored rows written before
    /// the numeric unification migration can still be read.
    Number,
}

/// Structural equality of field types; select options compare element-wise.
pub open spec fn field_type_eq(a: FieldType, b: FieldType) -> bool {
    match (a, b) {
        (FieldType::Text, FieldType::Text) => true,
        (FieldType::Integer, FieldType::Integer) => true,
        (FieldType::Float, FieldType::Float) => true,
        (FieldType::Currency, FieldType::Currency) => true,
        (FieldType::Boolean, FieldType::Boolean) => true,
        (FieldType::Date, FieldType::Date) => true,
        (FieldType::Select(x), FieldType::Select(y)) => x.deep_view() == y.deep_view(),
        (FieldType::Number, FieldType::Number) => true,
        _ => false,
    }
}

impl FieldType {
    /// Executable equality, exact with respect to `field_type_eq`.
    pub fn same(&self, other: &FieldType) -> (r: bool)
        ensures
            r == field_type_eq(*self, *other),
    {
        match (self, other) {
            (FieldType::Text, FieldType::Text) => true,
            (FieldType::Integer, FieldType::Integer) => true,
            (FieldType::Float, FieldType::Float) => true,
            (FieldType::Currency, FieldType::Currency) => true,
            (FieldType::Boolean, FieldType::Boolean) => true,
            (FieldType::Date, FieldType::Date) => true,
            (FieldType::Select(x), FieldType::Select(y)) => {
                if x.len() != y.len() {
                    proof {
                        assert(x.deep_view().len() != y.deep_view().len());
                    }
                    return false;
                }
                let n = x.len();
                let mut all_eq = true;
                let mut i: usize = 0;
                while i < n
                    invariant
                        n == x@.len(),
                        n == y@.len(),
                        i <= n,
                        all_eq ==> (forall|k: int| 0 <= k < i ==> x@[k]@ == y@[k]@),
                        !all_eq ==> (exists|k: int| 0 <= k < i && x@[k]@ != y@[k]@),
                    decreases n - i,
                {
                    if !(x[i] == y[i]) {
                        all_eq = false;
                    }
                    i = i + 1;
                }
                proof {
                    if all_eq {
                        assert forall|k: int| 0 <= k < x.deep_view().len()
                            implies x.deep_view()[k] == y.deep_view()[k] by {
                            assert(x@[k]@ == y@[k]@);
                        }
                        assert(x.deep_view() =~= y.deep_view());
                    } else {
                        let k = choose|k: int| 0 <= k < n && x@[k]@ != y@[k]@;
                        assert(x.deep_view()[k] == x@[k]@);
                        assert(y.deep_view()[k] == y@[k]@);
                        assert(x.deep_view() != y.deep_view());
                    }
                }
                all_eq
            },
            (FieldType::Number, FieldType::Number) => true,
            _ => false,
        }
    }
}

/// A custom field of a category: a name, a logical type, whether a value is
/// required, and an optional default (stored as text).
#[derive(Debug, Clone, PartialEq)]
pub struct CategoryField {
    pub name: String,
    pub field_type: FieldType,
    pub required: bool,
    pub default_value: Option<String>,
}

/// Field names are unique within one category.
pub open spec fn field_names_unique(fields: Seq<CategoryField>) -> bool {
    forall|i: int, j: int| 0 <= i < j < fields.len() ==> fields[i].name@ != fields[j].name@
}

/// A category of flows.  Identity is `id`; everything else is mutable.
#[derive(Debug, Clone, PartialEq)]
pub struct Category {
    pub id: String,
    pub name: String,
    pub flow_type: FlowType,
    pub parent_id: Option<String>,
    pub fields: Vec<CategoryField>,
    pub tax_deduction: TaxDeductionInfo,
}

/// A category is well formed when its field names are unique.
pub open spec fn wf_category(c: Category) -> bool {
    field_names_unique(c.fields@)
}

/// Category ids are unique within a store.
pub open spec fn cat_ids_unique(cats: Seq<Category>) -> bool {
    forall|i: int, j: int| 0 <= i < j < cats.len() ==> cats[i].id@ != cats[j].id@
}

/// One named value carried by a flow, stored as text.
#[derive(Debug, Clone, PartialEq)]
pub struct CustomField {
    pub name: String,
    pub value: String,
}

/// Custom-field names are unique within one flow.
pub open spec fn custom_field_names_unique(cf: Seq<CustomField>) -> bool {
    forall|i: int, j: int| 0 <= i < j < cf.len() ==> cf[i].name@ != cf[j].name@
}

/// A single money flow.  `date` is `YYYY-MM-DD` text and `amount` is the
/// decimal text of the stored real value, both exactly as the store keeps
/// them; `linked_flows` is informational and not enforced.
#[derive(Debug, Clone, PartialEq)]
pub struct Flow {
    pub id: String,
    pub date: String,
    pub amount: String,
    pub category_id: String,
    pub description: String,
    pub linked_flows: Vec<String>,
    pub custom_fields: Vec<CustomField>,
    pub tax_deductible: Option<bool>,
}

/// A flow is well formed when its custom-field names are unique.
pub open spec fn wf_flow(f: Flow) -> bool {
    custom_field_names_unique(f.custom_fields@)
}

/// Flow ids are unique within a store.
pub open spec fn flow_ids_unique(flows: Seq<Flow>) -> bool {
    forall|i: int, j: int| 0 <= i < j < flows.len() ==> flows[i].id@ != flows[j].id@
}

/// Text equality of two string slices.
pub fn str_eq(a: &str, b: &str) -> (r: bool)
    ensures
        r == (a@ == b@),
{
    let sa = a.to_owned();
    let sb = b.to_owned();
    sa == sb
}

/// Relies on uuid::Uuid::new_v4: a fresh random id rendered as hyphenated
/// text; nothing is promised of the value.
#[verifier::external_body]
fn new_uuid_string() -> (r: String)
{
    uuid::Uuid::new_v4().to_string()
}

impl Category {
    /// A fresh income category with a random id and no fields.
    pub fn new(name: String) -> (r: Self)
        ensures
            r.name@ == name@,
            r.flow_type == FlowType::Income,
            r.parent_id is None,
            r.fields@.len() == 0,
            !r.tax_deduction.deduction_allowed,
            !r.tax_deduction.default_value,
            wf_category(r),
    {
        Category {
            id: new_uuid_string(),
            name,
            flow_type: FlowType::Income,
            parent_id: None,
            fields: Vec::new(),
            tax_deduction: TaxDeductionInfo { deduction_allowed: false, default_value: false },
        }
    }
}

/// A required text field with no default.
pub open spec fn seed_text_field(f: CategoryField, name: Seq<char>) -> bool {
    f.name@ == name && f.field_type is Text && f.required && f.default_value is None
}

/// A required boolean field defaulting to "false".
pub open spec fn seed_bool_field(f: CategoryField, name: Seq<char>) -> bool {
    f.name@ == name && f.field_type is Boolean && f.required && (f.default_value matches Some(d)
        && d@ == "false"@)
}

/// A required numeric field in the deprecated spelling, with no default.
pub open spec fn seed_number_field(f: CategoryField, name: Seq<char>) -> bool {
    f.name@ == name && f.field_type is Number && f.required && f.default_value is None
}

/// A required select field with exactly these options; the default, when
/// one is set, is among them.
pub open spec fn seed_select_field(
    f: CategoryField,
    name: Seq<char>,
    opts: Seq<Seq<char>>,
    default: Option<Seq<char>>,
) -> bool {
    f.name@ == name && (f.field_type matches FieldType::Select(o) && o.deep_view() == opts)
        && f.required && (match (f.default_value, default) {
        (Some(d), Some(e)) => d@ == e && opts.contains(e),
        (None, None) => true,
        _ => false,
    })
}

/// The seed category for salary, pinned field by field.
pub open spec fn seed_salary(c: Category) -> bool {
    c.id@ == "salary"@
        && c.name@ == "Salary"@
        && c.flow_type == FlowType::Income
        && c.parent_id is None
        && !c.tax_deduction.deduction_allowed
        && !c.tax_deduction.default_value
        && c.fields@.len() == 2
        && seed_text_field(c.fields@[0], "employer"@)
        && seed_select_field(c.fields@[1], "pay_period"@, seq!["Monthly"@, "Bi-weekly"@, "Weekly"@], Some("Monthly"@))
}

/// The seed category for passive income, pinned field by field.
pub open spec fn seed_passive_income(c: Category) -> bool {
    c.id@ == "passive_income"@
        && c.name@ == "Passive Income"@
        && c.flow_type == FlowType::Income
        && c.parent_id is None
        && !c.tax_deduction.deduction_allowed
        && !c.tax_deduction.default_value
        && c.fields@.len() == 2
        && seed_text_field(c.fields@[0], "source"@)
        && seed_select_field(c.fields@[1], "type"@, seq!["Investment"@, "Rental"@, "Royalty"@, "Other"@], None)
}

/// The seed category for taxes paid, pinned field by field.
pub open spec fn seed_taxes_paid(c: Category) -> bool {
    c.id@ == "taxes_paid"@
        && c.name@ == "Taxes Paid"@
        && c.flow_type == FlowType::Expense
        && c.parent_id is None
        && c.tax_deduction.deduction_allowed
        && c.tax_deduction.default_value
        && c.fields@.len() == 2
        && seed_select_field(c.fields@[0], "tax_type"@, seq!["Federal"@, "State"@, "Local"@, "Property"@, "Other"@], None)
        && seed_number_field(c.fields@[1], "tax_year"@)
}

/// The seed category for cash donations, pinned field by field.
pub open spec fn seed_cash_donations(c: Category) -> bool {
    c.id@ == "cash_donations"@
        && c.name@ == "Cash Donations"@
        && c.flow_type == FlowType::Expense
        && c.parent_id is None
        && c.tax_deduction.deduction_allowed
        && c.tax_deduction.default_value
        && c.fields@.len() == 1
        && seed_text_field(c.fields@[0], "recipient"@)
}

/// The seed category for in kind donations, pinned field by field.
pub open spec fn seed_in_kind_donations(c: Category) -> bool {
    c.id@ == "in_kind_donations"@
        && c.name@ == "In-Kind Donations"@
        && c.flow_type == FlowType::Expense
        && c.parent_id is None
        && c.tax_deduction.deduction_allowed
        && c.tax_deduction.default_value
        && c.fields@.len() == 2
        && seed_text_field(c.fields@[0], "recipient"@)
        && seed_text_field(c.fields@[1], "item_description"@)
}

/// The seed category for medical, pinned field by field.
pub open spec fn seed_medical(c: Category) -> bool {
    c.id@ == "medical"@
        && c.name@ == "Medical"@
        && c.flow_type == FlowType::Expense
        && c.parent_id is None
        && c.tax_deduction.deduction_allowed
        && c.tax_deduction.default_value
        && c.fields@.len() == 3
        && seed_text_field(c.fields@[0], "provider"@)
        && seed_select_field(c.fields@[1], "type"@, seq!["Doctor Visit"@, "Prescription"@, "Procedure"@, "Equipment"@, "Other"@], None)
        && seed_bool_field(c.fields@[2], "insurance_covered"@)
}

/// The seed category for dental, pinned field by field.
pub open spec fn seed_dental(c: Category) -> bool {
    c.id@ == "dental"@
        && c.name@ == "Dental"@
        && c.flow_type == FlowType::Expense
        && c.parent_id is None
        && c.tax_deduction.deduction_allowed
        && c.tax_deduction.default_value
        && c.fields@.len() == 3
        && seed_text_field(c.fields@[0], "provider"@)
        && seed_select_field(c.fields@[1], "type"@, seq!["Cleaning"@, "Checkup"@, "Procedure"@, "Orthodontics"@, "Other"@], None)
        && seed_bool_field(c.fields@[2], "insurance_covered"@)
}

/// The seed category for other expense, pinned field by field.
pub open spec fn seed_other_expense(c: Category) -> bool {
    c.id@ == "other_expense"@
        && c.name@ == "Other Expense"@
        && c.flow_type == FlowType::Expense
        && c.parent_id is None
        && c.tax_deduction.deduction_allowed
        && !c.tax_deduction.default_value
        && c.fields@.len() == 2
        && seed_text_field(c.fields@[0], "description"@)
        && seed_bool_field(c.fields@[1], "recurring"@)
}

/// The seed category for other income, pinned field by field.
pub open spec fn seed_other_income(c: Category) -> bool {
    c.id@ == "other_income"@
        && c.name@ == "Other Income"@
        && c.flow_type == FlowType::Income
        && c.parent_id is None
        && !c.tax_deduction.deduction_allowed
        && !c.tax_deduction.default_value
        && c.fields@.len() == 2
        && seed_text_field(c.fields@[0], "source"@)
        && seed_bool_field(c.fields@[1], "recurring"@)
}

/// The whole seed list, every category pinned: any two calls of
/// `get_default_categories` agree on every stored datum.
pub open spec fn default_seed_contents(cats: Seq<Category>) -> bool {
    cats.len() == 9 && seed_salary(cats[0]) && seed_passive_income(cats[1]) && seed_taxes_paid(
        cats[2],
    ) && seed_cash_donations(cats[3]) && seed_in_kind_donations(cats[4]) && seed_medical(cats[5])
        && seed_dental(cats[6]) && seed_other_expense(cats[7]) && seed_other_income(cats[8])
}

/// One seed field, spelled out.
fn seed_field(name: &str, field_type: FieldType, required: bool, default_value: Option<String>) -> (r: CategoryField)
    ensures
        r.name@ == name@,
        r.field_type == field_type,
        r.required == required,
        r.default_value == default_value,
{
    CategoryField { name: name.to_owned(), field_type, required, default_value }
}

/// The pre-defined categories seeded into an empty store: nine categories,
/// each pinned datum for datum, every one well formed.
#[verifier::rlimit(100)]
pub fn get_default_categories() -> (r: Vec<Category>)
    ensures
        r@.len() == 9,
        default_seed_contents(r@),
        forall|i: int| 0 <= i < r@.len() ==> wf_category(#[trigger] r@[i]),
{
    let pay_opts = vec!["Monthly".to_owned(), "Bi-weekly".to_owned(), "Weekly".to_owned()];
    proof {
        assert(pay_opts.deep_view() =~= seq!["Monthly"@, "Bi-weekly"@, "Weekly"@]) by {
            assert(pay_opts.deep_view()[0] == pay_opts@[0]@);
            assert(pay_opts.deep_view()[1] == pay_opts@[1]@);
            assert(pay_opts.deep_view()[2] == pay_opts@[2]@);
        }
    }
    let c0 = Category {
        id: "salary".to_owned(),
        name: "Salary".to_owned(),
        flow_type: FlowType::Income,
        parent_id: None,
        fields: vec![
            seed_field("employer", FieldType::Text, true, None),
            seed_field("pay_period", FieldType::Select(pay_opts), true, Some("Monthly".to_owned())),
        ],
        tax_deduction: TaxDeductionInfo { deduction_allowed: false, default_value: false },
    };
    proof {
        assert(seed_salary(c0));
    }
    let passive_opts = vec!["Investment".to_owned(), "Rental".to_owned(), "Royalty".to_owned(), "Other".to_owned()];
    proof {
        assert(passive_opts.deep_view() =~= seq!["Investment"@, "Rental"@, "Royalty"@, "Other"@]) by {
            assert(passive_opts.deep_view()[0] == passive_opts@[0]@);
            assert(passive_opts.deep_view()[1] == passive_opts@[1]@);
            assert(passive_opts.deep_view()[2] == passive_opts@[2]@);
            assert(passive_opts.deep_view()[3] == passive_opts@[3]@);
        }
    }
    let c1 = Category {
        id: "passive_income".to_owned(),
        name: "Passive Income".to_owned(),
        flow_type: FlowType::Income,
        parent_id: None,
        fields: vec![
            seed_field("source", FieldType::Text, true, None),
            seed_field("type", FieldType::Select(passive_opts), true, None),
        ],
        tax_deduction: TaxDeductionInfo { deduction_allowed: false, default_value: false },
    };
    proof {
        assert(seed_passive_income(c1));
    }
    let tax_opts = vec!["Federal".to_owned(), "State".to_owned(), "Local".to_owned(), "Property".to_owned(), "Other".to_owned()];
    proof {
        assert(tax_opts.deep_view() =~= seq!["Federal"@, "State"@, "Local"@, "Property"@, "Other"@]) by {
            assert(tax_opts.deep_view()[0] == tax_opts@[0]@);
            assert(tax_opts.deep_view()[1] == tax_opts@[1]@);
            assert(tax_opts.deep_view()[2] == tax_opts@[2]@);
            assert(tax_opts.deep_view()[3] == tax_opts@[3]@);
            assert(tax_opts.deep_view()[4] == tax_opts@[4]@);
        }
    }
    let c2 = Category {
        id: "taxes_paid".to_owned(),
        name: "Taxes Paid".to_owned(),
        flow_type: FlowType::Expense,
        parent_id: None,
        fields: vec![
            seed_field("tax_type", FieldType::Select(tax_opts), true, None),
            seed_field("tax_year", FieldType::Number, true, None),
        ],
        tax_deduction: TaxDeductionInfo { deduction_allowed: true, default_value: true },
    };
    proof {
        assert(seed_taxes_paid(c2));
    }
    let c3 = Category {
        id: "cash_donations".to_owned(),
        name: "Cash Donations".to_owned(),
        flow_type: FlowType::Expense,
        parent_id: None,
        fields: vec![
            seed_field("recipient", FieldType::Text, true, None),
        ],
        tax_deduction: TaxDeductionInfo { deduction_allowed: true, default_value: true },
    };
    proof {
        assert(seed_cash_donations(c3));
    }
    let c4 = Category {
        id: "in_kind_donations".to_owned(),
        name: "In-Kind Donations".to_owned(),
        flow_type: FlowType::Expense,
        parent_id: None,
        fields: vec![
            seed_field("recipient", FieldType::Text, true, None),
            seed_field("item_description", FieldType::Text, true, None),
        ],
        tax_deduction: TaxDeductionInfo { deduction_allowed: true, default_value: true },
    };
    proof {
        assert(seed_in_kind_donations(c4));
    }
    let medical_opts = vec!["Doctor Visit".to_owned(), "Prescription".to_owned(), "Procedure".to_owned(), "Equipment".to_owned(), "Other".to_owned()];
    proof {
        assert(medical_opts.deep_view() =~= seq!["Doctor Visit"@, "Prescription"@, "Procedure"@, "Equipment"@, "Other"@]) by {
            assert(medical_opts.deep_view()[0] == medical_opts@[0]@);
            assert(medical_opts.deep_view()[1] == medical_opts@[1]@);
            assert(medical_opts.deep_view()[2] == medical_opts@[2]@);
            assert(medical_opts.deep_view()[3] == medical_opts@[3]@);
            assert(medical_opts.deep_view()[4] == medical_opts@[4]@);
        }
    }
    let c5 = Category {
        id: "medical".to_owned(),
        name: "Medical".to_owned(),
        flow_type: FlowType::Expense,
        parent_id: None,
        fields: vec![
            seed_field("provider", FieldType::Text, true, None),
            seed_field("type", FieldType::Select(medical_opts), true, None),
            seed_field("insurance_covered", FieldType::Boolean, true, Some("false".to_owned())),
        ],
        tax_deduction: TaxDeductionInfo { deduction_allowed: true, default_value: true },
    };
    proof {
        assert(seed_medical(c5));
    }
    let dental_opts = vec!["Cleaning".to_owned(), "Checkup".to_owned(), "Procedure".to_owned(), "Orthodontics".to_owned(), "Other".to_owned()];
    proof {
        assert(dental_opts.deep_view() =~= seq!["Cleaning"@, "Checkup"@, "Procedure"@, "Orthodontics"@, "Other"@]) by {
            assert(dental_opts.deep_view()[0] == dental_opts@[0]@);
            assert(dental_opts.deep_view()[1] == dental_opts@[1]@);
            assert(dental_opts.deep_view()[2] == dental_opts@[2]@);
            assert(dental_opts.deep_view()[3] == dental_opts@[3]@);
            assert(dental_opts.deep_view()[4] == dental_opts@[4]@);
        }
    }
    let c6 = Category {
        id: "dental".to_owned(),
        name: "Dental".to_owned(),
        flow_type: FlowType::Expense,
        parent_id: None,
        fields: vec![
            seed_field("provider", FieldType::Text, true, None),
            seed_field("type", FieldType::Select(dental_opts), true, None),
            seed_field("insurance_covered", FieldType::Boolean, true, Some("false".to_owned())),
        ],
        tax_deduction: TaxDeductionInfo { deduction_allowed: true, default_value: true },
    };
    proof {
        assert(seed_dental(c6));
    }
    let c7 = Category {
        id: "other_expense".to_owned(),
        name: "Other Expense".to_owned(),
        flow_type: FlowType::Expense,
        parent_id: None,
        fields: vec![
            seed_field("description", FieldType::Text, true, None),
            seed_field("recurring", FieldType::Boolean, true, Some("false".to_owned())),
        ],
        tax_deduction: TaxDeductionInfo { deduction_allowed: true, default_value: false },
    };
    proof {
        assert(seed_other_expense(c7));
    }
    let c8 = Category {
        id: "other_income".to_owned(),
        name: "Other Income".to_owned(),
        flow_type: FlowType::Income,
        parent_id: None,
        fields: vec![
            seed_field("source", FieldType::Text, true, None),
            seed_field("recurring", FieldType::Boolean, true, Some("false".to_owned())),
        ],
        tax_deduction: TaxDeductionInfo { deduction_allowed: false, default_value: false },
    };
    proof {
        assert(seed_other_income(c8));
    }
    let cats: Vec<Category> = vec![c0, c1, c2, c3, c4, c5, c6, c7, c8];
    proof {
        assert(default_seed_contents(cats@));
        reveal_strlit("employer");
        reveal_strlit("pay_period");
        reveal_strlit("source");
        reveal_strlit("type");
        reveal_strlit("tax_type");
        reveal_strlit("tax_year");
        reveal_strlit("recipient");
        reveal_strlit("item_description");
        reveal_strlit("provider");
        reveal_strlit("insurance_covered");
        reveal_strlit("description");
        reveal_strlit("recurring");
        assert forall|i: int| 0 <= i < cats@.len() implies wf_category(#[trigger] cats@[i]) by {
            if i == 0 {
                let fs = cats@[0].fields@;
                assert(fs[0].name@ == "employer"@);
                assert(fs[0].name@.len() == 8);
                assert(fs[1].name@ == "pay_period"@);
                assert(fs[1].name@.len() == 10);
                assert(fs[0].name@ != fs[1].name@);
                assert(field_names_unique(fs));
            } else if i == 1 {
                let fs = cats@[1].fields@;
                assert(fs[0].name@ == "source"@);
                assert(fs[0].name@.len() == 6);
                assert(fs[1].name@ == "type"@);
                assert(fs[1].name@.len() == 4);
                assert(fs[0].name@ != fs[1].name@);
                assert(field_names_unique(fs));
            } else if i == 2 {
                let fs = cats@[2].fields@;
                assert(fs[0].name@ == "tax_type"@);
                assert(fs[0].name@.len() == 8);
                assert(fs[1].name@ == "tax_year"@);
                assert(fs[1].name@.len() == 8);
                assert(fs[0].name@[4] == 't' && fs[1].name@[4] == 'y');
                assert(fs[0].name@ != fs[1].name@);
                assert(field_names_unique(fs));
            } else if i == 3 {
                let fs = cats@[3].fields@;
                assert(fs[0].name@ == "recipient"@);
                assert(fs[0].name@.len() == 9);
                assert(field_names_unique(fs));
            } else if i == 4 {
                let fs = cats@[4].fields@;
                assert(fs[0].name@ == "recipient"@);
                assert(fs[0].name@.len() == 9);
                assert(fs[1].name@ == "item_description"@);
                assert(fs[1].name@.len() == 16);
                assert(fs[0].name@ != fs[1].name@);
                assert(field_names_unique(fs));
            } else if i == 5 {
                let fs = cats@[5].fields@;
                assert(fs[0].name@ == "provider"@);
                assert(fs[0].name@.len() == 8);
                assert(fs[1].name@ == "type"@);
                assert(fs[1].name@.len() == 4);
                assert(fs[2].name@ == "insurance_covered"@);
                assert(fs[2].name@.len() == 17);
                assert(fs[0].name@ != fs[1].name@);
                assert(fs[0].name@ != fs[2].name@);
                assert(fs[1].name@ != fs[2].name@);
                assert(field_names_unique(fs));
            } else if i == 6 {
                let fs = cats@[6].fields@;
                assert(fs[0].name@ == "provider"@);
                assert(fs[0].name@.len() == 8);
                assert(fs[1].name@ == "type"@);
                assert(fs[1].name@.len() == 4);
                assert(fs[2].name@ == "insurance_covered"@);
                assert(fs[2].name@.len() == 17);
                assert(fs[0].name@ != fs[1].name@);
                assert(fs[0].name@ != fs[2].name@);
                assert(fs[1].name@ != fs[2].name@);
                assert(field_names_unique(fs));
            } else if i == 7 {
                let fs = cats@[7].fields@;
                assert(fs[0].name@ == "description"@);
                assert(fs[0].name@.len() == 11);
                assert(fs[1].name@ == "recurring"@);
                assert(fs[1].name@.len() == 9);
                assert(fs[0].name@ != fs[1].name@);
                assert(field_names_unique(fs));
            } else {
                let fs = cats@[8].fields@;
                assert(fs[0].name@ == "source"@);
                assert(fs[0].name@.len() == 6);
                assert(fs[1].name@ == "recurring"@);
                assert(fs[1].name@.len() == 9);
                assert(fs[0].name@ != fs[1].name@);
                assert(field_names_unique(fs));
            }
        }
    }
    cats
}

/// View equality of optional texts.
pub open spec fn opt_str_eq(a: Option<String>, b: Option<String>) -> bool {
    match (a, b) {
        (Some(x), Some(y)) => x@ == y@,
        (None, None) => true,
        _ => false,
    }
}

/// The two fields carry the same name, type, requiredness and default.
pub open spec fn field_same(a: CategoryField, b: CategoryField) -> bool {
    a.name@ == b.name@ && field_type_eq(a.field_type, b.field_type) && a.required == b.required
        && opt_str_eq(a.default_value, b.default_value)
}

/// The two categories carry the same data, compared by text views.
pub open spec fn cat_same(a: Category, b: Category) -> bool {
    a.id@ == b.id@ && a.name@ == b.name@ && a.flow_type == b.flow_type && opt_str_eq(
        a.parent_id,
        b.parent_id,
    ) && a.tax_deduction == b.tax_deduction && a.fields@.len() == b.fields@.len() && (forall|j: int|
        0 <= j < a.fields@.len() ==> field_same(#[trigger] a.fields@[j], b.fields@[j]))
}

/// The two flows carry the same data, compared by text views.
pub open spec fn flow_same(a: Flow, b: Flow) -> bool {
    a.id@ == b.id@ && a.date@ == b.date@ && a.amount@ == b.amount@ && a.category_id@
        == b.category_id@ && a.description@ == b.description@ && a.linked_flows.deep_view()
        == b.linked_flows.deep_view() && a.tax_deductible == b.tax_deductible
        && a.custom_fields@.len() == b.custom_fields@.len() && (forall|j: int|
        0 <= j < a.custom_fields@.len() ==> (#[trigger] a.custom_fields@[j]).name@
            == b.custom_fields@[j].name@ && a.custom_fields@[j].value@
            == b.custom_fields@[j].value@)
}

/// An exact copy of a field.
pub fn clone_field(f: &CategoryField) -> (r: CategoryField)
    ensures
        field_same(r, *f),
{
    CategoryField {
        name: f.name.clone(),
        field_type: clone_field_type(&f.field_type),
        required: f.required,
        default_value: clone_opt_string(&f.default_value),
    }
}

/// An exact copy of an optional text.
pub fn clone_opt_string(v: &Option<String>) -> (r: Option<String>)
    ensures
        opt_str_eq(r, *v),
        r is Some <==> v is Some,
{
    match v {
        Some(x) => Some(x.clone()),
        None => None,
    }
}

/// An exact copy of a field type, select options included.
pub fn clone_field_type(t: &FieldType) -> (r: FieldType)
    ensures
        field_type_eq(r, *t),
{
    match t {
        FieldType::Text => FieldType::Text,
        FieldType::Integer => FieldType::Integer,
        FieldType::Float => FieldType::Float,
        FieldType::Currency => FieldType::Currency,
        FieldType::Boolean => FieldType::Boolean,
        FieldType::Date => FieldType::Date,
        FieldType::Select(opts) => {
            let copy = opts.clone();
            proof {
                assert(*t matches FieldType::Select(p) && p == *opts);
                assert forall|j: int| 0 <= j < copy.deep_view().len()
                    implies copy.deep_view()[j] == opts.deep_view()[j] by {
                    assert(cloned::<String>(opts@[j], copy@[j]));
                }
                assert(copy.deep_view() =~= opts.deep_view());
            }
            FieldType::Select(copy)
        },
        FieldType::Number => FieldType::Number,
    }
}

/// An exact copy of a category.
pub fn clone_category(c: &Category) -> (r: Category)
    ensures
        cat_same(r, *c),
{
    let mut fields: Vec<CategoryField> = Vec::new();
    let n = c.fields.len();
    let mut i: usize = 0;
    while i < n
        invariant
            n == c.fields@.len(),
            i <= n,
            fields@.len() == i,
            forall|j: int| 0 <= j < i ==> field_same(#[trigger] fields@[j], c.fields@[j]),
        decreases n - i,
    {
        fields.push(clone_field(&c.fields[i]));
        i = i + 1;
    }
    Category {
        id: c.id.clone(),
        name: c.name.clone(),
        flow_type: if c.flow_type == FlowType::Income {
            FlowType::Income
        } else {
            FlowType::Expense
        },
        parent_id: clone_opt_string(&c.parent_id),
        fields,
        tax_deduction: TaxDeductionInfo {
            deduction_allowed: c.tax_deduction.deduction_allowed,
            default_value: c.tax_deduction.default_value,
        },
    }
}

/// An exact copy of a list of texts.
pub fn clone_string_vec(v: &Vec<String>) -> (r: Vec<String>)
    ensures
        r.deep_view() == v.deep_view(),
        r@.len() == v@.len(),
{
    let mut out: Vec<String> = Vec::new();
    let n = v.len();
    let mut i: usize = 0;
    while i < n
        invariant
            n == v@.len(),
            i <= n,
            out@.len() == i,
            forall|j: int| 0 <= j < i ==> #[trigger] out@[j]@ == v@[j]@,
        decreases n - i,
    {
        out.push(v[i].clone());
        i = i + 1;
    }
    proof {
        assert forall|j: int| 0 <= j < out.deep_view().len()
            implies out.deep_view()[j] == v.deep_view()[j] by {
            assert(out@[j]@ == v@[j]@);
        }
        assert(out.deep_view() =~= v.deep_view());
    }
    out
}

/// An exact copy of a flow.
pub fn clone_flow(f: &Flow) -> (r: Flow)
    ensures
        flow_same(r, *f),
{
    let mut cf: Vec<CustomField> = Vec::new();
    let n = f.custom_fields.len();
    let mut i: usize = 0;
    while i < n
        invariant
            n == f.custom_fields@.len(),
            i <= n,
            cf@.len() == i,
            forall|j: int| 0 <= j < i ==> (#[trigger] cf@[j]).name@ == f.custom_fields@[j].name@
                && cf@[j].value@ == f.custom_fields@[j].value@,
        decreases n - i,
    {
        cf.push(
            CustomField {
                name: f.custom_fields[i].name.clone(),
                value: f.custom_fields[i].value.clone(),
            },
        );
        i = i + 1;
    }
    Flow {
        id: f.id.clone(),
        date: f.date.clone(),
        amount: f.amount.clone(),
        category_id: f.category_id.clone(),
        description: f.description.clone(),
        linked_flows: clone_string_vec(&f.linked_flows),
        custom_fields: cf,
        tax_deductible: f.tax_deductible,
    }
}

/// Field-type equality is transitive.
pub proof fn lemma_field_type_eq_trans(a: FieldType, b: FieldType, c: FieldType)
    requires
        field_type_eq(a, b),
        field_type_eq(b, c),
    ensures
        field_type_eq(a, c),
{
}

/// Carrying the same data is transitive for categories.
pub proof fn lemma_cat_same_trans(a: Category, b: Category, c: Category)
    requires
        cat_same(a, b),
        cat_same(b, c),
    ensures
        cat_same(a, c),
{
    assert forall|j: int| 0 <= j < a.fields@.len() implies field_same(
        #[trigger] a.fields@[j],
        c.fields@[j],
    ) by {
        assert(field_same(a.fields@[j], b.fields@[j]));
        assert(field_same(b.fields@[j], c.fields@[j]));
        lemma_field_type_eq_trans(
            a.fields@[j].field_type,
            b.fields@[j].field_type,
            c.fields@[j].field_type,
        );
    }
}

/// Carrying the same data is transitive for flows.
pub proof fn lemma_flow_same_trans(a: Flow, b: Flow, c: Flow)
    requires
        flow_same(a, b),
        flow_same(b, c),
    ensures
        flow_same(a, c),
{
}

} // verus!
