//! The report record: one row of the `reports` table.

use vstd::prelude::*;
use crate::mapping::RowMapping;
use crate::statement::bound_value;

verus! {

/// One moderation report. Every field is optional text, and an absent field
/// is distinct from an empty one. The last four are set by the store or
/// derived from `platform_uid`.
#[derive(Debug, Clone, PartialEq, Eq)]
pub struct Report {
    pub uuid: Option<String>,
    pub decision_visibility: Option<String>,
    pub decision_visibility_other: Option<String>,
    pub end_date_visibility_restriction: Option<String>,
    pub decision_monetary: Option<String>,
    pub decision_monetary_other: Option<String>,
    pub end_date_monetary_restriction: Option<String>,
    pub decision_provision: Option<String>,
    pub end_date_service_restriction: Option<String>,
    pub decision_account: Option<String>,
    pub end_date_account_restriction: Option<String>,
    pub account_type: Option<String>,
    pub decision_ground: Option<String>,
    pub decision_ground_reference_url: Option<String>,
    pub illegal_content_legal_ground: Option<String>,
    pub incompatible_content_ground: Option<String>,
    pub incompatible_content_illegal: Option<String>,
    pub category: Option<String>,
    pub category_addition: Option<String>,
    pub category_specification: Option<String>,
    pub category_specification_other: Option<String>,
    pub content_type: Option<String>,
    pub content_type_other: Option<String>,
    pub content_language: Option<String>,
    pub content_date: Option<String>,
    pub application_date: Option<String>,
    pub source_type: Option<String>,
    pub source_identity: Option<String>,
    pub automated_detection: Option<String>,
    pub automated_decision: Option<String>,
    pub platform_name: Option<String>,
    pub platform_uid: Option<String>,
    pub created_at: Option<String>,
    pub report_id: Option<String>,
    pub target_id: Option<String>,
    pub report_type: Option<String>,
}

/// The value that a mapping gives a report field: the value bound for the
/// column of that name.
fn field_from(mapping: &RowMapping, name: &str) -> (value: Option<String>)
    ensures
        value.deep_view() == bound_value(mapping@, name@),
{
    match mapping.get(name) {
        Some(Some(text)) => Some(text),
        _ => None,
    }
}

impl Report {
    /// Whether each field holds what `mapping` binds for the column of the
    /// field's name: the mapped value, or nothing where the name is absent or
    /// maps to no value.
    pub open spec fn reads_from(self, mapping: Map<Seq<char>, Option<Seq<char>>>) -> bool {
        &&& self.uuid.deep_view() == bound_value(mapping, "uuid"@)
        &&& self.decision_visibility.deep_view() == bound_value(mapping, "decision_visibility"@)
        &&& self.decision_visibility_other.deep_view() == bound_value(mapping, "decision_visibility_other"@)
        &&& self.end_date_visibility_restriction.deep_view() == bound_value(mapping, "end_date_visibility_restriction"@)
        &&& self.decision_monetary.deep_view() == bound_value(mapping, "decision_monetary"@)
        &&& self.decision_monetary_other.deep_view() == bound_value(mapping, "decision_monetary_other"@)
        &&& self.end_date_monetary_restriction.deep_view() == bound_value(mapping, "end_date_monetary_restriction"@)
        &&& self.decision_provision.deep_view() == bound_value(mapping, "decision_provision"@)
        &&& self.end_date_service_restriction.deep_view() == bound_value(mapping, "end_date_service_restriction"@)
        &&& self.decision_account.deep_view() == bound_value(mapping, "decision_account"@)
        &&& self.end_date_account_restriction.deep_view() == bound_value(mapping, "end_date_account_restriction"@)
        &&& self.account_type.deep_view() == bound_value(mapping, "account_type"@)
        &&& self.decision_ground.deep_view() == bound_value(mapping, "decision_ground"@)
        &&& self.decision_ground_reference_url.deep_view() == bound_value(mapping, "decision_ground_reference_url"@)
        &&& self.illegal_content_legal_ground.deep_view() == bound_value(mapping, "illegal_content_legal_ground"@)
        &&& self.incompatible_content_ground.deep_view() == bound_value(mapping, "incompatible_content_ground"@)
        &&& self.incompatible_content_illegal.deep_view() == bound_value(mapping, "incompatible_content_illegal"@)
        &&& self.category.deep_view() == bound_value(mapping, "category"@)
        &&& self.category_addition.deep_view() == bound_value(mapping, "category_addition"@)
        &&& self.category_specification.deep_view() == bound_value(mapping, "category_specification"@)
        &&& self.category_specification_other.deep_view() == bound_value(mapping, "category_specification_other"@)
        &&& self.content_type.deep_view() == bound_value(mapping, "content_type"@)
        &&& self.content_type_other.deep_view() == bound_value(mapping, "content_type_other"@)
        &&& self.content_language.deep_view() == bound_value(mapping, "content_language"@)
        &&& self.content_date.deep_view() == bound_value(mapping, "content_date"@)
        &&& self.application_date.deep_view() == bound_value(mapping, "application_date"@)
        &&& self.source_type.deep_view() == bound_value(mapping, "source_type"@)
        &&& self.source_identity.deep_view() == bound_value(mapping, "source_identity"@)
        &&& self.automated_detection.deep_view() == bound_value(mapping, "automated_detection"@)
        &&& self.automated_decision.deep_view() == bound_value(mapping, "automated_decision"@)
        &&& self.platform_name.deep_view() == bound_value(mapping, "platform_name"@)
        &&& self.platform_uid.deep_view() == bound_value(mapping, "platform_uid"@)
        &&& self.created_at.deep_view() == bound_value(mapping, "created_at"@)
        &&& self.report_id.deep_view() == bound_value(mapping, "report_id"@)
        &&& self.target_id.deep_view() == bound_value(mapping, "target_id"@)
        &&& self.report_type.deep_view() == bound_value(mapping, "report_type"@)
    }

    /// The report that one mapped CSV row stands for. Names of the mapping
    /// that are no field of the report are left out.
    pub fn from_mapping(mapping: &RowMapping) -> (report: Report)
        ensures
            report.reads_from(mapping@),
    {
        Report {
            uuid: field_from(mapping, "uuid"),
            decision_visibility: field_from(mapping, "decision_visibility"),
            decision_visibility_other: field_from(mapping, "decision_visibility_other"),
            end_date_visibility_restriction: field_from(mapping, "end_date_visibility_restriction"),
            decision_monetary: field_from(mapping, "decision_monetary"),
            decision_monetary_other: field_from(mapping, "decision_monetary_other"),
            end_date_monetary_restriction: field_from(mapping, "end_date_monetary_restriction"),
            decision_provision: field_from(mapping, "decision_provision"),
            end_date_service_restriction: field_from(mapping, "end_date_service_restriction"),
            decision_account: field_from(mapping, "decision_account"),
            end_date_account_restriction: field_from(mapping, "end_date_account_restriction"),
            account_type: field_from(mapping, "account_type"),
            decision_ground: field_from(mapping, "decision_ground"),
            decision_ground_reference_url: field_from(mapping, "decision_ground_reference_url"),
            illegal_content_legal_ground: field_from(mapping, "illegal_content_legal_ground"),
            incompatible_content_ground: field_from(mapping, "incompatible_content_ground"),
            incompatible_content_illegal: field_from(mapping, "incompatible_content_illegal"),
            category: field_from(mapping, "category"),
            category_addition: field_from(mapping, "category_addition"),
            category_specification: field_from(mapping, "category_specification"),
            category_specification_other: field_from(mapping, "category_specification_other"),
            content_type: field_from(mapping, "content_type"),
            content_type_other: field_from(mapping, "content_type_other"),
            content_language: field_from(mapping, "content_language"),
            content_date: field_from(mapping, "content_date"),
            application_date: field_from(mapping, "application_date"),
            source_type: field_from(mapping, "source_type"),
            source_identity: field_from(mapping, "source_identity"),
            automated_detection: field_from(mapping, "automated_detection"),
            automated_decision: field_from(mapping, "automated_decision"),
            platform_name: field_from(mapping, "platform_name"),
            platform_uid: field_from(mapping, "platform_uid"),
            created_at: field_from(mapping, "created_at"),
            report_id: field_from(mapping, "report_id"),
            target_id: field_from(mapping, "target_id"),
            report_type: field_from(mapping, "report_type"),
        }
    }

    /// The names of the report's fields, in their order: the columns that
    /// the `reports` table has at least.
    pub fn column_names() -> (names: Vec<String>)
        ensures
            names.deep_view() == Report::field_names(),
    {
        let mut names: Vec<String> = Vec::new();
        names.push("uuid".to_owned());
        names.push("decision_visibility".to_owned());
        names.push("decision_visibility_other".to_owned());
        names.push("end_date_visibility_restriction".to_owned());
        names.push("decision_monetary".to_owned());
        names.push("decision_monetary_other".to_owned());
        names.push("end_date_monetary_restriction".to_owned());
        names.push("decision_provision".to_owned());
        names.push("end_date_service_restriction".to_owned());
        names.push("decision_account".to_owned());
        names.push("end_date_account_restriction".to_owned());
        names.push("account_type".to_owned());
        names.push("decision_ground".to_owned());
        names.push("decision_ground_reference_url".to_owned());
        names.push("illegal_content_legal_ground".to_owned());
        names.push("incompatible_content_ground".to_owned());
        names.push("incompatible_content_illegal".to_owned());
        names.push("category".to_owned());
        names.push("category_addition".to_owned());
        names.push("category_specification".to_owned());
        names.push("category_specification_other".to_owned());
        names.push("content_type".to_owned());
        names.push("content_type_other".to_owned());
        names.push("content_language".to_owned());
        names.push("content_date".to_owned());
        names.push("application_date".to_owned());
        names.push("source_type".to_owned());
        names.push("source_identity".to_owned());
        names.push("automated_detection".to_owned());
        names.push("automated_decision".to_owned());
        names.push("platform_name".to_owned());
        names.push("platform_uid".to_owned());
        names.push("created_at".to_owned());
        names.push("report_id".to_owned());
        names.push("target_id".to_owned());
        names.push("report_type".to_owned());
        assert(names.deep_view() == Report::field_names());
        names
    }

    /// The names of the report's fields, in their order.
    pub open spec fn field_names() -> Seq<Seq<char>> {
        seq![
            "uuid"@,
            "decision_visibility"@,
            "decision_visibility_other"@,
            "end_date_visibility_restriction"@,
            "decision_monetary"@,
            "decision_monetary_other"@,
            "end_date_monetary_restriction"@,
            "decision_provision"@,
            "end_date_service_restriction"@,
            "decision_account"@,
            "end_date_account_restriction"@,
            "account_type"@,
            "decision_ground"@,
            "decision_ground_reference_url"@,
            "illegal_content_legal_ground"@,
            "incompatible_content_ground"@,
            "incompatible_content_illegal"@,
            "category"@,
            "category_addition"@,
            "category_specification"@,
            "category_specification_other"@,
            "content_type"@,
            "content_type_other"@,
            "content_language"@,
            "content_date"@,
            "application_date"@,
            "source_type"@,
            "source_identity"@,
            "automated_detection"@,
            "automated_decision"@,
            "platform_name"@,
            "platform_uid"@,
            "created_at"@,
            "report_id"@,
            "target_id"@,
            "report_type"@,
        ]
    }
}

} // verus!
