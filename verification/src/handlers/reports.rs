//! The report requests. A month is written as `YYYY-MM`.

use crate::date::spec_parse_month;
use crate::date::Date;
use crate::db::has_report_of;
use crate::db::report_index;
use crate::db::Database;
use crate::entities::Report;
use crate::errors::AppError;
use crate::errors::ErrorView;
use crate::services::reports::report_generated;
use crate::services::reports::ReportsService;
use vstd::prelude::*;

verus! {

/// The body of a request to generate a report.
#[derive(Debug)]
pub struct GenerateReportRequest {
    pub month: String,
}

/// What a month that could not be read is answered with.
pub open spec fn bad_month() -> ErrorView {
    ErrorView::BadRequest("Invalid month format, expected YYYY-MM"@)
}

/// Generates the report of the month of `payload`. A month that cannot be
/// read is a bad request.
pub fn generate_report(db: &mut Database, payload: GenerateReportRequest) -> (r: Result<
    Report,
    AppError,
>)
    requires
        old(db).wf(),
    ensures
        final(db).wf(),
        match spec_parse_month(payload.month@) {
            None => r matches Err(e) && e@ == bad_month() && *final(db) == *old(db),
            Some(month) => report_generated(*old(db), *final(db), month, r),
        },
{
    match Date::parse_month(payload.month.as_str()) {
        Some(month) => ReportsService::new().generate_monthly_report(db, month),
        None => Err(AppError::bad_request("Invalid month format, expected YYYY-MM")),
    }
}

/// All reports.
pub fn list_reports(db: &Database) -> (r: Result<Vec<Report>, AppError>)
    ensures
        r matches Ok(reports) && reports@.len() == db.reports@.len() && forall|i: int|
            0 <= i < reports@.len() ==> (#[trigger] reports@[i])@ == db.reports@[i]@,
{
    ReportsService::new().get_all_reports(db)
}

/// The report of the month written as `month`: a bad request where the
/// month cannot be read, `NotFound` where the month has no report.
pub fn get_report_by_month(db: &Database, month: &str) -> (r: Result<Report, AppError>)
    requires
        db.wf(),
    ensures
        match spec_parse_month(month@) {
            None => r matches Err(e) && e@ == bad_month(),
            Some(first_day) => if has_report_of(db.reports@, first_day) {
                r matches Ok(report) && report@ == db.reports@[report_index(
                    db.reports@,
                    first_day,
                )]@
            } else {
                r matches Err(e) && e.is_not_found("Report not found"@)
            },
        },
{
    match Date::parse_month(month) {
        Some(first_day) => ReportsService::new().get_report_by_month(db, first_day),
        None => Err(AppError::bad_request("Invalid month format, expected YYYY-MM")),
    }
}

} // verus!
