use vstd::prelude::*;

use chrono::{Datelike, Timelike};

use crate::dates::Date;
use crate::text::{is_blank, trim};

verus! {

/// The view of an optional text field.
pub open spec fn opt_view(o: Option<String>) -> Option<Seq<char>> {
    match o {
        Some(s) => Some(s@),
        None => None,
    }
}

/// The view of an optional date.
pub open spec fn opt_date(o: Option<Date>) -> Option<(int, int, int)> {
    match o {
        Some(d) => Some(d.triple()),
        None => None,
    }
}

/// What a vulnerability record holds, as mathematical values.
pub struct VulnRecord {
    pub id: Option<int>,
    pub cve_id: Seq<char>,
    pub description: Option<Seq<char>>,
    pub severity: Seq<char>,
    pub impact: Option<Seq<char>>,
    pub mitigation: Option<Seq<char>>,
    pub published_date: Option<(int, int, int)>,
}

/// A catalogued vulnerability, keyed by its business key `cve_id`.
#[derive(Clone, Debug)]
pub struct Vulnerability {
    pub vulnerability_id: Option<i64>,
    pub cve_id: String,
    pub description: Option<String>,
    pub severity: String,
    pub impact: Option<String>,
    pub mitigation: Option<String>,
    pub published_date: Option<Date>,
}

impl View for Vulnerability {
    type V = VulnRecord;

    open spec fn view(&self) -> VulnRecord {
        VulnRecord {
            id: match self.vulnerability_id {
                Some(i) => Some(i as int),
                None => None,
            },
            cve_id: self.cve_id@,
            description: opt_view(self.description),
            severity: self.severity@,
            impact: opt_view(self.impact),
            mitigation: opt_view(self.mitigation),
            published_date: opt_date(self.published_date),
        }
    }
}

/// A copy of an optional text field.
pub fn copy_text(o: &Option<String>) -> (r: Option<String>)
    ensures
        opt_view(r) == opt_view(*o),
{
    match o {
        Some(s) => Some(s.clone()),
        None => None,
    }
}

impl Vulnerability {
    /// A copy of the record.
    pub fn clone_record(&self) -> (r: Vulnerability)
        ensures
            r@ == self@,
    {
        Vulnerability {
            vulnerability_id: self.vulnerability_id,
            cve_id: self.cve_id.clone(),
            description: copy_text(&self.description),
            severity: self.severity.clone(),
            impact: copy_text(&self.impact),
            mitigation: copy_text(&self.mitigation),
            published_date: self.published_date,
        }
    }
}

/// An asset of the robot inventory.
#[derive(Clone, Debug)]
pub struct Robot {
    pub robot_id: Option<i32>,
    pub name: String,
    pub specifications: Option<String>,
    pub manufacturer: Option<String>,
}

impl Robot {
    /// A robot with a name only, not yet stored.
    pub fn new(name: String) -> (r: Robot)
        ensures
            r.robot_id is None,
            r.name@ == name@,
            r.specifications is None,
            r.manufacturer is None,
    {
        Robot { robot_id: None, name, specifications: None, manufacturer: None }
    }

    /// The same robot with its manufacturer set.
    pub fn with_manufacturer(self, manufacturer: String) -> (r: Robot)
        ensures
            r.robot_id == self.robot_id,
            r.name@ == self.name@,
            opt_view(r.specifications) == opt_view(self.specifications),
            opt_view(r.manufacturer) == Some(manufacturer@),
    {
        let mut robot = self;
        robot.manufacturer = Some(manufacturer);
        robot
    }

    /// The same robot with its specifications set.
    pub fn with_specifications(self, specifications: String) -> (r: Robot)
        ensures
            r.robot_id == self.robot_id,
            r.name@ == self.name@,
            opt_view(r.specifications) == Some(specifications@),
            opt_view(r.manufacturer) == opt_view(self.manufacturer),
    {
        let mut robot = self;
        robot.specifications = Some(specifications);
        robot
    }
}

/// A software product, unique by name and vendor.
#[derive(Clone, Debug)]
pub struct SoftwareProduct {
    pub product_id: Option<i32>,
    pub product_name: String,
    pub vendor: String,
    pub description: Option<String>,
}

impl SoftwareProduct {
    /// A product with a name and a vendor, not yet stored.
    pub fn new(name: String, vendor: String) -> (r: SoftwareProduct)
        ensures
            r.product_id is None,
            r.product_name@ == name@,
            r.vendor@ == vendor@,
            r.description is None,
    {
        SoftwareProduct { product_id: None, product_name: name, vendor, description: None }
    }
}

/// A date with a time of day, to the second.
#[derive(PartialEq, Eq, Structural, Clone, Copy, Debug)]
pub struct DateTime {
    pub date: Date,
    pub hour: u32,
    pub minute: u32,
    pub second: u32,
}

impl DateTime {
    /// A valid date and a time of day with hour below 24, minute below 60 and second at
    /// most 60 (a leap second).
    pub open spec fn wf(&self) -> bool {
        self.date.wf() && self.hour < 24 && self.minute < 60 && self.second <= 60
    }
}

/// Relies on chrono::DateTime::from_timestamp to turn the system clock's time since the
/// Unix epoch into a UTC date and time; `None` when the clock reads before 1970 or beyond
/// chrono's range. chrono keeps the second at most 59 and shows a leap second in the
/// sub-second part, which is dropped here.
#[verifier::external_body]
fn now_utc() -> (r: Option<DateTime>)
    ensures
        r matches Some(t) ==> t.wf(),
{
    let since = std::time::SystemTime::now().duration_since(std::time::UNIX_EPOCH).ok()?;
    let secs = i64::try_from(since.as_secs()).ok()?;
    let t = chrono::DateTime::<chrono::Utc>::from_timestamp(secs, since.subsec_nanos())?.naive_utc();
    Some(DateTime {
        date: Date { year: t.year(), month: t.month(), day: t.day() },
        hour: t.hour(),
        minute: t.minute(),
        second: t.second(),
    })
}

/// A released version of a software product, unique by product and version number.
#[derive(Clone, Debug)]
pub struct SoftwareVersion {
    pub version_id: Option<i32>,
    pub product_id: i32,
    pub version_number: String,
    pub release_date: Option<DateTime>,
}

impl SoftwareVersion {
    /// A version of a product, released now (no release date where the clock cannot be
    /// read), not yet stored.
    pub fn new(product_id: i32, version: String) -> (r: SoftwareVersion)
        ensures
            r.version_id is None,
            r.product_id == product_id,
            r.version_number@ == version@,
            r.release_date matches Some(d) ==> d.wf(),
    {
        SoftwareVersion {
            version_id: None,
            product_id,
            version_number: version,
            release_date: now_utc(),
        }
    }
}

/// The two tabs of the catalogue's views.
#[derive(PartialEq, Eq, Structural, Clone, Copy, Debug)]
pub enum Tab {
    Vulnerabilities,
    RobotInventory,
}

/// The field a list is ordered by.
#[derive(PartialEq, Eq, Structural, Clone, Copy, Debug)]
pub enum SortField {
    CVE,
    Severity,
    Date,
    NoSort,
    RobotName,
    Manufacturer,
}

/// The severity a vulnerability list is restricted to.
#[derive(PartialEq, Eq, Structural, Clone, Copy, Debug)]
pub enum FilterSeverity {
    All,
    High,
    Medium,
    Low,
}

/// What a long-running operation is doing.
#[derive(PartialEq, Eq, Structural, Clone, Copy, Debug)]
pub enum OperationType {
    Loading,
    Searching,
    Filtering,
    Exporting,
    AddingRobot,
    UpdatingRobot,
    DeletingRobot,
}

/// Which fields a robot filter text is matched against.
#[derive(PartialEq, Eq, Structural, Clone, Copy, Debug)]
pub enum RobotFilterType {
    All,
    ByManufacturer,
    ByVulnerability,
    BySoftware,
}

/// The text shown for each kind of operation.
pub open spec fn operation_label(op: OperationType) -> Seq<char> {
    match op {
        OperationType::Loading => "Loading data"@,
        OperationType::Searching => "Searching records"@,
        OperationType::Filtering => "Filtering results"@,
        OperationType::Exporting => "Exporting data"@,
        OperationType::AddingRobot => "Adding new robot"@,
        OperationType::UpdatingRobot => "Updating robot"@,
        OperationType::DeletingRobot => "Deleting robot"@,
    }
}

/// The text shown for an operation.
pub fn operation_type_to_string(op: &OperationType) -> (r: &'static str)
    ensures
        r@ == operation_label(*op),
{
    match op {
        OperationType::Loading => "Loading data",
        OperationType::Searching => "Searching records",
        OperationType::Filtering => "Filtering results",
        OperationType::Exporting => "Exporting data",
        OperationType::AddingRobot => "Adding new robot",
        OperationType::UpdatingRobot => "Updating robot",
        OperationType::DeletingRobot => "Deleting robot",
    }
}

/// The fields of the form that adds or edits a robot.
#[derive(Clone, Debug)]
pub struct RobotForm {
    pub name: String,
    pub manufacturer: String,
    pub specifications: String,
    pub software_versions: Vec<String>,
}

/// An empty robot form.
pub fn default_robot_form() -> (r: RobotForm)
    ensures
        r.name@.len() == 0,
        r.manufacturer@.len() == 0,
        r.specifications@.len() == 0,
        r.software_versions@.len() == 0,
{
    RobotForm {
        name: String::new(),
        manufacturer: String::new(),
        specifications: String::new(),
        software_versions: Vec::new(),
    }
}

/// Checks that a robot form names the robot and its manufacturer.
pub fn validate_robot_form(form: &RobotForm) -> (r: Result<(), String>)
    ensures
        is_blank(form.name@) ==> (r matches Err(e) && e@ == "Robot name is required"@),
        !is_blank(form.name@) && is_blank(form.manufacturer@) ==> (r matches Err(e) && e@
            == "Manufacturer is required"@),
        !is_blank(form.name@) && !is_blank(form.manufacturer@) ==> r is Ok,
{
    if trim(form.name.as_str()).unicode_len() == 0 {
        return Err("Robot name is required".to_owned());
    }
    if trim(form.manufacturer.as_str()).unicode_len() == 0 {
        return Err("Manufacturer is required".to_owned());
    }
    Ok(())
}

} // verus!
