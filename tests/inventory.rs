use vulndb::model::{
    default_robot_form, operation_type_to_string, validate_robot_form, DateTime, OperationType,
    Robot, RobotFilterType, RobotForm, SoftwareProduct, SoftwareVersion, SortField,
};
use vulndb::robots::{
    add_form_software_version, filter_robots, find_robot, form_from_robot, is_form_complete, sort_robots,
    remove_form_software_version, robot_from_form,
};
use vulndb::software::{group_product_rows, to_i32};

fn robots() -> Vec<Robot> {
    let mut a = Robot::new("Arm".to_string()).with_manufacturer("KUKA".to_string());
    a.robot_id = Some(1);
    let mut b = Robot::new("Rover".to_string()).with_specifications("lidar, ROS".to_string());
    b.robot_id = Some(2);
    let mut c = Robot::new("Picker".to_string())
        .with_manufacturer("Fanuc".to_string())
        .with_specifications("vision".to_string());
    c.robot_id = Some(3);
    vec![a, b, c]
}

fn names(v: &[Robot]) -> Vec<String> {
    v.iter().map(|r| r.name.clone()).collect()
}

#[test]
fn robot_builders_set_fields() {
    let r = Robot::new("Arm".to_string())
        .with_manufacturer("KUKA".to_string())
        .with_specifications("6 axes".to_string());
    assert_eq!(r.robot_id, None);
    assert_eq!(r.name, "Arm");
    assert_eq!(r.manufacturer, Some("KUKA".to_string()));
    assert_eq!(r.specifications, Some("6 axes".to_string()));
    let p = SoftwareProduct::new("ROS".to_string(), "OSRF".to_string());
    assert_eq!((p.product_name.as_str(), p.vendor.as_str()), ("ROS", "OSRF"));
    assert!(p.product_id.is_none() && p.description.is_none());
}

#[test]
fn robot_filters_match_the_named_fields() {
    let all = robots();
    assert_eq!(names(&filter_robots(&all, "", RobotFilterType::ByManufacturer)), vec!["Arm", "Rover", "Picker"]);
    assert_eq!(names(&filter_robots(&all, "kuka", RobotFilterType::All)), vec!["Arm"]);
    assert_eq!(names(&filter_robots(&all, "ro", RobotFilterType::All)), vec!["Rover"]);
    assert_eq!(names(&filter_robots(&all, "FAN", RobotFilterType::ByManufacturer)), vec!["Picker"]);
    assert_eq!(names(&filter_robots(&all, "ros", RobotFilterType::BySoftware)), vec!["Rover"]);
    assert_eq!(names(&filter_robots(&all, "vision", RobotFilterType::ByVulnerability)), vec!["Picker"]);
    assert!(filter_robots(&all, "arm", RobotFilterType::ByManufacturer).is_empty());
}

#[test]
fn robot_form_validation() {
    let mut form = default_robot_form();
    assert_eq!(validate_robot_form(&form), Err("Robot name is required".to_string()));
    form.name = "Arm".to_string();
    assert_eq!(validate_robot_form(&form), Err("Manufacturer is required".to_string()));
    form.manufacturer = "  ".to_string();
    assert_eq!(validate_robot_form(&form), Err("Manufacturer is required".to_string()));
    form.manufacturer = "KUKA".to_string();
    assert_eq!(validate_robot_form(&form), Ok(()));
    assert!(!is_form_complete(&form));
    form.specifications = "spec".to_string();
    assert!(is_form_complete(&form));
}

#[test]
fn robot_form_software_list() {
    let mut form: RobotForm = default_robot_form();
    add_form_software_version(&mut form, "1.0".to_string());
    add_form_software_version(&mut form, "1.0".to_string());
    add_form_software_version(&mut form, "  ".to_string());
    add_form_software_version(&mut form, "2.0".to_string());
    assert_eq!(form.software_versions, vec!["1.0".to_string(), "2.0".to_string()]);
    remove_form_software_version(&mut form, 5);
    remove_form_software_version(&mut form, 0);
    assert_eq!(form.software_versions, vec!["2.0".to_string()]);
}

#[test]
fn robot_form_round_trip() {
    let all = robots();
    let i = find_robot(&all, 2).unwrap();
    let form = form_from_robot(&all[i]);
    assert_eq!(form.manufacturer, "");
    assert_eq!(form.specifications, "lidar, ROS");
    let r = robot_from_form(Some(2), &form);
    assert_eq!(r.manufacturer, Some(String::new()));
    assert_eq!(r.name, "Rover");
    assert_eq!(find_robot(&all, 9), None);
}

#[test]
fn operation_labels() {
    assert_eq!(operation_type_to_string(&OperationType::Loading), "Loading data");
    assert_eq!(operation_type_to_string(&OperationType::DeletingRobot), "Deleting robot");
}

fn product(id: i32, name: &str) -> SoftwareProduct {
    let mut p = SoftwareProduct::new(name.to_string(), "Vendor".to_string());
    p.product_id = Some(id);
    p
}

fn version(id: i32, product_id: i32, number: &str) -> SoftwareVersion {
    SoftwareVersion {
        version_id: Some(id),
        product_id,
        version_number: number.to_string(),
        release_date: None::<DateTime>,
    }
}

#[test]
fn product_rows_group_by_product() {
    let rows = vec![
        (product(1, "A"), Some(version(10, 1, "1.0"))),
        (product(1, "A"), Some(version(11, 1, "1.1"))),
        (product(2, "B"), None),
        (product(3, "C"), Some(version(12, 3, "0.1"))),
    ];
    let groups = group_product_rows(&rows);
    assert_eq!(groups.len(), 3);
    assert_eq!(groups[0].1.len(), 2);
    assert_eq!(groups[0].1[1].version_number, "1.1");
    assert!(groups[1].1.is_empty());
    assert_eq!(groups[2].0.product_name, "C");
    assert!(SoftwareVersion::new(1, "2.0".to_string()).release_date.is_some());
}

#[test]
fn identifiers_narrow_to_32_bits() {
    assert_eq!(to_i32(42, "id"), Ok(42));
    assert_eq!(to_i32(-5, "id"), Ok(-5));
    assert_eq!(to_i32(1 << 40, "product id"), Err("Integer overflow for product id".to_string()));
}

#[test]
fn robots_sort_by_name_or_manufacturer() {
    let all = robots();
    assert_eq!(names(&sort_robots(&all, SortField::RobotName, true)), vec!["Arm", "Picker", "Rover"]);
    assert_eq!(names(&sort_robots(&all, SortField::RobotName, false)), vec!["Rover", "Picker", "Arm"]);
    assert_eq!(names(&sort_robots(&all, SortField::Manufacturer, true)), vec!["Rover", "Picker", "Arm"]);
    assert_eq!(names(&sort_robots(&all, SortField::Manufacturer, false)), vec!["Arm", "Picker", "Rover"]);
    assert_eq!(names(&sort_robots(&all, SortField::Severity, true)), vec!["Arm", "Rover", "Picker"]);
}
