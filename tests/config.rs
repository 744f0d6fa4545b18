use vision_link::calibration::{flatten_each_exact, flatten_exact, flatten_rows};
use vision_link::config::{AprilTagFamily, DetectionConfig};
use vision_link::errors::{ServerConfigError, ServerError};

const ALL: [AprilTagFamily; 8] = [
    AprilTagFamily::Tag16H5,
    AprilTagFamily::Tag25H9,
    AprilTagFamily::Tag36H11,
    AprilTagFamily::TagCircle21H7,
    AprilTagFamily::TagCircle49h12,
    AprilTagFamily::TagStandard41h12,
    AprilTagFamily::TagStandard52h13,
    AprilTagFamily::TagCustom48h12,
];

#[test]
fn family_names() {
    let names: Vec<&str> = ALL.iter().map(|f| f.name()).collect();
    assert_eq!(
        names,
        vec![
            "tag16h5",
            "tag25h9",
            "tag36h11",
            "tagCircle21h7",
            "tagCircle49h12",
            "tagStandard41h12",
            "tagStandard52h13",
            "tagCustom48h12"
        ]
    );
    assert_eq!(DetectionConfig::default().families, AprilTagFamily::Tag16H5);
}

#[test]
fn every_family_builds_a_detector_family() {
    for f in ALL {
        let _family = f.to_family();
    }
}

#[test]
fn flatten_concatenates_rows() {
    assert_eq!(flatten_rows(&vec![vec![1, 2], vec![], vec![3]]), vec![1, 2, 3]);
    assert_eq!(flatten_rows::<u8>(&vec![]), Vec::<u8>::new());
    assert_eq!(flatten_rows(&vec![vec![0.5f64], vec![-1.0, 2.0]]), vec![0.5, -1.0, 2.0]);
}

#[test]
fn flatten_exact_checks_the_count() {
    assert_eq!(flatten_exact(&vec![vec![1.0f64], vec![2.0], vec![3.0]], 3), Ok(vec![1.0, 2.0, 3.0]));
    assert_eq!(flatten_exact(&vec![vec![1, 2, 3, 4]], 3), Err(4));
    assert_eq!(flatten_exact(&vec![vec![1, 2, 3], vec![4, 5, 6], vec![7, 8, 9]], 9).map(|v| v.len()), Ok(9));
}

#[test]
fn flatten_each_reports_first_bad_count() {
    let good = vec![vec![vec![1, 2, 3]], vec![vec![4], vec![5], vec![6]]];
    assert_eq!(flatten_each_exact(&good, 3), Ok(vec![vec![1, 2, 3], vec![4, 5, 6]]));
    let bad = vec![vec![vec![1, 2, 3]], vec![vec![4, 5]], vec![vec![1, 2, 3, 4, 5]]];
    assert_eq!(flatten_each_exact(&bad, 3), Err(2));
    assert_eq!(flatten_each_exact::<u8>(&vec![], 3), Ok(vec![]));
}

#[test]
fn server_error_messages() {
    assert_eq!(ServerError::BindFailed.message(), "Server Listener Bind Failed");
    assert_eq!(ServerConfigError::FailedToLoadConfig.message(), "Failed To Load Server Config");
}
