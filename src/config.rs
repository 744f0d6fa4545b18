//! Static configuration: camera index, tag family, transport settings.

use vstd::prelude::*;
use apriltag::Family;

verus! {

#[verifier::external_type_specification]
#[verifier::external_body]
pub struct ExFamily(Family);

#[verifier::external_type_specification]
#[verifier::external_body]
pub struct ExAprilTagError(apriltag::Error);

/// The tag families that the detector can be built for.
#[derive(Clone, Copy, Debug, PartialEq, Eq, Default)]
pub enum AprilTagFamily {
    #[default]
    Tag16H5,
    Tag25H9,
    Tag36H11,
    TagCircle21H7,
    TagCircle49h12,
    TagStandard41h12,
    TagStandard52h13,
    TagCustom48h12,
}

/// The detector's name for a family.
pub open spec fn family_name(f: AprilTagFamily) -> Seq<char> {
    match f {
        AprilTagFamily::Tag16H5 => "tag16h5"@,
        AprilTagFamily::Tag25H9 => "tag25h9"@,
        AprilTagFamily::Tag36H11 => "tag36h11"@,
        AprilTagFamily::TagCircle21H7 => "tagCircle21h7"@,
        AprilTagFamily::TagCircle49h12 => "tagCircle49h12"@,
        AprilTagFamily::TagStandard41h12 => "tagStandard41h12"@,
        AprilTagFamily::TagStandard52h13 => "tagStandard52h13"@,
        AprilTagFamily::TagCustom48h12 => "tagCustom48h12"@,
    }
}

/// The family names that the detector library accepts.
pub open spec fn is_family_name(s: Seq<char>) -> bool {
    s == "tag16h5"@ || s == "tag25h9"@ || s == "tag36h11"@ || s == "tagCircle21h7"@ || s
        == "tagCircle49h12"@ || s == "tagStandard41h12"@ || s == "tagStandard52h13"@ || s
        == "tagCustom48h12"@
}

/// Relies on `<apriltag::Family as FromStr>::from_str`: it returns a family
/// for each of the eight supported names and an error for any other text.
#[verifier::external_body]
fn parse_family(name: &str) -> (r: Result<Family, apriltag::Error>)
    ensures
        r.is_ok() <==> is_family_name(name@),
{
    name.parse::<Family>()
}

impl AprilTagFamily {
    /// The detector's name for this family.
    pub fn name(&self) -> (r: &'static str)
        ensures
            r@ == family_name(*self),
    {
        match self {
            AprilTagFamily::Tag16H5 => "tag16h5",
            AprilTagFamily::Tag25H9 => "tag25h9",
            AprilTagFamily::Tag36H11 => "tag36h11",
            AprilTagFamily::TagCircle21H7 => "tagCircle21h7",
            AprilTagFamily::TagCircle49h12 => "tagCircle49h12",
            AprilTagFamily::TagStandard41h12 => "tagStandard41h12",
            AprilTagFamily::TagStandard52h13 => "tagStandard52h13",
            AprilTagFamily::TagCustom48h12 => "tagCustom48h12",
        }
    }

    /// The detector library's family object for this family; every family
    /// of this enum is one that the library supports.
    pub fn to_family(&self) -> Family {
        let parsed = parse_family(self.name());
        parsed.unwrap()
    }
}

/// Which tag family the detector looks for.
#[derive(Clone, Copy, Debug, Default)]
pub struct DetectionConfig {
    pub families: AprilTagFamily,
}

/// Settings of the transports to the robot controller.
#[derive(Clone, Debug, Default)]
pub struct InterfaceConfig {
    /// Address of the remote key/value service.
    pub nt_ip: [u8; 4],
    pub nt_port: u16,
    /// Port that the TCP server listens on.
    pub server_port: u16,
    /// Path of the serial device.
    pub serial_port: String,
}

/// The whole static configuration.
#[derive(Clone, Debug)]
pub struct Config {
    pub camera_index: u32,
    pub detection_config: DetectionConfig,
    pub interface: InterfaceConfig,
}

} // verus!
