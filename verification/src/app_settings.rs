//! Application configuration: the settings the configuration file declares,
//! and their validation into a runnable application description.
//!
//! The configuration file itself is read and deserialized outside the
//! library; the structures here carry the values, and `AppSettings::build`
//! enforces the startup rules (known model format and version, minimum
//! lifetime strictly below the maximum).

use vstd::prelude::*;

use crate::app_error::{AppError, AppInternalError};
use crate::strfmt::{dec_str_int, dec_str_nat, i64_to_string, u64_to_string};

verus! {

#[derive(Debug)]
pub struct ApplicationInfo {
    pub id: String,
}

#[derive(Debug)]
pub struct InputSettings {
    pub video_source: String,
    pub video_source_typ: String,
}

#[derive(Debug)]
pub struct OutputSettings {
    pub enable: bool,
    pub width: i32,
    pub height: i32,
    pub window_name: String,
}

/// Detector configuration. The thresholds are confidences in thousandths.
#[derive(Debug)]
pub struct DetectionSettings {
    pub network_ver: Option<i32>,
    pub network_format: Option<String>,
    pub network_weights: String,
    pub network_cfg: Option<String>,
    pub conf_threshold: u32,
    pub nms_threshold: u32,
    pub net_width: i32,
    pub net_height: i32,
    pub net_classes: Vec<String>,
    pub target_classes: Option<Vec<String>>,
}

#[derive(Debug)]
pub struct TrackingSettings {
    pub delay_seconds: usize,
    pub lifetime_seconds_min: u64,
    pub lifetime_seconds_max: u64,
}

#[derive(Debug)]
pub struct ZoneSettings {
    pub id: String,
    pub geometry: [[i32; 2]; 4],
    pub color_rgb: Option<[u16; 3]>,
}

#[derive(Debug)]
pub struct RedisPublisherSettings {
    pub enable: bool,
    pub host: String,
    pub port: i32,
    pub username: String,
    pub password: String,
    pub db_index: i32,
    pub channel_name: String,
}

#[derive(Debug)]
pub struct PublishersSettings {
    pub redis: Option<RedisPublisherSettings>,
}

/// The model weight formats the detector backend accepts.
#[derive(Clone, Copy, Debug, PartialEq, Eq, Structural)]
pub enum ModelFormat {
    Darknet,
    ONNX,
}

/// The detector model generations the backend accepts.
#[derive(Clone, Copy, Debug, PartialEq, Eq, Structural)]
pub enum ModelVersion {
    V3,
    V4,
    V7,
    V8,
}

/// What an outside case-folding routine returns for a string; the result
/// depends on the characters alone.
pub uninterp spec fn lower_of(s: Seq<char>) -> Seq<char>;

/// Relies on str::to_lowercase: the lowercase form of the string, a function
/// of its characters alone.
#[verifier::external_body]
fn lowercase(s: &str) -> (r: String)
    ensures
        r@ == lower_of(s@),
{
    s.to_lowercase()
}

/// The model format a configuration names: absent means the default, a name
/// is matched case-insensitively, anything else is unknown.
pub open spec fn nn_format_of(d: DetectionSettings) -> Option<ModelFormat> {
    match d.network_format {
        None => Some(ModelFormat::Darknet),
        Some(mf) => if lower_of(mf@) == "darknet"@ {
            Some(ModelFormat::Darknet)
        } else if lower_of(mf@) == "onnx"@ {
            Some(ModelFormat::ONNX)
        } else {
            None
        },
    }
}

/// The model version a configuration names: absent means the default, only
/// the supported generation numbers are known.
pub open spec fn nn_version_of(d: DetectionSettings) -> Option<ModelVersion> {
    match d.network_ver {
        None => Some(ModelVersion::V3),
        Some(v) => if v == 3 {
            Some(ModelVersion::V3)
        } else if v == 4 {
            Some(ModelVersion::V4)
        } else if v == 7 {
            Some(ModelVersion::V7)
        } else if v == 8 {
            Some(ModelVersion::V8)
        } else {
            None
        },
    }
}

impl DetectionSettings {
    /// Resolves the configured model format, or the error naming the unknown
    /// format string.
    pub fn get_nn_format(&self) -> (r: Result<ModelFormat, AppError>)
        ensures
            nn_format_of(*self) matches Some(m) ==> r == Ok::<ModelFormat, AppError>(m),
            nn_format_of(*self) is None ==> (r matches Err(AppError::Internal(e)) && e.typ == 3
                && e.txt@ == self.network_format.unwrap()@),
    {
        match &self.network_format {
            None => Ok(ModelFormat::Darknet),
            Some(mf) => {
                let low = lowercase(mf.as_str());
                if low == "darknet".to_owned() {
                    Ok(ModelFormat::Darknet)
                } else if low == "onnx".to_owned() {
                    Ok(ModelFormat::ONNX)
                } else {
                    Err(AppError::Internal(AppInternalError { typ: 3, txt: mf.clone() }))
                }
            },
        }
    }

    /// Resolves the configured model version, or the error naming the
    /// unsupported generation number.
    pub fn get_nn_version(&self) -> (r: Result<ModelVersion, AppError>)
        ensures
            nn_version_of(*self) matches Some(m) ==> r == Ok::<ModelVersion, AppError>(m),
            nn_version_of(*self) is None ==> (r matches Err(AppError::Internal(e)) && e.typ == 4
                && e.txt@ == dec_str_int(self.network_ver.unwrap() as int)),
    {
        match self.network_ver {
            None => Ok(ModelVersion::V3),
            Some(mv) => {
                if mv == 3 {
                    Ok(ModelVersion::V3)
                } else if mv == 4 {
                    Ok(ModelVersion::V4)
                } else if mv == 7 {
                    Ok(ModelVersion::V7)
                } else if mv == 8 {
                    Ok(ModelVersion::V8)
                } else {
                    Err(
                        AppError::Internal(
                            AppInternalError { typ: 4, txt: i64_to_string(mv as i64) },
                        ),
                    )
                }
            },
        }
    }
}

/// The validated application description: the settings plus the resolved
/// model format and version.
#[derive(Debug)]
pub struct App {
    pub application_info: ApplicationInfo,
    pub input: InputSettings,
    pub output: OutputSettings,
    pub detection: DetectionSettings,
    pub tracking: TrackingSettings,
    pub zones_settings: Option<Vec<ZoneSettings>>,
    pub publishers: Option<PublishersSettings>,
    pub model_format: ModelFormat,
    pub model_version: ModelVersion,
}

#[derive(Debug)]
pub struct AppSettings {
    pub application_info: ApplicationInfo,
    pub input: InputSettings,
    pub output: OutputSettings,
    pub detection: DetectionSettings,
    pub tracking: TrackingSettings,
    pub zones: Option<Vec<ZoneSettings>>,
    pub publishers: Option<PublishersSettings>,
}

/// The diagnostic for a minimum lifetime not strictly below the maximum.
pub open spec fn lifetimes_message(min: u64, max: u64) -> Seq<char> {
    "Incorrect lifetimes. Min: "@ + dec_str_nat(min as nat) + ", Max: "@ + dec_str_nat(max as nat)
}

impl AppSettings {
    /// Validates the settings into a runnable application description: the
    /// model format and version must be known and the minimum lifetime must
    /// be strictly below the maximum.
    pub fn build(self) -> (r: Result<App, AppError>)
        ensures
            nn_format_of(self.detection) is None ==> (r matches Err(AppError::Internal(e))
                && e.typ == 3 && e.txt@ == self.detection.network_format.unwrap()@),
            nn_format_of(self.detection) is Some && nn_version_of(self.detection) is None ==> (
            r matches Err(AppError::Internal(e)) && e.typ == 4 && e.txt@ == dec_str_int(
                self.detection.network_ver.unwrap() as int,
            )),
            nn_format_of(self.detection) is Some && nn_version_of(self.detection) is Some
                && self.tracking.lifetime_seconds_min >= self.tracking.lifetime_seconds_max ==> (
            r matches Err(AppError::Internal(e)) && e.typ == 5 && e.txt@ == lifetimes_message(
                self.tracking.lifetime_seconds_min,
                self.tracking.lifetime_seconds_max,
            )),
            nn_format_of(self.detection) matches Some(mf) ==> nn_version_of(
                self.detection,
            ) matches Some(mv) ==> self.tracking.lifetime_seconds_min
                < self.tracking.lifetime_seconds_max ==> (r matches Ok(app) && app
                == (App {
                application_info: self.application_info,
                input: self.input,
                output: self.output,
                detection: self.detection,
                tracking: self.tracking,
                zones_settings: self.zones,
                publishers: self.publishers,
                model_format: mf,
                model_version: mv,
            })),
    {
        let mf = match self.detection.get_nn_format() {
            Ok(m) => m,
            Err(e) => {
                return Err(e);
            },
        };
        let mv = match self.detection.get_nn_version() {
            Ok(m) => m,
            Err(e) => {
                return Err(e);
            },
        };
        if self.tracking.lifetime_seconds_min >= self.tracking.lifetime_seconds_max {
            let mut txt = "Incorrect lifetimes. Min: ".to_owned();
            let min_str = u64_to_string(self.tracking.lifetime_seconds_min);
            txt.append(min_str.as_str());
            txt.append(", Max: ");
            let max_str = u64_to_string(self.tracking.lifetime_seconds_max);
            txt.append(max_str.as_str());
            proof {
                assert(txt@ =~= lifetimes_message(
                    self.tracking.lifetime_seconds_min,
                    self.tracking.lifetime_seconds_max,
                ));
            }
            return Err(AppError::Internal(AppInternalError { typ: 5, txt }));
        }
        Ok(
            App {
                application_info: self.application_info,
                input: self.input,
                output: self.output,
                detection: self.detection,
                tracking: self.tracking,
                zones_settings: self.zones,
                publishers: self.publishers,
                model_format: mf,
                model_version: mv,
            },
        )
    }
}

} // verus!
