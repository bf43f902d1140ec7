//! Application-level error taxonomy: configuration and startup failures are
//! fatal before the pipeline starts; capture errors wind the pipeline down.

use vstd::prelude::*;

use crate::video_capture::VideoCaptureError;

verus! {

/// Rendered diagnostic for an application-internal error code.
pub open spec fn app_internal_message(typ: int, txt: Seq<char>) -> Seq<char> {
    if typ == 1 {
        "Invalid device identifier"@
    } else if typ == 2 {
        "Video has not been opened"@
    } else if typ == 3 {
        "Bad model format: '"@ + txt + "'"@
    } else if typ == 4 {
        "Bad model version: '"@ + txt + "'"@
    } else if typ == 5 {
        "Bad tracker parameters: '"@ + txt + "'"@
    } else {
        "Undefined VideoCapture error"@
    }
}

#[derive(Debug)]
pub struct AppInternalError {
    pub typ: i16,
    pub txt: String,
}

impl AppInternalError {
    pub fn message(&self) -> (r: String)
        ensures
            r@ == app_internal_message(self.typ as int, self.txt@),
    {
        if self.typ == 1 {
            "Invalid device identifier".to_owned()
        } else if self.typ == 2 {
            "Video has not been opened".to_owned()
        } else if self.typ == 3 {
            let mut s = "Bad model format: '".to_owned();
            s.append(self.txt.as_str());
            s.append("'");
            proof {
                reveal_strlit("'");
                assert(s@ =~= app_internal_message(self.typ as int, self.txt@));
            }
            s
        } else if self.typ == 4 {
            let mut s = "Bad model version: '".to_owned();
            s.append(self.txt.as_str());
            s.append("'");
            proof {
                reveal_strlit("'");
                assert(s@ =~= app_internal_message(self.typ as int, self.txt@));
            }
            s
        } else if self.typ == 5 {
            let mut s = "Bad tracker parameters: '".to_owned();
            s.append(self.txt.as_str());
            s.append("'");
            proof {
                reveal_strlit("'");
                assert(s@ =~= app_internal_message(self.typ as int, self.txt@));
            }
            s
        } else {
            "Undefined VideoCapture error".to_owned()
        }
    }
}

/// Application error: an internal condition or a capture-stage failure.
#[derive(Debug)]
pub enum AppError {
    Internal(AppInternalError),
    VideoError(VideoCaptureError),
}

impl From<AppInternalError> for AppError {
    fn from(e: AppInternalError) -> Self {
        AppError::Internal(e)
    }
}

impl vstd::std_specs::convert::FromSpecImpl<AppInternalError> for AppError {
    open spec fn obeys_from_spec() -> bool {
        true
    }

    open spec fn from_spec(e: AppInternalError) -> Self {
        AppError::Internal(e)
    }
}

impl From<VideoCaptureError> for AppError {
    fn from(e: VideoCaptureError) -> Self {
        AppError::VideoError(e)
    }
}

impl vstd::std_specs::convert::FromSpecImpl<VideoCaptureError> for AppError {
    open spec fn obeys_from_spec() -> bool {
        true
    }

    open spec fn from_spec(e: VideoCaptureError) -> Self {
        AppError::VideoError(e)
    }
}

} // verus!
