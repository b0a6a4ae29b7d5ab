//! The request-scoped failures the registry reports.
//!
//! Every failure is recoverable and maps to a client fault: a path that
//! names no device, a malformed instruction dictionary, or a numeric field
//! that fails the grammar.  The variants carry the rejected input for
//! diagnostics; rendering to human-readable text is left to the caller.

use crate::dict::DeviceDict;
use vstd::prelude::*;

verus! {

/// Mathematical shape of a failure.
pub enum ErrorModel {
    /// The `(room, device)` path named no stored device.
    DeviceNotFound { room: Seq<char>, device: Seq<char> },
    /// The instruction dictionary was malformed: a missing key, an unknown
    /// device kind, an unknown state token, or a kind mismatch.  Carries the
    /// rejected dictionary.
    BadDeviceDict { dict: Seq<(Seq<char>, Seq<char>)> },
    /// A numeric field failed the grammar.  Carries the offending text.
    ParseFloatError { text: Seq<char> },
}

/// A failed request: room or device absent, a malformed instruction
/// dictionary, or an unparseable numeric field.
#[derive(Debug)]
pub enum HandleRequestError {
    DeviceNotFound(String, String),
    BadDeviceDict(DeviceDict),
    ParseFloatError(String),
}

impl View for HandleRequestError {
    type V = ErrorModel;

    open spec fn view(&self) -> ErrorModel {
        match self {
            HandleRequestError::DeviceNotFound(room, device) => (ErrorModel::DeviceNotFound {
                room: room@,
                device: device@,
            }),
            HandleRequestError::BadDeviceDict(dict) => (ErrorModel::BadDeviceDict { dict: dict@ }),
            HandleRequestError::ParseFloatError(text) => (ErrorModel::ParseFloatError {
                text: text@,
            }),
        }
    }
}

/// The pairs of a rejected dictionary, rendered ` key=value` in order.
pub open spec fn entries_text(d: Seq<(Seq<char>, Seq<char>)>) -> Seq<char>
    decreases d.len(),
{
    if d.len() == 0 {
        Seq::empty()
    } else {
        entries_text(d.drop_last()) + " "@ + d.last().0 + "="@ + d.last().1
    }
}

/// The human-readable text of a failure.
pub open spec fn err_text(e: ErrorModel) -> Seq<char> {
    match e {
        ErrorModel::DeviceNotFound { room, device } => "Device not found "@ + room + "/"@ + device
            + "."@,
        ErrorModel::BadDeviceDict { dict } => "Error in device dict"@ + entries_text(dict) + "."@,
        ErrorModel::ParseFloatError { text } => "Parse float error "@ + text + "."@,
    }
}

impl HandleRequestError {
    /// Render the failure for a response body.
    pub fn message(&self) -> (r: String)
        ensures
            r@ == err_text(self@),
    {
        match self {
            HandleRequestError::DeviceNotFound(room, device) => {
                let mut r = "Device not found ".to_owned();
                r.append(room.as_str());
                r.append("/");
                r.append(device.as_str());
                r.append(".");
                r
            },
            HandleRequestError::ParseFloatError(text) => {
                let mut r = "Parse float error ".to_owned();
                r.append(text.as_str());
                r.append(".");
                r
            },
            HandleRequestError::BadDeviceDict(dict) => {
                let mut r = "Error in device dict".to_owned();
                let n = dict.len();
                let mut i: usize = 0;
                while i < n
                    invariant
                        0 <= i <= n,
                        n == dict@.len(),
                        r@ == "Error in device dict"@ + entries_text(dict@.take(i as int)),
                    decreases n - i,
                {
                    let (k, v) = dict.pair_at(i);
                    r.append(" ");
                    r.append(k.as_str());
                    r.append("=");
                    r.append(v.as_str());
                    proof {
                        assert(dict@.take(i + 1).drop_last() =~= dict@.take(i as int));
                        assert(dict@.take(i + 1).last() == dict@[i as int]);
                        assert(r@ =~= "Error in device dict"@ + entries_text(dict@.take(i + 1)));
                    }
                    i += 1;
                }
                proof {
                    assert(dict@.take(n as int) =~= dict@);
                }
                r.append(".");
                proof {
                    assert(r@ =~= err_text(self@));
                }
                r
            },
        }
    }
}

} // verus!
