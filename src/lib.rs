//! Frame pipeline between a screen-captured browser tab and a Flaschen-Taschen
//! display: raster encoding of compressed frames, the consecutive-failure gate
//! and the per-frame acknowledgment decision.
use vstd::prelude::*;
use vstd::string::StringExecFns;

pub mod cli;
pub mod gate;
pub mod handler;
pub mod raster;

verus! {

/// Screencast options passed to the capture session.
pub struct ScreencastOptions {
    pub url: String,
    pub width: u32,
    pub height: u32,
}

/// The error text `"<msg>: <err>"`.
pub open spec fn with_context(msg: Seq<char>, err: Seq<char>) -> Seq<char> {
    msg + ": "@ + err
}

/// Prefixes the message of an error with `msg`; a success passes unchanged.
pub fn map_err<T>(value: Result<T, String>, msg: &str) -> (r: Result<T, String>)
    ensures
        match value {
            Ok(v) => r matches Ok(w) && w == v,
            Err(e) => r matches Err(m) && m@ == with_context(msg@, e@),
        },
{
    match value {
        Ok(v) => Ok(v),
        Err(e) => {
            let mut m = String::from_str(msg);
            m.append(": ");
            m.append(e.as_str());
            proof {
                reveal_strlit(": ");
            }
            Err(m)
        },
    }
}

} // verus!
