//! A description of the host: operating system, kernel and driver.
use vstd::prelude::*;
use crate::text::{push_str, string_of, trim_str, trimmed};

verus! {

/// The host's operating system, kernel and driver, as display strings.
#[derive(Debug, Clone)]
pub struct HostInfo {
    pub os: String,
    pub kernel: String,
    pub driver: String,
}

impl HostInfo {
    /// The host description from what was read of it: the system name (or
    /// `Unknown`) and its version, the kernel version (or `Unknown`), and the
    /// driver version, trimmed, after `tt-kmd ` (or `tt-kmd unknown`).
    pub fn from_parts(
        name: Option<String>,
        os_version: Option<String>,
        kernel: Option<String>,
        driver_version: Option<String>,
    ) -> (r: HostInfo)
        ensures
            r.os@ == (match name {
                Some(n) => n@,
                None => "Unknown"@,
            }) + " "@ + (match os_version {
                Some(v) => v@,
                None => Seq::empty(),
            }),
            r.kernel@ == (match kernel {
                Some(k) => k@,
                None => "Unknown"@,
            }),
            r.driver@ == (match driver_version {
                Some(v) => "tt-kmd "@ + trimmed(v@),
                None => "tt-kmd unknown"@,
            }),
    {
        let mut os = match name {
            Some(n) => n,
            None => string_of("Unknown"),
        };
        push_str(&mut os, " ");
        match &os_version {
            Some(v) => push_str(&mut os, v.as_str()),
            None => {},
        }
        let kernel = match kernel {
            Some(k) => k,
            None => string_of("Unknown"),
        };
        let driver = match &driver_version {
            Some(v) => {
                let mut d = string_of("tt-kmd ");
                let t = trim_str(v.as_str());
                push_str(&mut d, t.as_str());
                d
            },
            None => string_of("tt-kmd unknown"),
        };
        HostInfo { os, kernel, driver }
    }
}

} // verus!
