//! Errors of the step that unpacks the embedded line-desktop-mcp tree and
//! installs its dependencies.

use crate::text::{push_signed_decimal, push_str};
use vstd::prelude::*;

verus! {

/// What can go wrong while installing the embedded line-desktop-mcp.
#[derive(Debug, Clone)]
pub enum VendorError {
    NotEmbedded,
    NoDataDir(String),
    Io { path: String, source: String },
    NpmInstall { status: i32, stderr: String },
    NpmMissing,
}

/// The message of a vendor error.
pub open spec fn vendor_error_text(e: VendorError) -> Seq<char> {
    match e {
        VendorError::NotEmbedded => "line-desktop-mcp not embedded in this binary (build was run without the vendor tree at crates/line-hub-tauri/vendor/line-desktop-mcp/)"@,
        VendorError::NoDataDir(m) => "could not resolve user data directory: "@ + m@,
        VendorError::Io { path, source } => "io error writing vendor tree to "@ + path@ + ": "@
            + source@,
        VendorError::NpmInstall { status, stderr } => "`npm install` for line-desktop-mcp exited with status "@
            + crate::text::signed_decimal(status as int) + ": "@ + stderr@,
        VendorError::NpmMissing => "`npm` not on PATH; install Node.js from https://nodejs.org/"@,
    }
}

impl VendorError {
    /// The error's message.
    pub fn message(&self) -> (r: String)
        ensures
            r@ == vendor_error_text(*self),
    {
        let mut r = String::new();
        match self {
            VendorError::NotEmbedded => {
                push_str(
                    &mut r,
                    "line-desktop-mcp not embedded in this binary (build was run without the vendor tree at crates/line-hub-tauri/vendor/line-desktop-mcp/)",
                );
            },
            VendorError::NoDataDir(m) => {
                push_str(&mut r, "could not resolve user data directory: ");
                push_str(&mut r, m.as_str());
            },
            VendorError::Io { path, source } => {
                push_str(&mut r, "io error writing vendor tree to ");
                push_str(&mut r, path.as_str());
                push_str(&mut r, ": ");
                push_str(&mut r, source.as_str());
            },
            VendorError::NpmInstall { status, stderr } => {
                push_str(&mut r, "`npm install` for line-desktop-mcp exited with status ");
                push_signed_decimal(&mut r, *status as i64);
                push_str(&mut r, ": ");
                push_str(&mut r, stderr.as_str());
            },
            VendorError::NpmMissing => {
                push_str(&mut r, "`npm` not on PATH; install Node.js from https://nodejs.org/");
            },
        }
        proof {
            assert(r@ =~= vendor_error_text(*self));
        }
        r
    }
}

/// What to do with the per-user copy of line-desktop-mcp.
#[derive(Debug, Clone, Copy, PartialEq, Eq)]
pub enum VendorPlan {
    /// A finished extraction is there: use it as it is.
    Reuse,
    /// Extract the embedded tree afresh and run `npm install`.
    Extract,
}

/// Reuses an earlier extraction only when its marker, `package.json`,
/// `src/server.js` and `node_modules` are all there.
pub fn vendor_plan(marker: bool, package_json: bool, server_js: bool, node_modules: bool) -> (r: VendorPlan)
    ensures
        r == VendorPlan::Reuse <==> (marker && package_json && server_js && node_modules),
{
    if marker && package_json && server_js && node_modules {
        VendorPlan::Reuse
    } else {
        VendorPlan::Extract
    }
}

} // verus!
