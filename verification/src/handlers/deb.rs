//! The native-package handler.
//!
//! Packages are installed and removed by the OS package tool with
//! elevated privilege; the core decides only what each tool outcome
//! means. The caller runs the tool and feeds the outcome back in.

use vstd::prelude::*;
use crate::errors::AnError;
use crate::model::{SystemModel, contains_name, names_contains};
use crate::text::chars_of;

verus! {

/// Detects an installed native package: the package-query succeeds
/// exactly on the names the package listing holds.
pub fn detect(m: &SystemModel, name: &str) -> (r: Option<String>)
    ensures
        r is Some <==> contains_name(m.packages@, name@),
        match r {
            Some(s) => s@ == name@,
            None => true,
        },
{
    if names_contains(&m.packages, &chars_of(name)) {
        Some(String::from_str(name))
    } else {
        None
    }
}

/// The outcome of a native-package install. The installer's own
/// failure is not fatal: many installer failures are exactly the
/// dependency case the repair pass fixes, so the caller runs the repair
/// pass when the installer fails, and only a failed repair surfaces,
/// with the repair tool's diagnostic text.
pub fn install_outcome(tool_ok: bool, repair_ok: bool, repair_stderr: &str) -> (r: Result<
    (),
    AnError,
>)
    ensures
        r is Ok <==> (tool_ok || repair_ok),
        match r {
            Ok(_) => true,
            Err(e) => e matches AnError::DpkgError { message } && message@ == repair_stderr@,
        },
{
    if tool_ok || repair_ok {
        Ok(())
    } else {
        Err(AnError::DpkgError { message: String::from_str(repair_stderr) })
    }
}

/// The outcome of a native-package removal (the purge subcommand):
/// failure surfaces the tool's diagnostic text. On success the caller
/// additionally runs the unused-dependency cleanup, whose failure is
/// not surfaced.
pub fn remove_outcome(purge_ok: bool, purge_stderr: &str) -> (r: Result<(), AnError>)
    ensures
        r is Ok <==> purge_ok,
        match r {
            Ok(_) => true,
            Err(e) => e matches AnError::AptPurgeError { message } && message@ == purge_stderr@,
        },
{
    if purge_ok {
        Ok(())
    } else {
        Err(AnError::AptPurgeError { message: String::from_str(purge_stderr) })
    }
}

} // verus!
