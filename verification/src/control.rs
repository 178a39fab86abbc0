use vstd::prelude::*;
use vstd::string::StringExecFns;

use crate::error::Error;
use crate::store::{cleared, written, StateStore};

verus! {

/// The observed outcome of one run of the external activation tool.
///
/// `success` is whether the tool exited cleanly; `code` is its exit code,
/// absent when it was terminated by a signal. In simulation mode no tool
/// runs and the outcome is [`CommandStatus::simulated`].
pub struct CommandStatus {
    pub success: bool,
    pub code: Option<i32>,
}

impl CommandStatus {
    /// The outcome of a simulated run: always a success.
    pub fn simulated() -> (r: CommandStatus)
        ensures
            r.success,
    {
        CommandStatus { success: true, code: Some(0) }
    }
}

/// The exact command line that activates `conf`.
pub fn up_command(conf: &str) -> (r: String)
    ensures
        r@ == "wg-quick up "@ + conf@,
{
    String::from_str("wg-quick up ").concat(conf)
}

/// The exact command line that deactivates `conf`.
pub fn down_command(conf: &str) -> (r: String)
    ensures
        r@ == "wg-quick down "@ + conf@,
{
    String::from_str("wg-quick down ").concat(conf)
}

/// Applies the outcome of an attempt to activate `conf`.
///
/// On success the store records `conf`; on failure the store is left exactly
/// as it was, so the record never names a configuration that failed
/// mid-activation.
pub fn activate(store: &mut StateStore, conf: &str, status: &CommandStatus) -> (r: Result<
    (),
    Error,
>)
    ensures
        status.success ==> final(store)@ == written(old(store)@, conf@) && r is Ok,
        !status.success ==> final(store)@ == old(store)@ && (r matches Err(Error::WgQuick {
            code,
        }) && code == status.code),
{
    if status.success {
        store.write(String::from_str(conf));
        Ok(())
    } else {
        Err(Error::WgQuick { code: status.code })
    }
}

/// Applies the outcome of an attempt to deactivate the recorded
/// configuration.
///
/// With nothing recorded this is a no-op reporting that nothing was active,
/// whatever `status` says. Otherwise, on success the record is removed and
/// the deactivated name returned; on failure the record is left untouched so
/// a later attempt can still name it.
pub fn deactivate(store: &mut StateStore, status: &CommandStatus) -> (r: Result<
    Option<String>,
    Error,
>)
    ensures
        old(store)@ is None ==> final(store)@ == old(store)@ && r == Ok::<Option<String>, Error>(
            None,
        ),
        old(store)@ is Some && status.success ==> final(store)@ == cleared(old(store)@) && (
        r matches Ok(prev) && prev.deep_view() == old(store)@),
        old(store)@ is Some && !status.success ==> final(store)@ == old(store)@ && (
        r matches Err(Error::WgQuick { code }) && code == status.code),
{
    let recorded = store.read();
    match recorded {
        None => Ok(None),
        Some(conf) => {
            if status.success {
                store.clear();
                Ok(Some(conf))
            } else {
                Err(Error::WgQuick { code: status.code })
            }
        },
    }
}

} // verus!
