//! The registry of all discovered JDKs: the OS registry's records first, then
//! the version manager's, each in its own order.
use vstd::prelude::*;

use crate::record::{views, JdkInfo};
use crate::system::{parse_registry_output, registry_output_records};

verus! {

/// The error reported when the registry query exits unsuccessfully.
pub open spec fn query_failed_message(status: Seq<char>) -> Seq<char> {
    "java_home -V exited with status "@ + status
}

/// The records of the OS registry, from the outcome of its query: an error
/// naming the exit status when the query failed, else the records that its
/// diagnostic output describes.
pub fn system_jdks_from_query(succeeded: bool, status: &str, diagnostics: &str) -> (r: Result<
    Vec<JdkInfo>,
    String,
>)
    ensures
        !succeeded ==> r is Err && r->Err_0@ == query_failed_message(status@),
        succeeded ==> r is Ok && views(r->Ok_0@) == registry_output_records(diagnostics@),
{
    if !succeeded {
        let mut msg = "java_home -V exited with status ".to_owned();
        msg.append(status);
        return Err(msg);
    }
    Ok(parse_registry_output(diagnostics))
}

/// All JDKs: the OS registry's records, then the version manager's. The first
/// error of the two sources, in that order, is the result.
pub fn list_jdks(system: Result<Vec<JdkInfo>, String>, managed: Result<Vec<JdkInfo>, String>) -> (r:
    Result<Vec<JdkInfo>, String>)
    ensures
        system is Err ==> r == system,
        system is Ok && managed is Err ==> r == managed,
        system is Ok && managed is Ok ==> r is Ok && r->Ok_0@ == system->Ok_0@ + managed->Ok_0@,
{
    match system {
        Err(e) => Err(e),
        Ok(mut all) => match managed {
            Err(e) => Err(e),
            Ok(mut more) => {
                all.append(&mut more);
                Ok(all)
            },
        },
    }
}

/// Aggregation keeps the sources' order: every OS-registry record comes
/// before every version-manager record, and each source's records keep their
/// own order.
pub proof fn law_aggregation_order(system: Seq<JdkInfo>, managed: Seq<JdkInfo>)
    ensures
        forall|i: int|
            0 <= i < system.len() ==> #[trigger] (system + managed)[i] == system[i],
        forall|j: int|
            0 <= j < managed.len() ==> #[trigger] (system + managed)[system.len() + j]
                == managed[j],
        views(system + managed) == views(system) + views(managed),
{
    assert(views(system + managed) =~= views(system) + views(managed));
}

} // verus!
