//! Directories that extensions were granted, and whether an extension is
//! still the one that was trusted.

use crate::extension_host::{
    host_error, host_error_is, DirectoryAccess, DirectoryGrantResponse, HostError,
};
use crate::text::{hexadecimal, padded_hexadecimal_text, same_text, zero_padded};
use vstd::prelude::*;
use vstd::string::StringExecFns;

verus! {

/// A granted directory.
#[derive(Debug)]
pub struct PersistedGrant {
    pub extension_id: String,
    /// The component that it was granted to.
    pub component_hash: String,
    pub grant_id: String,
    pub host_path: String,
    pub read_write: bool,
}

/// A grant by its values.
#[verifier::ext_equal]
pub struct GrantValue {
    pub extension_id: Seq<char>,
    pub component_hash: Seq<char>,
    pub grant_id: Seq<char>,
    pub host_path: Seq<char>,
    pub read_write: bool,
}

impl View for PersistedGrant {
    type V = GrantValue;

    open spec fn view(&self) -> GrantValue {
        GrantValue {
            extension_id: self.extension_id@,
            component_hash: self.component_hash@,
            grant_id: self.grant_id@,
            host_path: self.host_path@,
            read_write: self.read_write,
        }
    }
}

/// Grants by their values.
pub open spec fn grant_values(grants: Seq<PersistedGrant>) -> Seq<GrantValue> {
    grants.map_values(|grant: PersistedGrant| grant@)
}

/// A grant's id, by the hash of its directory.
pub open spec fn grant_id_of(path_hash: u64) -> Seq<char> {
    "grant-"@ + zero_padded(hexadecimal(path_hash as nat), 16)
}

/// A grant's id.
pub fn grant_id(path_hash: u64) -> (id: String)
    ensures
        id@ == grant_id_of(path_hash),
{
    let mut id = String::from_str("grant-");
    let digits = padded_hexadecimal_text(path_hash as u128, 16);
    id.append(digits.as_str());
    id
}

/// The grants among the first `k` but one extension's grant of an id.
pub open spec fn other_grants(
    grants: Seq<GrantValue>,
    extension_id: Seq<char>,
    id: Seq<char>,
    k: int,
) -> Seq<GrantValue>
    decreases k,
{
    if k <= 0 {
        Seq::empty()
    } else if grants[k - 1].extension_id == extension_id && grants[k - 1].grant_id == id {
        other_grants(grants, extension_id, id, k - 1)
    } else {
        other_grants(grants, extension_id, id, k - 1).push(grants[k - 1])
    }
}

/// Grants an extension a directory: an earlier grant of the same directory is
/// replaced. The answer says where it will be.
pub fn grant_directory(
    grants: &mut Vec<PersistedGrant>,
    extension_id: &str,
    component_hash: &str,
    access: DirectoryAccess,
    host_path: &str,
    path_hash: u64,
) -> (response: DirectoryGrantResponse)
    ensures
        ({
            let before = grant_values(old(grants)@);
            let id = grant_id_of(path_hash);
            &&& grant_values(final(grants)@) == other_grants(
                before,
                extension_id@,
                id,
                before.len() as int,
            ).push(
                (GrantValue {
                    extension_id: extension_id@,
                    component_hash: component_hash@,
                    grant_id: id,
                    host_path: host_path@,
                    read_write: access == DirectoryAccess::ReadWrite,
                }),
            )
            &&& response.grant_id@ == id
            &&& response.mount_path@ == "/grants/"@ + id
            &&& response.available_next_invocation
        }),
{
    let id = grant_id(path_hash);
    let ghost before = grant_values(grants@);
    let mut kept: Vec<PersistedGrant> = Vec::new();
    std::mem::swap(&mut kept, grants);
    let mut at: usize = 0;
    let ghost mut seen: int = 0;
    assert(other_grants(before, extension_id@, id@, 0) + before.skip(0) =~= before);
    while at < kept.len()
        invariant
            0 <= seen <= before.len(),
            at == other_grants(before, extension_id@, id@, seen).len(),
            grant_values(kept@) == other_grants(before, extension_id@, id@, seen) + before.skip(
                seen,
            ),
        decreases kept@.len() - at,
    {
        let ghost front = other_grants(before, extension_id@, id@, seen);
        assert(grant_values(kept@).len() == kept@.len());
        assert(grant_values(kept@)[at as int] == kept@[at as int]@);
        assert((front + before.skip(seen))[at as int] == before[seen]);
        if same_text(kept[at].extension_id.as_str(), extension_id) && same_text(
            kept[at].grant_id.as_str(),
            id.as_str(),
        ) {
            let ghost earlier = kept@;
            kept.remove(at);
            assert(grant_values(kept@) =~= grant_values(earlier).remove(at as int));
            assert((front + before.skip(seen)).remove(at as int) =~= front + before.skip(
                seen + 1,
            ));
        } else {
            assert(front + before.skip(seen) =~= front.push(before[seen]) + before.skip(seen + 1));
            at = at + 1;
        }
        proof {
            seen = seen + 1;
        }
    }
    assert(grant_values(kept@).len() == kept@.len());
    assert(seen == before.len());
    assert(grant_values(kept@) =~= other_grants(before, extension_id@, id@, before.len() as int));
    let ghost left = kept@;
    let read_write = match access {
        DirectoryAccess::ReadWrite => true,
        DirectoryAccess::Read => false,
    };
    let grant = PersistedGrant {
        extension_id: String::from_str(extension_id),
        component_hash: String::from_str(component_hash),
        grant_id: id.clone(),
        host_path: String::from_str(host_path),
        read_write,
    };
    kept.push(grant);
    assert(grant_values(kept@) =~= grant_values(left).push(grant@));
    *grants = kept;
    let mut mount_path = String::from_str("/grants/");
    mount_path.append(id.as_str());
    DirectoryGrantResponse { grant_id: id, mount_path, available_next_invocation: true }
}

/// A grant is in force for an extension whose component is the one that it
/// was granted to.
pub open spec fn in_force(
    grant: GrantValue,
    extension_id: Seq<char>,
    component_hash: Seq<char>,
) -> bool {
    grant.extension_id == extension_id && grant.component_hash == component_hash
}

/// A directory as an extension gets it when it runs.
#[derive(Debug)]
pub struct DirectoryGrant {
    pub grant_id: String,
    pub host_path: String,
    pub access: DirectoryAccess,
}

/// A directory by its values.
pub open spec fn mount_value(grant: DirectoryGrant) -> (Seq<char>, Seq<char>, DirectoryAccess) {
    (grant.grant_id@, grant.host_path@, grant.access)
}

/// Directories by their values.
pub open spec fn mount_values(grants: Seq<DirectoryGrant>) -> Seq<
    (Seq<char>, Seq<char>, DirectoryAccess),
> {
    grants.map_values(|grant: DirectoryGrant| mount_value(grant))
}

/// The directories of the grants in force among the first `k`.
pub open spec fn grants_in_force(
    grants: Seq<GrantValue>,
    extension_id: Seq<char>,
    component_hash: Seq<char>,
    k: int,
) -> Seq<(Seq<char>, Seq<char>, DirectoryAccess)>
    decreases k,
{
    if k <= 0 {
        Seq::empty()
    } else if in_force(grants[k - 1], extension_id, component_hash) {
        grants_in_force(grants, extension_id, component_hash, k - 1).push(
            (
                grants[k - 1].grant_id,
                grants[k - 1].host_path,
                if grants[k - 1].read_write {
                    DirectoryAccess::ReadWrite
                } else {
                    DirectoryAccess::Read
                },
            ),
        )
    } else {
        grants_in_force(grants, extension_id, component_hash, k - 1)
    }
}

/// The directories that an extension gets when it runs: those granted to the
/// component that it has now.
pub fn directory_grants(grants: &Vec<PersistedGrant>, extension_id: &str, component_hash: &str) -> (mounts:
    Vec<DirectoryGrant>)
    ensures
        mount_values(mounts@) == grants_in_force(
            grant_values(grants@),
            extension_id@,
            component_hash@,
            grants@.len() as int,
        ),
{
    let ghost all = grant_values(grants@);
    let mut mounts: Vec<DirectoryGrant> = Vec::new();
    let mut next: usize = 0;
    assert(mount_values(mounts@) =~= Seq::empty());
    while next < grants.len()
        invariant
            next <= grants@.len(),
            all == grant_values(grants@),
            mount_values(mounts@) == grants_in_force(
                all,
                extension_id@,
                component_hash@,
                next as int,
            ),
        decreases grants@.len() - next,
    {
        let grant = &grants[next];
        assert(all[next as int] == grants@[next as int]@);
        if same_text(grant.extension_id.as_str(), extension_id) && same_text(
            grant.component_hash.as_str(),
            component_hash,
        ) {
            let mount = DirectoryGrant {
                grant_id: grant.grant_id.clone(),
                host_path: grant.host_path.clone(),
                access: if grant.read_write {
                    DirectoryAccess::ReadWrite
                } else {
                    DirectoryAccess::Read
                },
            };
            let ghost before = mounts@;
            mounts.push(mount);
            assert(mount_values(mounts@) =~= mount_values(before).push(mount_value(mount)));
        }
        next = next + 1;
    }
    mounts
}

/// No directory is granted twice to one extension.
pub open spec fn grants_apart(grants: Seq<GrantValue>) -> bool {
    forall|i: int, j: int|
        0 <= i < j < grants.len() && #[trigger] grants[i].extension_id
            == #[trigger] grants[j].extension_id ==> grants[i].grant_id != grants[j].grant_id
}

proof fn lemma_others_apart(
    grants: Seq<GrantValue>,
    extension_id: Seq<char>,
    id: Seq<char>,
    k: int,
)
    requires
        grants_apart(grants),
        0 <= k <= grants.len(),
    ensures
        grants_apart(other_grants(grants, extension_id, id, k)),
        forall|i: int|
            0 <= i < other_grants(grants, extension_id, id, k).len() ==> {
                let other = #[trigger] other_grants(grants, extension_id, id, k)[i];
                &&& !(other.extension_id == extension_id && other.grant_id == id)
                &&& exists|j: int| 0 <= j < k && #[trigger] grants[j] == other
            },
    decreases k,
{
    if k > 0 {
        lemma_others_apart(grants, extension_id, id, k - 1);
        let before = other_grants(grants, extension_id, id, k - 1);
        let after = other_grants(grants, extension_id, id, k);
        assert forall|i: int| 0 <= i < after.len() implies {
            let other = #[trigger] after[i];
            &&& !(other.extension_id == extension_id && other.grant_id == id)
            &&& exists|j: int| 0 <= j < k && #[trigger] grants[j] == other
        } by {
            if i < before.len() {
                assert(before[i] == after[i]);
            } else {
                assert(grants[k - 1] == after[i]);
            }
        }
        assert forall|i: int, j: int|
            0 <= i < j < after.len() && #[trigger] after[i].extension_id
                == #[trigger] after[j].extension_id implies after[i].grant_id
            != after[j].grant_id by {
            assert(before[i] == after[i]);
            if j < before.len() {
                assert(before[j] == after[j]);
            } else {
                let earlier = choose|e: int| 0 <= e < k - 1 && #[trigger] grants[e] == before[i];
                assert(grants[earlier].extension_id == grants[k - 1].extension_id);
            }
        }
    }
}

/// Granting a directory again replaces the grant: no directory is ever
/// granted twice to one extension.
pub proof fn a_second_grant_replaces_the_first(grants: Seq<GrantValue>, grant: GrantValue)
    requires
        grants_apart(grants),
    ensures
        grants_apart(
            other_grants(grants, grant.extension_id, grant.grant_id, grants.len() as int).push(
                grant,
            ),
        ),
{
    let others = other_grants(grants, grant.extension_id, grant.grant_id, grants.len() as int);
    lemma_others_apart(grants, grant.extension_id, grant.grant_id, grants.len() as int);
    let after = others.push(grant);
    assert forall|i: int, j: int|
        0 <= i < j < after.len() && #[trigger] after[i].extension_id
            == #[trigger] after[j].extension_id implies after[i].grant_id != after[j].grant_id by {
        assert(others[i] == after[i]);
        if j < others.len() {
            assert(others[j] == after[j]);
        }
    }
}

/// A changed component loses every grant: what is in force for one hash is
/// not for another.
pub proof fn a_changed_component_loses_its_grants(
    grant: GrantValue,
    extension_id: Seq<char>,
    trusted: Seq<char>,
    changed: Seq<char>,
)
    requires
        in_force(grant, extension_id, trusted),
        trusted != changed,
    ensures
        !in_force(grant, extension_id, changed),
{
}

/// Whether an extension is trusted: it is installed, its component is the one
/// that is asked about, and that one was approved.
pub fn is_trusted(digest: Option<&str>, component_hash: &str, approved: bool) -> (b: bool)
    ensures
        b == (digest is Some && (digest->0)@ == component_hash@ && approved),
{
    match digest {
        Some(digest) => same_text(digest, component_hash) && approved,
        None => false,
    }
}

/// Whether an extension can be run: it is still installed.
pub fn can_invoke(installed: bool) -> (result: Result<(), String>)
    ensures
        result is Ok == installed,
        result is Err ==> (result->Err_0)@ == "Extension is no longer installed"@,
{
    if installed {
        Ok(())
    } else {
        Err(String::from_str("Extension is no longer installed"))
    }
}

/// Whether an extension can be cancelled: it runs.
pub fn can_cancel(running: bool) -> (result: Result<(), String>)
    ensures
        result is Ok == running,
        result is Err ==> (result->Err_0)@ == "Extension is not running"@,
{
    if running {
        Ok(())
    } else {
        Err(String::from_str("Extension is not running"))
    }
}

/// A grant that failed.
pub fn host_service(message: &str) -> (error: HostError)
    ensures
        host_error_is(error, "directory-grant"@, message@),
{
    host_error("directory-grant", message)
}

/// Whether an extension can be granted a directory: it is installed, and its
/// component's hash could be read.
pub fn can_grant(installed: bool, digest: Result<String, String>) -> (hash: Result<String, HostError>)
    ensures
        if !installed {
            hash is Err && host_error_is(hash->Err_0, "directory-grant"@, "extension missing"@)
        } else {
            match digest {
                Ok(digest) => hash == Ok::<String, HostError>(digest),
                Err(message) => hash is Err && host_error_is(
                    hash->Err_0,
                    "directory-grant"@,
                    message@,
                ),
            }
        },
{
    if !installed {
        return Err(host_service("extension missing"));
    }
    match digest {
        Ok(digest) => Ok(digest),
        Err(message) => Err(host_service(message.as_str())),
    }
}

/// Whether an approval is taken: of the component that was shown, while the
/// extension is installed.
pub fn approve(digest: Option<&str>, component_hash: &str) -> (result: Result<(), String>)
    ensures
        match digest {
            None => result is Err && (result->Err_0)@ == "Extension is no longer installed"@,
            Some(digest) => if digest@ == component_hash@ {
                result is Ok
            } else {
                result is Err && (result->Err_0)@ == "Extension changed before approval"@
            },
        },
{
    match digest {
        None => Err(String::from_str("Extension is no longer installed")),
        Some(digest) => if same_text(digest, component_hash) {
            Ok(())
        } else {
            Err(String::from_str("Extension changed before approval"))
        },
    }
}

} // verus!
