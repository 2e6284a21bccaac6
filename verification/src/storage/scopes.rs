//! Environment scopes as they are stored.
use crate::digest::Digest;
use crate::ordered_map::OrderedMap;
use crate::ordered_map;
use crate::storage::sensitive_env;
use crate::storage::sensitive_env::is_sensitive_env_name;
use crate::text;
use crate::text::{decimal_text, join3};
use vstd::prelude::*;

verus! {

/// The variables and the directory that commands of a scope start with.
#[derive(Debug)]
pub struct EnvSnapshot {
    pub env: OrderedMap<String>,
    pub cwd: String,
}

/// What a scope changes of its parent.
#[derive(Debug)]
pub struct EnvDelta {
    pub set: OrderedMap<String>,
    pub unset: Vec<String>,
    pub cwd: Option<String>,
}

/// An environment scope.
#[derive(Debug)]
pub struct Scope {
    pub hash: Digest,
    pub parent: Option<Digest>,
    pub delta: Option<EnvDelta>,
    pub snapshot: Option<EnvSnapshot>,
}

/// Whether a scope was durable or intentionally retained in memory only.
#[derive(Clone, Copy, PartialEq, Eq, Structural, Debug)]
pub enum ScopePersistence {
    Persisted,
    VolatileSensitiveEnvironment,
    VolatileParent,
}

impl ScopePersistence {
    /// Whether the scope stays in memory only.
    pub fn is_volatile(self) -> (result: bool)
        ensures
            result == (self != ScopePersistence::Persisted),
    {
        !matches!(self, ScopePersistence::Persisted)
    }

    /// Why the scope is where it is.
    pub fn reason(self) -> (reason: &'static str)
        ensures
            reason@ == match self {
                ScopePersistence::Persisted => "persisted"@,
                ScopePersistence::VolatileSensitiveEnvironment => "sensitive_environment"@,
                ScopePersistence::VolatileParent => "unpersisted_parent"@,
            },
    {
        match self {
            ScopePersistence::Persisted => "persisted",
            ScopePersistence::VolatileSensitiveEnvironment => "sensitive_environment",
            ScopePersistence::VolatileParent => "unpersisted_parent",
        }
    }
}

/// A variable's name looks like it carries a credential.
pub open spec fn env_is_sensitive(env: Map<Seq<char>, String>) -> bool {
    exists|name: Seq<char>|
        #[trigger] env.contains_key(name) && sensitive_env::is_sensitive(name)
}

fn has_sensitive_name(env: &OrderedMap<String>) -> (result: bool)
    ensures
        result == env_is_sensitive(env@),
{
    let n: usize = env.len();
    for i in 0..n
        invariant
            n == env.pairs().len(),
            forall|j: int|
                0 <= j < i ==> !sensitive_env::is_sensitive((#[trigger] env.pairs()[j]).0),
    {
        let entry = env.entry(i);
        if is_sensitive_env_name(entry.0.as_str()) {
            proof {
                ordered_map::lemma_as_map(env.pairs(), i as int);
            }
            assert(env@.contains_key(entry.0@));
            return true;
        }
    }
    assert forall|name: Seq<char>| #[trigger] env@.contains_key(name) implies
        !sensitive_env::is_sensitive(name) by {
        let k = choose|k: int| 0 <= k < env.pairs().len() && (#[trigger] env.pairs()[k]).0 == name;
        assert(!sensitive_env::is_sensitive(env.pairs()[k].0));
    }
    false
}

impl Scope {
    /// The scope sets a variable whose name looks like it carries a credential. Names that it only
    /// takes away carry nothing.
    pub open spec fn is_sensitive(&self) -> bool {
        ||| self.snapshot matches Some(snapshot) && env_is_sensitive(snapshot.env@)
        ||| self.delta matches Some(delta) && env_is_sensitive(delta.set@)
    }
}

/// Whether a scope sets a variable whose name looks like it carries a credential.
pub fn scope_contains_sensitive_environment(scope: &Scope) -> (result: bool)
    ensures
        result == scope.is_sensitive(),
{
    let in_snapshot = match &scope.snapshot {
        Some(snapshot) => has_sensitive_name(&snapshot.env),
        None => false,
    };
    let in_delta = match &scope.delta {
        Some(delta) => has_sensitive_name(&delta.set),
        None => false,
    };
    in_snapshot || in_delta
}

/// A stored JSON text, decoded.
#[derive(Debug)]
pub enum StoredJson<T> {
    /// The column is `NULL`.
    Absent,
    /// The text cannot be decoded.
    Corrupt,
    Value(T),
}

/// A stored scope that cannot be shown to hold no credentials: one of its texts names a credential
/// or cannot be read.
pub open spec fn stored_scope_is_sensitive(
    delta: StoredJson<EnvDelta>,
    snapshot: StoredJson<EnvSnapshot>,
) -> bool {
    ||| delta is Corrupt
    ||| snapshot is Corrupt
    ||| delta matches StoredJson::Value(delta) && env_is_sensitive(delta.set@)
    ||| snapshot matches StoredJson::Value(snapshot) && env_is_sensitive(snapshot.env@)
}

/// Whether a stored scope cannot be shown to hold no credentials.
pub fn persisted_scope_has_sensitive_environment(
    delta: &StoredJson<EnvDelta>,
    snapshot: &StoredJson<EnvSnapshot>,
) -> (result: bool)
    ensures
        result == stored_scope_is_sensitive(*delta, *snapshot),
{
    let delta_is_sensitive = match delta {
        StoredJson::Absent => false,
        StoredJson::Corrupt => true,
        StoredJson::Value(delta) => has_sensitive_name(&delta.set),
    };
    let snapshot_is_sensitive = match snapshot {
        StoredJson::Absent => false,
        StoredJson::Corrupt => true,
        StoredJson::Value(snapshot) => has_sensitive_name(&snapshot.env),
    };
    delta_is_sensitive || snapshot_is_sensitive
}

/// What becomes of a scope that is to be stored.
///
/// Scopes with credential-like variables are not stored. Their descendants stay in memory too, so
/// that a stored child never points at a missing parent.
pub open spec fn persistence(sensitive: bool, has_parent: bool, parent_persisted: bool)
    -> ScopePersistence {
    if sensitive {
        ScopePersistence::VolatileSensitiveEnvironment
    } else if has_parent && !parent_persisted {
        ScopePersistence::VolatileParent
    } else {
        ScopePersistence::Persisted
    }
}

/// Decides whether a scope is stored. `parent_persisted` says whether its parent, if it has one,
/// is stored.
pub fn insert_scope(scope: &Scope, parent_persisted: bool) -> (result: ScopePersistence)
    ensures
        result == persistence(scope.is_sensitive(), scope.parent is Some, parent_persisted),
{
    if scope_contains_sensitive_environment(scope) {
        return ScopePersistence::VolatileSensitiveEnvironment;
    }
    if scope.parent.is_some() && !parent_persisted {
        return ScopePersistence::VolatileParent;
    }
    ScopePersistence::Persisted
}

/// The reference to a scope that a record keeps: only to a scope that is stored.
pub open spec fn is_durable_reference(
    reference: Option<Vec<u8>>,
    scope: Option<Digest>,
    persisted: bool,
) -> bool {
    match reference {
        Some(bytes) => persisted && scope is Some && bytes@ == scope->0.bytes@,
        None => scope is None || !persisted,
    }
}

/// The reference to a scope that a record keeps: only to a scope that is stored.
pub fn durable_scope_reference(scope: Option<Digest>, persisted: bool) -> (reference: Option<
    Vec<u8>,
>)
    ensures
        is_durable_reference(reference, scope, persisted),
{
    match scope {
        Some(hash) => if persisted {
            Some(digest_bytes(&hash))
        } else {
            None
        },
        None => None,
    }
}

/// The bytes of a digest.
pub fn digest_bytes(digest: &Digest) -> (bytes: Vec<u8>)
    ensures
        bytes@ == digest.bytes@,
{
    let mut bytes: Vec<u8> = Vec::new();
    for i in 0..32
        invariant
            bytes@ == digest.bytes@.take(i as int),
    {
        bytes.push(digest.bytes[i]);
    }
    assert(digest.bytes@.take(32) =~= digest.bytes@);
    bytes
}

/// Why a stored hash cannot be one.
pub open spec fn hash_fault(length: nat) -> Seq<char> {
    "scope hash blob is not 32 bytes (got "@ + text::decimal(length) + ")"@
}

/// Reads a stored hash.
pub fn blob_to_scope_hash(blob: &Vec<u8>) -> (result: Result<Digest, String>)
    ensures
        match result {
            Ok(hash) => hash.bytes@ == blob@,
            Err(message) => blob@.len() != 32 && message@ == hash_fault(blob@.len()),
        },
{
    if blob.len() != 32 {
        let length = decimal_text(blob.len() as u64);
        return Err(join3("scope hash blob is not 32 bytes (got ", length.as_str(), ")"));
    }
    let mut bytes: [u8; 32] = [0u8;32];
    for i in 0..32
        invariant
            blob@.len() == 32,
            forall|j: int| 0 <= j < i ==> bytes@[j] == blob@[j],
    {
        bytes[i] = blob[i];
    }
    assert(bytes@ =~= blob@);
    Ok(Digest { bytes })
}

/// Why an optional stored hash cannot be one.
pub open spec fn optional_hash_fault(blob: Option<Vec<u8>>) -> Option<Seq<char>> {
    match blob {
        Some(blob) => if blob@.len() == 32 {
            None
        } else {
            Some(hash_fault(blob@.len()))
        },
        None => None,
    }
}

/// The digest of given bytes.
pub open spec fn digest_of(bytes: Seq<u8>) -> Digest {
    choose|digest: Digest| digest.bytes@ == bytes
}

/// A digest is determined by its bytes.
pub proof fn lemma_digest_of(digest: Digest)
    ensures
        digest_of(digest.bytes@) == digest,
{
    let found = digest_of(digest.bytes@);
    assert(found.bytes@ =~= digest.bytes@);
    assert(found.bytes == digest.bytes);
}

/// The hash that an optional blob holds.
pub open spec fn stored_hash(blob: Option<Vec<u8>>) -> Option<Digest> {
    match blob {
        Some(blob) => Some(digest_of(blob@)),
        None => None,
    }
}

/// Reads an optional stored hash.
pub fn optional_scope_hash(blob: &Option<Vec<u8>>) -> (result: Result<Option<Digest>, String>)
    ensures
        match result {
            Ok(hash) => optional_hash_fault(*blob) is None && hash == stored_hash(*blob),
            Err(message) => optional_hash_fault(*blob) == Some(message@),
        },
{
    match blob {
        Some(blob) => match blob_to_scope_hash(blob) {
            Ok(hash) => {
                proof {
                    lemma_digest_of(hash);
                }
                Ok(Some(hash))
            },
            Err(message) => Err(message),
        },
        None => Ok(None),
    }
}

/// Why a stored scope cannot be read.
pub open spec fn scope_row_fault(
    hash: Vec<u8>,
    parent: Option<Vec<u8>>,
    delta: StoredJson<EnvDelta>,
    snapshot: StoredJson<EnvSnapshot>,
) -> Option<Seq<char>> {
    if hash@.len() != 32 {
        Some(hash_fault(hash@.len()))
    } else if optional_hash_fault(parent) is Some {
        optional_hash_fault(parent)
    } else if delta is Corrupt {
        Some("corrupt delta_json"@)
    } else if snapshot is Corrupt {
        Some("corrupt snap_json"@)
    } else {
        None
    }
}

/// A reference to a stored scope is read back as it was; one to a scope in memory is not kept.
pub proof fn durable_reference_is_read_back(
    reference: Option<Vec<u8>>,
    scope: Option<Digest>,
    persisted: bool,
)
    requires
        is_durable_reference(reference, scope, persisted),
    ensures
        optional_hash_fault(reference) is None,
        stored_hash(reference) == if persisted {
            scope
        } else {
            None
        },
{
    if let Some(hash) = scope {
        lemma_digest_of(hash);
    }
}

/// Puts a stored scope together.
pub fn scope_from_row_parts(
    hash: Vec<u8>,
    parent: Option<Vec<u8>>,
    delta: StoredJson<EnvDelta>,
    snapshot: StoredJson<EnvSnapshot>,
) -> (result: Result<Scope, String>)
    ensures
        match result {
            Ok(scope) => {
                &&& scope_row_fault(hash, parent, delta, snapshot) is None
                &&& scope.hash == digest_of(hash@)
                &&& scope.parent == stored_hash(parent)
                &&& scope.delta == match delta {
                    StoredJson::Value(delta) => Some(delta),
                    _ => None,
                }
                &&& scope.snapshot == match snapshot {
                    StoredJson::Value(snapshot) => Some(snapshot),
                    _ => None,
                }
            },
            Err(message) => scope_row_fault(hash, parent, delta, snapshot) == Some(message@),
        },
{
    let hash = match blob_to_scope_hash(&hash) {
        Ok(hash) => hash,
        Err(message) => return Err(message),
    };
    proof {
        lemma_digest_of(hash);
    }
    let parent = match optional_scope_hash(&parent) {
        Ok(parent) => parent,
        Err(message) => return Err(message),
    };
    let delta = match delta {
        StoredJson::Absent => None,
        StoredJson::Corrupt => return Err("corrupt delta_json".to_owned()),
        StoredJson::Value(delta) => Some(delta),
    };
    let snapshot = match snapshot {
        StoredJson::Absent => None,
        StoredJson::Corrupt => return Err("corrupt snap_json".to_owned()),
        StoredJson::Value(snapshot) => Some(snapshot),
    };
    Ok(Scope { hash, parent, delta, snapshot })
}

/// A scope is stored exactly where none of the variables that it sets looks like a credential, and its
/// parent, if it has one, is stored. Variables decide before the parent does.
pub proof fn only_harmless_scopes_are_stored(
    scope: &Scope,
    parent_persisted: bool,
    result: ScopePersistence,
    sensitive: bool,
    name: Seq<char>,
)
    requires
        call_ensures(insert_scope, (scope, parent_persisted), result),
        call_ensures(scope_contains_sensitive_environment, (scope,), sensitive),
    ensures
        sensitive <==> result == ScopePersistence::VolatileSensitiveEnvironment,
        !sensitive ==> (result == ScopePersistence::VolatileParent <==> scope.parent is Some
            && !parent_persisted),
        !sensitive && (scope.parent is None || parent_persisted) ==> result
            == ScopePersistence::Persisted,
        sensitive_env::is_sensitive(name) ==> (scope.snapshot matches Some(snapshot) ==> (
        snapshot.env@.contains_key(name) ==> sensitive)),
        sensitive_env::is_sensitive(name) ==> (scope.delta matches Some(delta) ==> (
        delta.set@.contains_key(name) ==> sensitive)),
        sensitive ==> exists|found: Seq<char>| #[trigger]
            sensitive_env::is_sensitive(found) && ((scope.snapshot matches Some(snapshot)
                && snapshot.env@.contains_key(found)) || (scope.delta matches Some(delta)
                && delta.set@.contains_key(found))),
{
}

/// A stored scope passes as harmless only where everything of it can be read and shown to be.
pub proof fn unreadable_scope_is_not_harmless(
    delta: &StoredJson<EnvDelta>,
    snapshot: &StoredJson<EnvSnapshot>,
    result: bool,
    name: Seq<char>,
)
    requires
        call_ensures(persisted_scope_has_sensitive_environment, (delta, snapshot), result),
    ensures
        delta is Corrupt || snapshot is Corrupt ==> result,
        delta is Absent && snapshot is Absent ==> !result,
        sensitive_env::is_sensitive(name) ==> (*snapshot matches StoredJson::Value(snapshot) ==> (
        snapshot.env@.contains_key(name) ==> result)),
        sensitive_env::is_sensitive(name) ==> (*delta matches StoredJson::Value(delta) ==> (
        delta.set@.contains_key(name) ==> result)),
{
}

/// Exactly the persisted scope is not volatile, and every scope tells why it is where it is by a reason
/// of its own.
pub proof fn every_persistence_has_its_reason(
    persistence: ScopePersistence,
    volatile: bool,
    reason: &'static str,
)
    requires
        call_ensures(ScopePersistence::is_volatile, (persistence,), volatile),
        call_ensures(ScopePersistence::reason, (persistence,), reason),
    ensures
        volatile <==> reason@ != "persisted"@,
        persistence == ScopePersistence::VolatileSensitiveEnvironment ==> reason@
            == "sensitive_environment"@,
        persistence == ScopePersistence::VolatileParent ==> reason@ == "unpersisted_parent"@,
{
    reveal_strlit("persisted");
    reveal_strlit("sensitive_environment");
    reveal_strlit("unpersisted_parent");
    assert("persisted"@[0] == 'p');
    assert("sensitive_environment"@[0] == 's');
    assert("unpersisted_parent"@[0] == 'u');
}

/// A reference to a stored scope is written and read back as it was. One to a scope that is not stored
/// is not written, and nothing is read back as nothing.
pub proof fn reference_goes_through_storage(
    scope: Option<Digest>,
    persisted: bool,
    reference: Option<Vec<u8>>,
    read: Result<Option<Digest>, String>,
)
    requires
        call_ensures(durable_scope_reference, (scope, persisted), reference),
        call_ensures(optional_scope_hash, (&reference,), read),
    ensures
        persisted ==> read == Ok::<Option<Digest>, String>(scope),
        !persisted ==> reference is None && read == Ok::<Option<Digest>, String>(None),
{
    if let Some(hash) = scope {
        lemma_digest_of(hash);
    }
}

/// A stored hash is one exactly where it has thirty-two bytes, which are then its own.
pub proof fn hash_has_thirty_two_bytes(blob: &Vec<u8>, result: Result<Digest, String>)
    requires
        call_ensures(blob_to_scope_hash, (blob,), result),
    ensures
        result is Ok <==> blob@.len() == 32,
        result matches Ok(hash) ==> hash.bytes@ == blob@,
{
    if let Ok(hash) = result {
        assert(hash.bytes@.len() == 32);
    }
}

/// A row is read as the scope that it holds, or is refused where one of its parts cannot be read. A part
/// that is not there is none of the scope.
pub proof fn scope_is_read_as_it_stands(
    hash: Vec<u8>,
    parent: Option<Vec<u8>>,
    delta: StoredJson<EnvDelta>,
    snapshot: StoredJson<EnvSnapshot>,
    result: Result<Scope, String>,
    own: Digest,
    above: Digest,
)
    requires
        call_ensures(scope_from_row_parts, (hash, parent, delta, snapshot), result),
    ensures
        result is Err <==> hash@.len() != 32 || (parent matches Some(blob) && blob@.len() != 32)
            || delta is Corrupt || snapshot is Corrupt,
        result matches Ok(scope) ==> (hash@ == own.bytes@ ==> scope.hash == own),
        result matches Ok(scope) ==> (parent matches Some(blob) ==> (blob@ == above.bytes@
            ==> scope.parent == Some(above))),
        result matches Ok(scope) ==> (parent is None <==> scope.parent is None),
        result matches Ok(scope) ==> (delta is Absent <==> scope.delta is None),
        result matches Ok(scope) ==> (snapshot is Absent <==> scope.snapshot is None),
        result matches Ok(scope) ==> (delta matches StoredJson::Value(value) ==> scope.delta == Some(
            value,
        )),
        result matches Ok(scope) ==> (snapshot matches StoredJson::Value(value) ==> scope.snapshot
            == Some(value)),
{
    lemma_digest_of(own);
    lemma_digest_of(above);
}

} // verus!
