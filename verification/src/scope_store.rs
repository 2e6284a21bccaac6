//! The scopes that the daemon holds in memory, and the head among them.
//!
//! The head is the scope that new work starts in. Reading and writing the database is left to the
//! caller, who hands in what came of it.
use crate::assoc;
use crate::assoc::AssocMap;
use crate::digest::Digest;
use crate::ordered_map;
use crate::ordered_map::{order_names, NameOrder};
use crate::storage::scopes::{EnvSnapshot, Scope};
use crate::text::{join3, join4};
use vstd::prelude::*;

verus! {

/// A scope with its hash and that of its parent as they are shown.
#[derive(Debug)]
pub struct NamedScope {
    pub scope: Scope,
    pub name: String,
    pub parent_name: Option<String>,
}

/// A change of the head.
#[derive(Clone, PartialEq, Eq, Debug)]
pub struct HeadChange {
    pub old_hash: String,
    pub new_hash: String,
}

/// What is told of a scope.
#[derive(Clone, PartialEq, Eq, Debug)]
pub struct ScopeInfo {
    pub hash: String,
    pub parent: Option<String>,
    pub cwd: String,
    pub env_count: usize,
}

/// What is told of a scope, as values.
pub struct InfoView {
    pub hash: Seq<char>,
    pub parent: Option<Seq<char>>,
    pub cwd: Seq<char>,
    pub env_count: nat,
}

pub open spec fn optional_text(text: Option<String>) -> Option<Seq<char>> {
    match text {
        Some(text) => Some(text@),
        None => None,
    }
}

impl View for ScopeInfo {
    type V = InfoView;

    open spec fn view(&self) -> InfoView {
        InfoView {
            hash: self.hash@,
            parent: optional_text(self.parent),
            cwd: self.cwd@,
            env_count: self.env_count as nat,
        }
    }
}

/// The channel on which changes of the head are published.
pub const SCOPES_CHANNEL: &'static str = "scopes";

/// The scopes that the daemon holds in memory, and the head among them.
#[derive(Debug)]
pub struct ScopeStore {
    cache: AssocMap<Digest, NamedScope>,
    head: Digest,
    head_name: String,
}

impl ScopeStore {
    /// The scopes in memory, in the order in which they came.
    pub closed spec fn pairs(&self) -> Seq<(Digest, NamedScope)> {
        self.cache.pairs()
    }

    /// The scopes in memory.
    pub closed spec fn scopes(&self) -> Map<Digest, NamedScope> {
        self.cache@
    }

    /// The head.
    pub closed spec fn head_hash(&self) -> Digest {
        self.head
    }

    /// The head as it is shown.
    pub closed spec fn head_text(&self) -> Seq<char> {
        self.head_name@
    }

    /// The head is in memory.
    pub open spec fn holds_head(&self) -> bool {
        self.scopes().contains_key(self.head_hash())
    }

    /// The same scopes, the same head.
    pub open spec fn same_as(&self, other: &Self) -> bool {
        &&& self.scopes() == other.scopes()
        &&& self.head_hash() == other.head_hash()
        &&& self.head_text() == other.head_text()
    }

    /// The store of a scope alone, which is the head.
    fn of(scope: NamedScope, head: Digest, head_name: &str) -> (store: Self)
        ensures
            store.scopes() == Map::<Digest, NamedScope>::empty().insert(scope.scope.hash, scope),
            store.head_hash() == head,
            store.head_text() == head_name@,
    {
        let mut cache: AssocMap<Digest, NamedScope> = AssocMap::new();
        let hash = scope.scope.hash;
        cache.insert(hash, scope);
        ScopeStore { cache, head, head_name: head_name.to_owned() }
    }

    /// The head.
    pub fn head(&self) -> (head: Digest)
        ensures
            head == self.head_hash(),
    {
        self.head
    }

    /// A scope, if it is in memory.
    pub fn cached(&self, hash: &Digest) -> (scope: Option<&NamedScope>)
        ensures
            scope == if self.scopes().contains_key(*hash) {
                Some(&self.scopes()[*hash])
            } else {
                None
            },
    {
        self.cache.get(hash)
    }

    /// The environment of the head, if it is in memory and has one.
    pub fn head_snapshot(&self) -> (snapshot: Option<&EnvSnapshot>)
        ensures
            match snapshot {
                Some(snapshot) => self.holds_head()
                    && self.scopes()[self.head_hash()].scope.snapshot == Some(*snapshot),
                None => self.holds_head() ==> self.scopes()[self.head_hash()].scope.snapshot is None,
            },
    {
        match self.cache.get(&self.head) {
            Some(found) => match &found.scope.snapshot {
                Some(snapshot) => Some(snapshot),
                None => None,
            },
            None => None,
        }
    }

    /// Takes in what a look into the database gave. The result is the hash of the scope that it
    /// gave, which is then in memory.
    pub fn scope_loaded(&mut self, loaded: Result<Option<NamedScope>, String>) -> (result: Result<
        Option<Digest>,
        String,
    >)
        ensures
            final(self).head_hash() == old(self).head_hash(),
            final(self).head_text() == old(self).head_text(),
            old(self).holds_head() ==> final(self).holds_head(),
            match loaded {
                Ok(Some(scope)) => result == Ok::<Option<Digest>, String>(Some(scope.scope.hash))
                    && final(self).scopes() == old(self).scopes().insert(scope.scope.hash, scope),
                Ok(None) => result == Ok::<Option<Digest>, String>(None) && final(self).same_as(
                    old(self),
                ),
                Err(error) => result == Err::<Option<Digest>, String>(error) && final(self).same_as(
                    old(self),
                ),
            },
    {
        match loaded {
            Ok(Some(scope)) => {
                let hash = scope.scope.hash;
                self.cache.insert(hash, scope);
                Ok(Some(hash))
            },
            Ok(None) => Ok(None),
            Err(error) => Err(error),
        }
    }

    /// Makes a scope that is stored the head.
    fn advance(&mut self, scope: NamedScope) -> (change: HeadChange)
        ensures
            final(self).scopes() == old(self).scopes().insert(scope.scope.hash, scope),
            final(self).head_hash() == scope.scope.hash,
            final(self).head_text() == scope.name@,
            change.old_hash@ == old(self).head_text(),
            change.new_hash@ == scope.name@,
    {
        let hash = scope.scope.hash;
        let new_name = scope.name.clone();
        let new_hash = scope.name.clone();
        let old_hash = self.head_name.clone();
        self.cache.insert(hash, scope);
        self.head = hash;
        self.head_name = new_name;
        HeadChange { old_hash, new_hash }
    }

    /// Takes in a new root once its storing has ended. A root that is stored becomes the head.
    pub fn root_stored(&mut self, root: NamedScope, stored: Result<(), String>) -> (result: Result<
        HeadChange,
        String,
    >)
        ensures
            match (stored, result) {
                (Ok(_), Ok(change)) => advanced(*old(self), root, change, *final(self)),
                (Err(error), Err(message)) => final(self).same_as(old(self)) && message@
                    == "persist root scope "@ + root.name@ + ": "@ + error@,
                _ => false,
            },
    {
        match stored {
            Ok(()) => Ok(self.advance(root)),
            Err(error) => Err(
                join4("persist root scope ", root.name.as_str(), ": ", error.as_str()),
            ),
        }
    }

    /// The environment that a fork of the head starts from.
    pub fn fork_base(&self) -> (result: Result<&EnvSnapshot, String>)
        ensures
            match result {
                Ok(snapshot) => self.holds_head()
                    && self.scopes()[self.head_hash()].scope.snapshot == Some(*snapshot),
                Err(message) => if !self.holds_head() {
                    message@ == "HEAD scope "@ + self.head_text() + " not in cache"@
                } else {
                    self.scopes()[self.head_hash()].scope.snapshot is None && message@
                        == "HEAD scope "@ + self.head_text() + " has no snapshot"@
                },
            },
    {
        match self.cache.get(&self.head) {
            Some(found) => match &found.scope.snapshot {
                Some(snapshot) => Ok(snapshot),
                None => Err(join3("HEAD scope ", self.head_name.as_str(), " has no snapshot")),
            },
            None => Err(join3("HEAD scope ", self.head_name.as_str(), " not in cache")),
        }
    }

    /// Takes in a fork of the head once its storing has ended. A fork that is stored becomes the
    /// head.
    pub fn fork_stored(&mut self, child: NamedScope, stored: Result<(), String>) -> (result: Result<
        HeadChange,
        String,
    >)
        ensures
            match (stored, result) {
                (Ok(_), Ok(change)) => advanced(*old(self), child, change, *final(self)),
                (Err(error), Err(message)) => final(self).same_as(old(self)) && message@
                    == "persist forked scope "@ + child.name@ + ": "@ + error@,
                _ => false,
            },
    {
        match stored {
            Ok(()) => Ok(self.advance(child)),
            Err(error) => Err(
                join4("persist forked scope ", child.name.as_str(), ": ", error.as_str()),
            ),
        }
    }

    /// The scope that another is derived from. If `base` is not in memory, `loaded` is what a look
    /// into the database gave; an error there counts as nothing found.
    pub fn derive_base(
        &mut self,
        base: &Digest,
        base_name: &str,
        loaded: Result<Option<NamedScope>, String>,
    ) -> (result: Result<Digest, String>)
        ensures
            final(self).head_hash() == old(self).head_hash(),
            final(self).head_text() == old(self).head_text(),
            old(self).holds_head() ==> final(self).holds_head(),
            match derivation_parent(*old(self), *base, loaded) {
                Some(parent) => final(self).scopes() == old(self).scopes().insert(parent.0, parent.1)
                    && match result {
                    Ok(hash) => hash == parent.0 && parent.1.scope.snapshot is Some,
                    Err(message) => parent.1.scope.snapshot is None && message@ == "scope "@
                        + parent.1.name@ + " has no snapshot"@,
                },
                None => final(self).same_as(old(self)) && (result matches Err(message) && message@
                    == "scope "@ + base_name@ + " not found"@),
            },
    {
        let hash: Digest = if self.cached(base).is_some() {
            proof {
                assert(self.scopes().insert(*base, self.scopes()[*base]) =~= self.scopes());
            }
            *base
        } else {
            match loaded {
                Ok(Some(scope)) => {
                    let hash = scope.scope.hash;
                    self.cache.insert(hash, scope);
                    hash
                },
                _ => {
                    return Err(join3("scope ", base_name, " not found"));
                },
            }
        };
        match self.cache.get(&hash) {
            Some(parent) => {
                if parent.scope.snapshot.is_some() {
                    Ok(hash)
                } else {
                    Err(join3("scope ", parent.name.as_str(), " has no snapshot"))
                }
            },
            None => Err(join3("scope ", base_name, " not found")),
        }
    }

    /// Takes in a derived scope once its storing has ended. The head stays.
    pub fn derived_stored(&mut self, child: NamedScope, stored: Result<(), String>) -> (result:
        Result<Digest, String>)
        ensures
            final(self).head_hash() == old(self).head_hash(),
            final(self).head_text() == old(self).head_text(),
            old(self).holds_head() ==> final(self).holds_head(),
            match (stored, result) {
                (Ok(_), Ok(hash)) => hash == child.scope.hash && final(self).scopes() == old(
                    self,
                ).scopes().insert(child.scope.hash, child),
                (Err(error), Err(message)) => final(self).same_as(old(self)) && message@
                    == "persist derived scope "@ + child.name@ + ": "@ + error@,
                _ => false,
            },
    {
        match stored {
            Ok(()) => {
                let hash = child.scope.hash;
                self.cache.insert(hash, child);
                Ok(hash)
            },
            Err(error) => Err(
                join4("persist derived scope ", child.name.as_str(), ": ", error.as_str()),
            ),
        }
    }

    /// What is told of the scopes in memory, in the order of their hashes as shown.
    pub fn list_scopes(&self) -> (infos: Vec<ScopeInfo>)
        ensures
            infos@.map_values(|info: ScopeInfo| info@) == sorted_infos(scope_infos(self.pairs())),
            assoc::distinct(self.pairs()),
            assoc::as_map(self.pairs()) == self.scopes(),
    {
        let count: usize = self.cache.len();
        let ghost all = scope_infos(self.pairs());
        let mut infos: Vec<ScopeInfo> = Vec::new();
        let mut left: usize = count;
        assert(all.skip(count as int) =~= Seq::<InfoView>::empty());
        assert(infos@.map_values(|info: ScopeInfo| info@) =~= Seq::<InfoView>::empty());
        while left > 0
            invariant
                count == self.cache.pairs().len(),
                left <= count,
                all == scope_infos(self.pairs()),
                infos@.map_values(|info: ScopeInfo| info@) == sorted_infos(all.skip(left as int)),
            decreases left,
        {
            left = left - 1;
            let info = scope_info(self.cache.value_at(left));
            assert(all.skip(left as int)[0] == info@);
            assert(all.skip(left as int).drop_first() =~= all.skip(left + 1));
            insert_info(&mut infos, info);
        }
        assert(all.skip(0) =~= all);
        infos
    }
}

/// A stored scope has become the head.
pub open spec fn advanced(
    before: ScopeStore,
    scope: NamedScope,
    change: HeadChange,
    after: ScopeStore,
) -> bool {
    &&& after.scopes() == before.scopes().insert(scope.scope.hash, scope)
    &&& after.head_hash() == scope.scope.hash
    &&& after.head_text() == scope.name@
    &&& change.old_hash@ == before.head_text()
    &&& change.new_hash@ == scope.name@
}

/// The scope that another is derived from.
pub open spec fn derivation_parent(
    store: ScopeStore,
    base: Digest,
    loaded: Result<Option<NamedScope>, String>,
) -> Option<(Digest, NamedScope)> {
    if store.scopes().contains_key(base) {
        Some((base, store.scopes()[base]))
    } else {
        match loaded {
            Ok(Some(scope)) => Some((scope.scope.hash, scope)),
            _ => None,
        }
    }
}

/// What is told of a scope.
pub open spec fn info_of(scope: NamedScope) -> InfoView {
    InfoView {
        hash: scope.name@,
        parent: optional_text(scope.parent_name),
        cwd: match scope.scope.snapshot {
            Some(snapshot) => snapshot.cwd@,
            None => Seq::empty(),
        },
        env_count: match scope.scope.snapshot {
            Some(snapshot) => snapshot.env.pairs().len(),
            None => 0,
        },
    }
}

/// What is told of scopes.
pub open spec fn scope_infos(pairs: Seq<(Digest, NamedScope)>) -> Seq<InfoView> {
    pairs.map_values(|pair: (Digest, NamedScope)| info_of(pair.1))
}

/// How many from place `i` on come before a given hash.
pub open spec fn info_place(infos: Seq<InfoView>, hash: Seq<char>, i: int) -> int
    decreases infos.len() - i,
{
    if 0 <= i < infos.len() && ordered_map::before(infos[i].hash, hash) {
        info_place(infos, hash, i + 1)
    } else {
        i
    }
}

/// In the order of the hashes.
pub open spec fn sorted_infos(infos: Seq<InfoView>) -> Seq<InfoView>
    decreases infos.len(),
{
    if infos.len() == 0 {
        Seq::empty()
    } else {
        let rest = sorted_infos(infos.drop_first());
        rest.insert(info_place(rest, infos[0].hash, 0), infos[0])
    }
}

fn scope_info(scope: &NamedScope) -> (info: ScopeInfo)
    ensures
        info@ == info_of(*scope),
{
    let parent = match &scope.parent_name {
        Some(name) => Some(name.clone()),
        None => None,
    };
    match &scope.scope.snapshot {
        Some(snapshot) => ScopeInfo {
            hash: scope.name.clone(),
            parent,
            cwd: snapshot.cwd.clone(),
            env_count: snapshot.env.len(),
        },
        None => {
            let cwd = String::new();
            ScopeInfo { hash: scope.name.clone(), parent, cwd, env_count: 0 }
        },
    }
}

fn insert_info(infos: &mut Vec<ScopeInfo>, info: ScopeInfo)
    ensures
        final(infos)@.map_values(|info: ScopeInfo| info@) == {
            let views = old(infos)@.map_values(|info: ScopeInfo| info@);
            views.insert(info_place(views, info@.hash, 0), info@)
        },
{
    let ghost views = infos@.map_values(|info: ScopeInfo| info@);
    let mut at: usize = 0;
    while at < infos.len()
        invariant_except_break
            info_place(views, info@.hash, 0) == info_place(views, info@.hash, at as int),
        invariant
            views == infos@.map_values(|info: ScopeInfo| info@),
            at <= infos.len(),
        ensures
            info_place(views, info@.hash, 0) == at,
        decreases infos.len() - at,
    {
        assert(views[at as int] == infos@[at as int]@);
        match order_names(infos[at].hash.as_str(), info.hash.as_str()) {
            NameOrder::Before => {},
            _ => {
                break ;
            },
        }
        at = at + 1;
    }
    infos.insert(at, info);
    assert(infos@.map_values(|info: ScopeInfo| info@) =~= views.insert(at as int, info@));
}

/// What the daemon starts with. With a persisted head, its scope is taken in; without one (`None`)
/// a root is to be made.
pub fn load_initial_scope(
    head: Option<(Digest, String)>,
    loaded: Option<NamedScope>,
) -> (result: Result<Option<ScopeStore>, String>)
    ensures
        match head {
            None => result matches Ok(store) && store is None,
            Some((hash, name)) => match loaded {
                None => result matches Err(message) && message@ == "persisted head scope "@ + name@
                    + " is missing"@,
                Some(scope) => if scope.scope.snapshot is None {
                    result matches Err(message) && message@ == "persisted head scope "@ + name@
                        + " has no snapshot"@
                } else {
                    result matches Ok(Some(store)) && store.head_hash() == hash && store.head_text()
                        == name@ && store.scopes() == Map::<Digest, NamedScope>::empty().insert(
                        scope.scope.hash,
                        scope,
                    )
                },
            },
        },
{
    match head {
        None => Ok(None),
        Some((hash, name)) => match loaded {
            None => Err(join3("persisted head scope ", name.as_str(), " is missing")),
            Some(scope) => {
                if scope.scope.snapshot.is_none() {
                    return Err(join3("persisted head scope ", name.as_str(), " has no snapshot"));
                }
                Ok(Some(ScopeStore::of(scope, hash, name.as_str())))
            },
        },
    }
}

/// What the daemon starts with when no head is persisted: the root that was made, once its storing
/// has ended.
pub fn create_and_persist_root_scope(root: NamedScope, stored: Result<(), String>) -> (result:
    Result<ScopeStore, String>)
    ensures
        match stored {
            Ok(_) => result matches Ok(store) && store.holds_head() && store.head_hash()
                == root.scope.hash && store.head_text() == root.name@ && store.scopes() == Map::<
                Digest,
                NamedScope,
            >::empty().insert(root.scope.hash, root),
            Err(error) => result == Err::<ScopeStore, String>(error),
        },
{
    match stored {
        Ok(()) => {
            let hash = root.scope.hash;
            let name = root.name.clone();
            Ok(ScopeStore::of(root, hash, name.as_str()))
        },
        Err(error) => Err(error),
    }
}

/// A scope that was made the head can be forked from as soon as it is: it is in memory.
pub proof fn head_is_in_memory_after_a_change(
    before: ScopeStore,
    scope: NamedScope,
    change: HeadChange,
    after: ScopeStore,
)
    requires
        advanced(before, scope, change, after),
    ensures
        after.holds_head(),
        after.scopes()[after.head_hash()] == scope,
        forall|hash: Digest|
            #[trigger] before.scopes().contains_key(hash) ==> after.scopes().contains_key(hash),
{
}

proof fn lemma_info_place(infos: Seq<InfoView>, hash: Seq<char>, i: int)
    requires
        0 <= i <= infos.len(),
    ensures
        i <= info_place(infos, hash, i) <= infos.len(),
        forall|j: int|
            i <= j < info_place(infos, hash, i) ==> ordered_map::before(
                (#[trigger] infos[j]).hash,
                hash,
            ),
        info_place(infos, hash, i) < infos.len() ==> !ordered_map::before(
            infos[info_place(infos, hash, i)].hash,
            hash,
        ),
    decreases infos.len() - i,
{
    if i < infos.len() && ordered_map::before(infos[i].hash, hash) {
        lemma_info_place(infos, hash, i + 1);
    }
}

/// `a` does not come after `b`.
pub open spec fn not_after(a: Seq<char>, b: Seq<char>) -> bool {
    !ordered_map::before(b, a)
}

proof fn lemma_not_after(a: Seq<char>, b: Seq<char>, c: Seq<char>)
    requires
        not_after(a, b),
        not_after(b, c),
    ensures
        not_after(a, c),
{
    if ordered_map::before(c, a) {
        ordered_map::lemma_before_total(a, b);
        if ordered_map::before(a, b) {
            ordered_map::lemma_before_transitive(c, a, b);
        }
    }
}

/// Scopes are listed in the order of their hashes, each once.
pub proof fn scopes_are_listed_in_order(infos: Seq<InfoView>)
    ensures
        sorted_infos(infos).len() == infos.len(),
        sorted_infos(infos).to_multiset() == infos.to_multiset(),
        forall|i: int, j: int|
            0 <= i < j < infos.len() ==> not_after(
                (#[trigger] sorted_infos(infos)[i]).hash,
                (#[trigger] sorted_infos(infos)[j]).hash,
            ),
    decreases infos.len(),
{
    broadcast use vstd::seq_lib::group_to_multiset_ensures;

    if infos.len() > 0 {
        let first = infos[0];
        let rest = sorted_infos(infos.drop_first());
        scopes_are_listed_in_order(infos.drop_first());
        lemma_info_place(rest, first.hash, 0);
        let at = info_place(rest, first.hash, 0);
        let result = sorted_infos(infos);
        assert forall|i: int, j: int| 0 <= i < j < result.len() implies not_after(
            (#[trigger] result[i]).hash,
            (#[trigger] result[j]).hash,
        ) by {
            if j == at {
                assert(ordered_map::before(rest[i].hash, first.hash));
                if ordered_map::before(first.hash, rest[i].hash) {
                    ordered_map::lemma_before_transitive(first.hash, rest[i].hash, first.hash);
                    ordered_map::lemma_before_irreflexive(first.hash);
                }
            } else if i == at {
                if j - 1 > at {
                    assert(not_after(rest[at].hash, rest[j - 1].hash));
                    lemma_not_after(first.hash, rest[at].hash, rest[j - 1].hash);
                }
            } else {
                let left = if i < at {
                    i
                } else {
                    i - 1
                };
                let right = if j < at {
                    j
                } else {
                    j - 1
                };
                assert(result[i] == rest[left]);
                assert(result[j] == rest[right]);
                assert(not_after(rest[left].hash, rest[right].hash));
            }
        }
        assert(infos =~= seq![first] + infos.drop_first());
        vstd::seq_lib::lemma_multiset_commutative(seq![first], infos.drop_first());
        assert(result =~= rest.take(at) + (seq![first] + rest.skip(at)));
        assert(rest =~= rest.take(at) + rest.skip(at));
        vstd::seq_lib::lemma_multiset_commutative(rest.take(at), rest.skip(at));
        vstd::seq_lib::lemma_multiset_commutative(rest.take(at), seq![first] + rest.skip(at));
        vstd::seq_lib::lemma_multiset_commutative(seq![first], rest.skip(at));
        assert(result.to_multiset() =~= infos.to_multiset());
    }
}

/// A scope becomes the head exactly where it was stored: then it is in memory, and the change tells of
/// the head before and of the scope. Where it was not stored nothing changes.
pub proof fn only_a_stored_scope_becomes_the_head(
    roots: &mut ScopeStore,
    forks: &mut ScopeStore,
    scope: NamedScope,
    stored: Result<(), String>,
    root_change: Result<HeadChange, String>,
    fork_change: Result<HeadChange, String>,
)
    requires
        call_ensures(ScopeStore::root_stored, (roots, scope, stored), root_change),
        call_ensures(ScopeStore::fork_stored, (forks, scope, stored), fork_change),
    ensures
        root_change is Ok <==> stored is Ok,
        fork_change is Ok <==> stored is Ok,
        stored is Ok ==> final(roots).head_hash() == scope.scope.hash && final(roots).scopes()[scope.scope.hash] == scope && final(forks).head_hash() == scope.scope.hash
            && final(forks).scopes()[scope.scope.hash] == scope && final(roots).holds_head()
            && final(forks).holds_head(),
        root_change matches Ok(change) ==> change.old_hash@ == old(roots).head_text()
            && change.new_hash@ == final(roots).head_text() && change.new_hash@ == scope.name@,
        fork_change matches Ok(change) ==> change.old_hash@ == old(forks).head_text()
            && change.new_hash@ == final(forks).head_text() && change.new_hash@ == scope.name@,
        stored is Err ==> final(roots).scopes() == old(roots).scopes() && final(roots).head_hash()
            == old(roots).head_hash() && final(forks).scopes() == old(forks).scopes() && final(forks).head_hash() == old(forks).head_hash(),
{
}

/// A derived scope and one that was looked up never become the head: they are kept in memory, and the
/// head stays.
pub proof fn derived_scopes_leave_the_head(
    derived: &mut ScopeStore,
    loaded: &mut ScopeStore,
    scope: NamedScope,
    stored: Result<(), String>,
    found: Result<Option<NamedScope>, String>,
    derivation: Result<Digest, String>,
    lookup: Result<Option<Digest>, String>,
)
    requires
        call_ensures(ScopeStore::derived_stored, (derived, scope, stored), derivation),
        call_ensures(ScopeStore::scope_loaded, (loaded, found), lookup),
    ensures
        final(derived).head_hash() == old(derived).head_hash(),
        final(loaded).head_hash() == old(loaded).head_hash(),
        derivation is Ok <==> stored is Ok,
        derivation matches Ok(hash) ==> hash == scope.scope.hash && final(derived).scopes()[hash]
            == scope,
        derivation is Err ==> final(derived).scopes() == old(derived).scopes(),
        lookup is Err <==> found is Err,
        found matches Ok(Some(scope)) ==> lookup == Ok::<Option<Digest>, String>(
            Some(scope.scope.hash),
        ) && final(loaded).scopes()[scope.scope.hash] == scope,
        !(found matches Ok(Some(_))) ==> final(loaded).scopes() == old(loaded).scopes(),
{
}

/// A fork starts from the environment of the head, and only from that; there is none exactly where the
/// head is not in memory or has no environment.
pub proof fn fork_starts_from_the_head(
    store: &ScopeStore,
    base: Result<&EnvSnapshot, String>,
    snapshot: Option<&EnvSnapshot>,
    cached: Option<&NamedScope>,
    head: Digest,
)
    requires
        call_ensures(ScopeStore::fork_base, (store,), base),
        call_ensures(ScopeStore::head_snapshot, (store,), snapshot),
        call_ensures(ScopeStore::head, (store,), head),
        call_ensures(ScopeStore::cached, (store, &head), cached),
    ensures
        base is Ok <==> (cached matches Some(found) && found.scope.snapshot is Some),
        base matches Ok(start) ==> cached->0.scope.snapshot == Some(*start),
        snapshot is Some ==> base is Ok && *snapshot->0 == *base->Ok_0,
        base is Ok ==> snapshot is Some,
{
}

/// A scope is derived from the one that was asked for: from memory where it is there, whatever the
/// database says, and otherwise from what the database gave. It needs an environment, and a failed
/// look counts as nothing found.
pub proof fn memory_comes_before_the_database(
    store: &mut ScopeStore,
    base: &Digest,
    base_name: &str,
    loaded: Result<Option<NamedScope>, String>,
    result: Result<Digest, String>,
)
    requires
        call_ensures(ScopeStore::derive_base, (store, base, base_name, loaded), result),
    ensures
        old(store).scopes().contains_key(*base) ==> (result is Ok <==> old(store).scopes()[*base].scope.snapshot
            is Some) && (result is Ok ==> result == Ok::<Digest, String>(*base)),
        !old(store).scopes().contains_key(*base) && !(loaded matches Ok(Some(_))) ==> result is Err
            && final(store).scopes() == old(store).scopes(),
        !old(store).scopes().contains_key(*base) ==> (loaded matches Ok(Some(scope)) ==> final(store).scopes()[scope.scope.hash] == scope && (result is Ok <==> scope.scope.snapshot is Some)
            && (result is Ok ==> result == Ok::<Digest, String>(scope.scope.hash))),
        final(store).head_hash() == old(store).head_hash(),
{
    if old(store).scopes().contains_key(*base) {
        assert(old(store).scopes().insert(*base, old(store).scopes()[*base]) =~= old(store).scopes());
    }
}

/// The daemon starts from its persisted head, which must be stored with an environment, and never falls
/// back on a new root while there is one. Without one it starts from the root that it stored.
pub proof fn daemon_starts_from_its_head(
    head: Option<(Digest, String)>,
    loaded: Option<NamedScope>,
    result: Result<Option<ScopeStore>, String>,
    root: NamedScope,
    stored: Result<(), String>,
    created: Result<ScopeStore, String>,
)
    requires
        call_ensures(load_initial_scope, (head, loaded), result),
        call_ensures(create_and_persist_root_scope, (root, stored), created),
    ensures
        (result matches Ok(store) && store is None) <==> head is None,
        result is Err <==> head is Some && !(loaded matches Some(scope) && scope.scope.snapshot
            is Some),
        result matches Ok(Some(store)) ==> (head matches Some((hash, _)) && store.head_hash() == hash)
            && store.scopes()[loaded->0.scope.hash] == loaded->0,
        created is Ok <==> stored is Ok,
        created matches Ok(store) ==> store.head_hash() == root.scope.hash && store.holds_head()
            && store.scopes()[root.scope.hash] == root,
{
}

/// Every scope in memory is listed once, with its parent, its directory and the size of its environment;
/// one without an environment has neither.
pub proof fn every_scope_is_listed(store: &ScopeStore, infos: Vec<ScopeInfo>, i: int)
    requires
        call_ensures(ScopeStore::list_scopes, (store,), infos),
        0 <= i < store.pairs().len(),
    ensures
        infos@.len() == store.pairs().len(),
        ({
            let scope = store.pairs()[i].1;
            exists|k: int|
                0 <= k < infos@.len() && (#[trigger] infos@[k]).hash@ == scope.name@
                    && optional_text(infos@[k].parent) == optional_text(scope.parent_name)
                    && match scope.scope.snapshot {
                    Some(snapshot) => infos@[k].cwd@ == snapshot.cwd@ && infos@[k].env_count
                        == snapshot.env.pairs().len(),
                    None => infos@[k].cwd@.len() == 0 && infos@[k].env_count == 0,
                }
        }),
{
    broadcast use vstd::seq_lib::group_to_multiset_ensures;

    let all = scope_infos(store.pairs());
    let views = infos@.map_values(|info: ScopeInfo| info@);
    scopes_are_listed_in_order(all);
    assert(views.len() == infos@.len());
    let info = info_of(store.pairs()[i].1);
    assert(all[i] == info);
    assert(all.contains(info));
    assert(views.to_multiset().count(info) > 0);
    assert(views.contains(info));
    let k = views.index_of(info);
    assert(infos@[k]@ == info);
    assert(infos@[k].hash@ == info.hash);
}

} // verus!
