//! The core-only credential boundary.
//!
//! Only [`CredentialStatus`] ever leaves the core. Credential values,
//! authorization headers and references render themselves redacted, and the
//! session store is a deterministic in-memory list of references and values.
use vstd::prelude::*;
use vstd::rwlock::{RwLock, RwLockPredicate};
use std::sync::Arc;
use crate::text::{is_blank, is_blank_seq, join2, owned};

verus! {

#[derive(Debug, Clone, Copy, PartialEq, Eq, Structural)]
pub enum CredentialStatus {
    Configured,
    NotConfigured,
    Unavailable,
}

#[derive(Debug, Clone, Copy, PartialEq, Eq, Structural)]
pub enum CredentialError {
    NotConfigured,
    UnknownReference,
    BackendUnavailable,
    Empty,
}

/// The plain-language message of each credential error.
pub open spec fn credential_error_text(e: CredentialError) -> &'static str {
    match e {
        CredentialError::NotConfigured => "No credential is configured for this provider.",
        CredentialError::UnknownReference => "The credential reference does not exist.",
        CredentialError::BackendUnavailable => "The credential store is not available on this system.",
        CredentialError::Empty => "The credential value must not be empty.",
    }
}

impl CredentialError {
    pub fn message(&self) -> (r: String)
        ensures
            r@ == credential_error_text(*self)@,
    {
        match self {
            CredentialError::NotConfigured => owned("No credential is configured for this provider."),
            CredentialError::UnknownReference => owned("The credential reference does not exist."),
            CredentialError::BackendUnavailable => owned("The credential store is not available on this system."),
            CredentialError::Empty => owned("The credential value must not be empty."),
        }
    }
}

/// A secret credential value: never blank, and never rendered in debug text.
#[derive(PartialEq, Eq)]
pub struct CredentialValue(String);

impl View for CredentialValue {
    type V = Seq<char>;

    closed spec fn view(&self) -> Seq<char> {
        self.0@
    }
}

impl Clone for CredentialValue {
    fn clone(&self) -> (r: Self)
        ensures
            r@ == self@,
    {
        CredentialValue(self.0.clone())
    }
}

impl CredentialValue {
    /// Accepts any text that is not blank.
    pub fn new(value: &str) -> (r: Result<Self, CredentialError>)
        ensures
            r is Err <==> is_blank_seq(value@),
            r matches Err(e) ==> e == CredentialError::Empty,
            r matches Ok(v) ==> v@ == value@,
    {
        if is_blank(value) {
            Err(CredentialError::Empty)
        } else {
            Ok(CredentialValue(owned(value)))
        }
    }

    /// The secret itself, for the transport layer only.
    pub fn expose_to_core(&self) -> (r: &str)
        ensures
            r@ == self@,
    {
        self.0.as_str()
    }

    /// The debug rendering, which never depends on the secret.
    pub fn redacted(&self) -> (r: String)
        ensures
            r@ == "CredentialValue([redacted])"@,
    {
        owned("CredentialValue([redacted])")
    }
}

/// An HTTP `Authorization` header value built from a credential.
#[derive(PartialEq, Eq)]
pub struct AuthorizationHeader(String);

impl View for AuthorizationHeader {
    type V = Seq<char>;

    closed spec fn view(&self) -> Seq<char> {
        self.0@
    }
}

impl Clone for AuthorizationHeader {
    fn clone(&self) -> (r: Self)
        ensures
            r@ == self@,
    {
        AuthorizationHeader(self.0.clone())
    }
}

impl AuthorizationHeader {
    /// `Bearer ` followed by the credential.
    pub fn bearer(value: &CredentialValue) -> (r: Self)
        ensures
            r@ == "Bearer "@ + value@,
    {
        AuthorizationHeader(join2("Bearer ", value.expose_to_core()))
    }

    /// The header value, for the HTTP layer only.
    pub fn expose_to_core(&self) -> (r: &str)
        ensures
            r@ == self@,
    {
        self.0.as_str()
    }

    /// The debug rendering, which never depends on the credential.
    pub fn redacted(&self) -> (r: String)
        ensures
            r@ == "AuthorizationHeader([redacted])"@,
    {
        owned("AuthorizationHeader([redacted])")
    }
}

/// The name under which a credential is stored: never blank.
#[derive(PartialEq, Eq)]
pub struct CredentialReference(String);

impl View for CredentialReference {
    type V = Seq<char>;

    closed spec fn view(&self) -> Seq<char> {
        self.0@
    }
}

impl Clone for CredentialReference {
    fn clone(&self) -> (r: Self)
        ensures
            r@ == self@,
    {
        CredentialReference(self.0.clone())
    }
}

impl CredentialReference {
    /// Accepts any name that is not blank.
    pub fn new(id: &str) -> (r: Result<Self, CredentialError>)
        ensures
            r is Err <==> is_blank_seq(id@),
            r matches Err(e) ==> e == CredentialError::Empty,
            r matches Ok(v) ==> v@ == id@,
    {
        if is_blank(id) {
            Err(CredentialError::Empty)
        } else {
            Ok(CredentialReference(owned(id)))
        }
    }

    pub fn as_str(&self) -> (r: &str)
        ensures
            r@ == self@,
    {
        self.0.as_str()
    }

    /// Whether both references name the same entry.
    pub fn same_as(&self, other: &CredentialReference) -> (r: bool)
        ensures
            r == (self@ == other@),
    {
        self.0 == other.0
    }

    /// The debug rendering, which never depends on the name.
    pub fn redacted(&self) -> (r: String)
        ensures
            r@ == "CredentialReference([redacted])"@,
    {
        owned("CredentialReference([redacted])")
    }
}

/// A place where credentials are kept. Each store states in its own
/// contracts what its methods do.
pub trait CredentialStore {
    /// Whether the store accepts every credential it is given: a store says
    /// so only of itself, and by default it does not.
    open spec fn accepts_every_set() -> bool {
        false
    }

    fn status(&self) -> CredentialStatus;

    fn reference(&self) -> Option<CredentialReference>;

    fn resolve(&self, reference: &CredentialReference) -> Result<CredentialValue, CredentialError>;

    fn set(&mut self, reference: CredentialReference, value: CredentialValue) -> (r: Result<
        (),
        CredentialError,
    >)
        ensures
            Self::accepts_every_set() ==> r is Ok,
    ;
}

/// The value stored first under `r` in `entries` (pairs of reference and value).
pub open spec fn lookup(entries: Seq<(Seq<char>, Seq<char>)>, r: Seq<char>) -> Option<Seq<char>>
    decreases entries.len(),
{
    if entries.len() == 0 {
        None
    } else {
        match lookup(entries.drop_last(), r) {
            Some(v) => Some(v),
            None => if entries.last().0 == r {
                Some(entries.last().1)
            } else {
                None
            },
        }
    }
}

/// `entries` without the pairs stored under `r`, in their order.
pub open spec fn without(entries: Seq<(Seq<char>, Seq<char>)>, r: Seq<char>) -> Seq<
    (Seq<char>, Seq<char>),
>
    decreases entries.len(),
{
    if entries.len() == 0 {
        Seq::empty()
    } else {
        let rest = without(entries.drop_last(), r);
        if entries.last().0 == r {
            rest
        } else {
            rest.push(entries.last())
        }
    }
}

/// The entries after storing `v` under `r`: any older pair under `r` goes,
/// and the new pair comes last.
pub open spec fn stored(entries: Seq<(Seq<char>, Seq<char>)>, r: Seq<char>, v: Seq<char>) -> Seq<
    (Seq<char>, Seq<char>),
> {
    without(entries, r).push((r, v))
}

/// The status a list of entries reports.
pub open spec fn entries_status(entries: Seq<(Seq<char>, Seq<char>)>) -> CredentialStatus {
    if entries.len() == 0 {
        CredentialStatus::NotConfigured
    } else {
        CredentialStatus::Configured
    }
}

pub proof fn lemma_lookup_absent(entries: Seq<(Seq<char>, Seq<char>)>, r: Seq<char>)
    requires
        forall|k: int| 0 <= k < entries.len() ==> (#[trigger] entries[k]).0 != r,
    ensures
        lookup(entries, r) is None,
    decreases entries.len(),
{
    if entries.len() > 0 {
        let d = entries.drop_last();
        assert forall|k: int| 0 <= k < d.len() implies (#[trigger] d[k]).0 != r by {
            assert(d[k] == entries[k]);
        }
        lemma_lookup_absent(d, r);
        assert(entries.last() == entries[entries.len() - 1]);
    }
}

pub proof fn lemma_lookup_first(entries: Seq<(Seq<char>, Seq<char>)>, r: Seq<char>, i: int)
    requires
        0 <= i < entries.len(),
        entries[i].0 == r,
        forall|k: int| 0 <= k < i ==> (#[trigger] entries[k]).0 != r,
    ensures
        lookup(entries, r) == Some(entries[i].1),
    decreases entries.len(),
{
    let d = entries.drop_last();
    if i < entries.len() - 1 {
        assert forall|k: int| 0 <= k < i implies (#[trigger] d[k]).0 != r by {
            assert(d[k] == entries[k]);
        }
        assert(d[i] == entries[i]);
        lemma_lookup_first(d, r, i);
    } else {
        assert forall|k: int| 0 <= k < d.len() implies (#[trigger] d[k]).0 != r by {
            assert(d[k] == entries[k]);
        }
        lemma_lookup_absent(d, r);
    }
}

pub proof fn lemma_without_drops(entries: Seq<(Seq<char>, Seq<char>)>, r: Seq<char>)
    ensures
        forall|k: int| 0 <= k < without(entries, r).len() ==> (#[trigger] without(entries, r)[k]).0
            != r,
    decreases entries.len(),
{
    if entries.len() > 0 {
        let d = entries.drop_last();
        lemma_without_drops(d, r);
        let w = without(d, r);
        if entries.last().0 != r {
            assert forall|k: int| 0 <= k < w.len() + 1 implies (#[trigger] w.push(
                entries.last(),
            )[k]).0 != r by {
                if k < w.len() {
                    assert(w.push(entries.last())[k] == w[k]);
                }
            }
        }
    }
}

pub proof fn lemma_without_keeps_others(
    entries: Seq<(Seq<char>, Seq<char>)>,
    r: Seq<char>,
    q: Seq<char>,
)
    requires
        q != r,
    ensures
        lookup(without(entries, r), q) == lookup(entries, q),
    decreases entries.len(),
{
    if entries.len() > 0 {
        let d = entries.drop_last();
        lemma_without_keeps_others(d, r, q);
        let w = without(d, r);
        if entries.last().0 != r {
            assert(w.push(entries.last()).drop_last() =~= w);
        }
    }
}


/// The reference and value text of each stored pair.
pub open spec fn entries_view(v: Seq<(CredentialReference, CredentialValue)>) -> Seq<
    (Seq<char>, Seq<char>),
> {
    v.map_values(|e: (CredentialReference, CredentialValue)| (e.0@, e.1@))
}

/// The session-only store: pairs of reference and value, in the order they
/// were last stored. Nothing is persisted.
pub struct InMemoryCredentialStore {
    entries: Vec<(CredentialReference, CredentialValue)>,
}

impl View for InMemoryCredentialStore {
    type V = Seq<(Seq<char>, Seq<char>)>;

    closed spec fn view(&self) -> Seq<(Seq<char>, Seq<char>)> {
        entries_view(self.entries@)
    }
}

impl Default for InMemoryCredentialStore {
    fn default() -> (r: Self)
        ensures
            r@ == Seq::<(Seq<char>, Seq<char>)>::empty(),
    {
        InMemoryCredentialStore::new()
    }
}

impl InMemoryCredentialStore {
    pub fn new() -> (r: Self)
        ensures
            r@ == Seq::<(Seq<char>, Seq<char>)>::empty(),
    {
        let r = InMemoryCredentialStore { entries: Vec::new() };
        assert(r@ =~= Seq::<(Seq<char>, Seq<char>)>::empty());
        r
    }

    /// Forgets every stored credential.
    pub fn clear(&mut self)
        ensures
            final(self)@ == Seq::<(Seq<char>, Seq<char>)>::empty(),
    {
        self.entries.clear();
        assert(self@ =~= Seq::<(Seq<char>, Seq<char>)>::empty());
    }
}

impl CredentialStore for InMemoryCredentialStore {
    open spec fn accepts_every_set() -> bool {
        true
    }

    fn status(&self) -> (r: CredentialStatus)
        ensures
            r == entries_status(self@),
    {
        if self.entries.len() == 0 {
            CredentialStatus::NotConfigured
        } else {
            CredentialStatus::Configured
        }
    }

    fn reference(&self) -> (r: Option<CredentialReference>)
        ensures
            self@.len() == 0 ==> r is None,
            self@.len() > 0 ==> (r matches Some(x) && x@ == self@[0].0),
    {
        if self.entries.len() == 0 {
            None
        } else {
            Some(self.entries[0].0.clone())
        }
    }

    fn resolve(&self, reference: &CredentialReference) -> (r: Result<
        CredentialValue,
        CredentialError,
    >)
        ensures
            lookup(self@, reference@) is None <==> r is Err,
            r matches Err(e) ==> e == CredentialError::UnknownReference,
            r matches Ok(v) ==> lookup(self@, reference@) == Some(v@),
    {
        let mut i: usize = 0;
        while i < self.entries.len()
            invariant
                i <= self.entries.len(),
                forall|k: int| 0 <= k < i ==> (#[trigger] self@[k]).0 != reference@,
            decreases self.entries.len() - i,
        {
            assert(self@[i as int] == (self.entries@[i as int].0@, self.entries@[i as int].1@));
            if self.entries[i].0.same_as(reference) {
                proof {
                    lemma_lookup_first(self@, reference@, i as int);
                }
                return Ok(self.entries[i].1.clone());
            }
            i = i + 1;
        }
        proof {
            lemma_lookup_absent(self@, reference@);
        }
        Err(CredentialError::UnknownReference)
    }

    fn set(&mut self, reference: CredentialReference, value: CredentialValue) -> (r: Result<
        (),
        CredentialError,
    >)
        ensures
            r is Ok,
            final(self)@ == stored(old(self)@, reference@, value@),
    {
        let ghost before = self@;
        let mut kept: Vec<(CredentialReference, CredentialValue)> = Vec::new();
        let mut i: usize = 0;
        while i < self.entries.len()
            invariant
                i <= self.entries.len(),
                self@ == before,
                entries_view(kept@) == without(before.subrange(0, i as int), reference@),
            decreases self.entries.len() - i,
        {
            let ghost prefix = before.subrange(0, i as int);
            assert(before.subrange(0, i + 1).drop_last() =~= prefix);
            assert(before[i as int] == (self.entries@[i as int].0@, self.entries@[i as int].1@));
            if !self.entries[i].0.same_as(&reference) {
                let pair = (self.entries[i].0.clone(), self.entries[i].1.clone());
                let ghost old_kept = kept@;
                kept.push(pair);
                assert(entries_view(kept@) =~= entries_view(old_kept).push(before[i as int]));
            }
            i = i + 1;
        }
        assert(before.subrange(0, before.len() as int) =~= before);
        let ghost old_kept = kept@;
        kept.push((reference, value));
        assert(entries_view(kept@) =~= entries_view(old_kept).push((reference@, value@)));
        self.entries = kept;
        Ok(())
    }
}


/// The lock predicate of a shared store: any contents are allowed, since what
/// a shared store holds is whatever its holders last wrote.
pub struct AnyContents;

impl<S> RwLockPredicate<S> for AnyContents {
    open spec fn inv(self, v: S) -> bool {
        true
    }
}

/// A handle on one credential store, shared by all of its clones; every call
/// holds the store's lock for its duration.
pub struct ProviderState<S = InMemoryCredentialStore> {
    store: Arc<RwLock<S, AnyContents>>,
}

impl<S> Clone for ProviderState<S> {
    /// A second handle on the same store.
    fn clone(&self) -> (r: Self)
        ensures
            r == *self,
    {
        ProviderState { store: self.store.clone() }
    }
}

impl ProviderState<InMemoryCredentialStore> {
    /// A handle on a new, empty session-only store.
    pub fn new() -> (r: Self) {
        ProviderState::with_store(InMemoryCredentialStore::new())
    }
}

impl Default for ProviderState<InMemoryCredentialStore> {
    fn default() -> (r: Self) {
        ProviderState::new()
    }
}

impl<S: CredentialStore> ProviderState<S> {
    /// A handle on `store`, which from now on is reached only through the handle.
    pub fn with_store(store: S) -> (r: Self) {
        ProviderState { store: Arc::new(RwLock::new(store, Ghost(AnyContents))) }
    }

    /// A handle on a store that is already on the heap.
    pub fn with_boxed_store(store: Box<S>) -> (r: Self) {
        ProviderState::with_store(*store)
    }

    /// The status the shared store reports now.
    pub fn credential_status(&self) -> (r: CredentialStatus) {
        let handle = self.store.acquire_read();
        let status = handle.borrow().status();
        handle.release_read();
        status
    }

    /// The reference the shared store reports now.
    pub fn credential_reference(&self) -> (r: Option<CredentialReference>) {
        let handle = self.store.acquire_read();
        let reference = handle.borrow().reference();
        handle.release_read();
        reference
    }

    /// Stores `value` under `reference` in the shared store.
    pub fn set_credential(&self, reference: CredentialReference, value: CredentialValue) -> (r:
        Result<(), CredentialError>)
        ensures
            S::accepts_every_set() ==> r is Ok,
    {
        let (mut store, handle) = self.store.acquire_write();
        let result = store.set(reference, value);
        handle.release_write(store);
        result
    }

    /// What the shared store holds under `reference` now.
    pub fn resolve(&self, reference: &CredentialReference) -> (r: Result<
        CredentialValue,
        CredentialError,
    >) {
        let handle = self.store.acquire_read();
        let value = handle.borrow().resolve(reference);
        handle.release_read();
        value
    }
}

/// What is stored under a reference is what a later lookup finds.
pub proof fn lemma_read_after_write(
    entries: Seq<(Seq<char>, Seq<char>)>,
    r: Seq<char>,
    v: Seq<char>,
)
    ensures
        lookup(stored(entries, r, v), r) == Some(v),
        entries_status(stored(entries, r, v)) == CredentialStatus::Configured,
{
    let w = without(entries, r);
    lemma_without_drops(entries, r);
    lemma_lookup_absent(w, r);
    assert(w.push((r, v)).drop_last() =~= w);
}

/// Storing under one reference leaves what the others find unchanged.
pub proof fn lemma_write_keeps_others(
    entries: Seq<(Seq<char>, Seq<char>)>,
    r: Seq<char>,
    v: Seq<char>,
    q: Seq<char>,
)
    requires
        q != r,
    ensures
        lookup(stored(entries, r, v), q) == lookup(entries, q),
{
    let w = without(entries, r);
    lemma_without_keeps_others(entries, r, q);
    assert(w.push((r, v)).drop_last() =~= w);
}

} // verus!
