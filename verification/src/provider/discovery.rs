//! OpenCode Go model discovery.
//!
//! Fetches the documented models endpoint through an injectable transport,
//! keeps only the protocol families the contract records, and caches the
//! nonsecret metadata with an explicit timestamp. No clock is read here:
//! callers pass the moment. Per-model privacy disclosure is kept only when the
//! payload states it within [`MAX_PRIVACY_DISCLOSURE_BYTES`], and stays
//! explicitly unknown otherwise.
use vstd::prelude::*;
use std::time::Duration;
use super::contract::{limits, text_check, ModelId};
use super::credential::{AuthorizationHeader, CredentialValue};
use super::failure::GoFailure;
use crate::json::{
    json_as_array, json_as_object, json_as_str, json_get, json_text, json_view, member,
    member_str, parse_json, str_of, JsonView,
};
use crate::text::{has_prefix, 
    byte_len, chars_of, ends_with, has_suffix, is_blank, owned, string_of_chars, trim, trim_seq,
};
use crate::time::{duration_nanos, from_secs, nanos};

verus! {

pub const MODELS_URL: &'static str = "https://opencode.ai/zen/go/v1/models";

pub const BRAINROOT_USER_AGENT: &'static str = "brainroot/0.1.0";

/// How long a stored catalog stays fresh, in seconds.
pub const CACHE_TTL_SECS: u64 = 900;

pub const MAX_PRIVACY_DISCLOSURE_BYTES: usize = 200;

/// How long a stored catalog stays fresh.
pub fn cache_ttl() -> (r: Duration)
    ensures
        duration_nanos(r) == CACHE_TTL_SECS * 1_000_000_000,
{
    from_secs(CACHE_TTL_SECS)
}

/// The protocol families the OpenCode Go contract records.
#[derive(Debug, Clone, Copy, PartialEq, Eq, Structural)]
pub enum ProtocolEndpoint {
    Responses,
    ChatCompletions,
    Messages,
}

/// The part of a URL before its first `?`.
pub open spec fn before_query(s: Seq<char>) -> Seq<char>
    decreases s.len(),
{
    if s.len() == 0 {
        s
    } else if s[0] == '?' {
        Seq::empty()
    } else {
        seq![s[0]] + before_query(s.drop_first())
    }
}

/// `s` without its trailing `/` characters.
pub open spec fn strip_slashes(s: Seq<char>) -> Seq<char>
    decreases s.len(),
{
    if s.len() > 0 && s.last() == '/' {
        strip_slashes(s.drop_last())
    } else {
        s
    }
}

/// The protocol family a path ends in.
pub open spec fn endpoint_of_path(p: Seq<char>) -> Option<ProtocolEndpoint> {
    if has_suffix(p, "/responses"@) {
        Some(ProtocolEndpoint::Responses)
    } else if has_suffix(p, "/chat/completions"@) {
        Some(ProtocolEndpoint::ChatCompletions)
    } else if has_suffix(p, "/messages"@) {
        Some(ProtocolEndpoint::Messages)
    } else {
        None
    }
}

/// The protocol family of a URL: its path, without query and trailing
/// slashes, names it.
pub open spec fn endpoint_of_url(url: Seq<char>) -> Option<ProtocolEndpoint> {
    endpoint_of_path(strip_slashes(before_query(url)))
}

pub open spec fn endpoint_name(e: ProtocolEndpoint) -> &'static str {
    match e {
        ProtocolEndpoint::Responses => "responses",
        ProtocolEndpoint::ChatCompletions => "chat_completions",
        ProtocolEndpoint::Messages => "messages",
    }
}

proof fn lemma_before_query(s: Seq<char>, k: int)
    requires
        0 <= k <= s.len(),
        k == s.len() || s[k] == '?',
        forall|j: int| 0 <= j < k ==> s[j] != '?',
    ensures
        before_query(s) == s.subrange(0, k),
    decreases k,
{
    if k == 0 {
        if s.len() > 0 {
            assert(s.subrange(0, 0) =~= Seq::<char>::empty());
        } else {
            assert(s.subrange(0, 0) =~= s);
        }
    } else {
        let t = s.drop_first();
        assert forall|j: int| 0 <= j < k - 1 implies t[j] != '?' by {
            assert(t[j] == s[j + 1]);
        }
        if k < s.len() {
            assert(t[k - 1] == s[k]);
        }
        lemma_before_query(t, k - 1);
        assert(seq![s[0]] + t.subrange(0, k - 1) =~= s.subrange(0, k));
    }
}

impl ProtocolEndpoint {
    pub fn from_url(url: &str) -> (r: Option<Self>)
        ensures
            r == endpoint_of_url(url@),
    {
        let v = chars_of(url);
        let mut k: usize = 0;
        while k < v.len() && v[k] != '?'
            invariant
                k <= v.len(),
                forall|j: int| 0 <= j < k ==> v@[j] != '?',
            decreases v.len() - k,
        {
            k = k + 1;
        }
        proof {
            lemma_before_query(v@, k as int);
        }
        let ghost path = v@.subrange(0, k as int);
        let mut n: usize = k;
        while n > 0 && v[n - 1] == '/'
            invariant
                n <= k <= v.len(),
                strip_slashes(v@.subrange(0, n as int)) == strip_slashes(path),
            decreases n,
        {
            assert(v@.subrange(0, n as int).drop_last() =~= v@.subrange(0, n - 1));
            n = n - 1;
        }
        let mut p: Vec<char> = Vec::new();
        let mut i: usize = 0;
        while i < n
            invariant
                i <= n <= v.len(),
                p@ == v@.subrange(0, i as int),
            decreases n - i,
        {
            p.push(v[i]);
            i = i + 1;
            assert(p@ =~= v@.subrange(0, i as int));
        }
        assert(strip_slashes(p@) == p@);
        let text = string_of_chars(p.as_slice());
        if ends_with(text.as_str(), "/responses") {
            Some(ProtocolEndpoint::Responses)
        } else if ends_with(text.as_str(), "/chat/completions") {
            Some(ProtocolEndpoint::ChatCompletions)
        } else if ends_with(text.as_str(), "/messages") {
            Some(ProtocolEndpoint::Messages)
        } else {
            None
        }
    }

    pub fn as_str(self) -> (r: &'static str)
        ensures
            r == endpoint_name(self),
    {
        match self {
            ProtocolEndpoint::Responses => "responses",
            ProtocolEndpoint::ChatCompletions => "chat_completions",
            ProtocolEndpoint::Messages => "messages",
        }
    }
}

/// A per-model privacy policy as the models payload states it: the
/// provider's own bounded text, or unknown.
#[derive(Debug, PartialEq, Eq)]
pub enum PrivacyDisclosure {
    Stated(String),
    Unknown,
}

impl View for PrivacyDisclosure {
    type V = Option<Seq<char>>;

    open spec fn view(&self) -> Option<Seq<char>> {
        match self {
            PrivacyDisclosure::Stated(s) => Some(s@),
            PrivacyDisclosure::Unknown => None,
        }
    }
}

impl Clone for PrivacyDisclosure {
    fn clone(&self) -> (r: Self)
        ensures
            r@ == self@,
    {
        match self {
            PrivacyDisclosure::Stated(s) => PrivacyDisclosure::Stated(s.clone()),
            PrivacyDisclosure::Unknown => PrivacyDisclosure::Unknown,
        }
    }
}

#[derive(Debug, PartialEq, Eq)]
pub struct ModelPrivacy {
    pub training: PrivacyDisclosure,
    pub retention: PrivacyDisclosure,
}

impl Clone for ModelPrivacy {
    fn clone(&self) -> (r: Self)
        ensures
            r.training@ == self.training@,
            r.retention@ == self.retention@,
    {
        ModelPrivacy { training: self.training.clone(), retention: self.retention.clone() }
    }
}

/// What a payload value discloses: its trimmed text when it is a string that
/// is neither blank nor longer than the limit.
pub open spec fn disclosure_of(value: Option<JsonView>) -> Option<Seq<char>> {
    match value {
        Some(JsonView::Str(t)) => {
            let text = trim_seq(t);
            if text.len() == 0 || byte_len(text) > MAX_PRIVACY_DISCLOSURE_BYTES {
                None
            } else {
                Some(text)
            }
        },
        _ => None,
    }
}

/// The training and retention disclosures of a model entry: unknown unless
/// its `privacy` member is an object.
pub open spec fn privacy_of(entry: JsonView) -> (Option<Seq<char>>, Option<Seq<char>>) {
    match member(entry, "privacy"@) {
        Some(JsonView::Object(fields)) => (
            disclosure_of(member(JsonView::Object(fields), "training"@)),
            disclosure_of(member(JsonView::Object(fields), "retention"@)),
        ),
        _ => (None, None),
    }
}

impl ModelPrivacy {
    pub fn unknown() -> (r: Self)
        ensures
            r.training@ is None,
            r.retention@ is None,
    {
        ModelPrivacy { training: PrivacyDisclosure::Unknown, retention: PrivacyDisclosure::Unknown }
    }

    fn from_entry(entry: &serde_json::Value) -> (r: Self)
        ensures
            (r.training@, r.retention@) == privacy_of(json_view(*entry)),
    {
        match json_get(entry, "privacy") {
            Some(privacy) => {
                if json_as_object(privacy).is_none() {
                    return ModelPrivacy::unknown();
                }
                ModelPrivacy {
                    training: disclosure(json_get(privacy, "training")),
                    retention: disclosure(json_get(privacy, "retention")),
                }
            },
            None => ModelPrivacy::unknown(),
        }
    }
}

fn disclosure(value: Option<&serde_json::Value>) -> (r: PrivacyDisclosure)
    ensures
        r@ == disclosure_of(
            match value {
                Some(v) => Some(json_view(*v)),
                None => None,
            },
        ),
{
    let text = match value {
        Some(v) => match json_as_str(v) {
            Some(t) => t,
            None => return PrivacyDisclosure::Unknown,
        },
        None => return PrivacyDisclosure::Unknown,
    };
    let trimmed = trim(text);
    if trimmed.as_str().is_empty() || trimmed.as_str().len() > MAX_PRIVACY_DISCLOSURE_BYTES {
        return PrivacyDisclosure::Unknown;
    }
    PrivacyDisclosure::Stated(trimmed)
}

#[derive(Debug, PartialEq, Eq)]
pub struct DiscoveredModel {
    pub id: ModelId,
    pub display_name: String,
    /// The protocol family, when it is stated.
    pub endpoint: Option<ProtocolEndpoint>,
    pub privacy: ModelPrivacy,
}

/// What a discovered model holds, as plain values.
pub struct ModelFacts {
    pub id: Seq<char>,
    pub display_name: Seq<char>,
    pub endpoint: Option<ProtocolEndpoint>,
    pub training: Option<Seq<char>>,
    pub retention: Option<Seq<char>>,
}

pub open spec fn model_facts(m: DiscoveredModel) -> ModelFacts {
    ModelFacts {
        id: m.id@,
        display_name: m.display_name@,
        endpoint: m.endpoint,
        training: m.privacy.training@,
        retention: m.privacy.retention@,
    }
}

pub open spec fn models_facts(ms: Seq<DiscoveredModel>) -> Seq<ModelFacts> {
    ms.map_values(|m: DiscoveredModel| model_facts(m))
}

impl Clone for DiscoveredModel {
    fn clone(&self) -> (r: Self)
        ensures
            model_facts(r) == model_facts(*self),
    {
        DiscoveredModel {
            id: self.id.clone(),
            display_name: self.display_name.clone(),
            endpoint: self.endpoint,
            privacy: self.privacy.clone(),
        }
    }
}

/// The model a payload entry describes: an object with a valid string `id`
/// and a string `endpoint` of a recorded protocol family; the display name is
/// its string `name`, else the id.
pub open spec fn model_of_entry(entry: JsonView) -> Option<ModelFacts> {
    match entry {
        JsonView::Object(_) => match (member_str(entry, "id"@), member_str(entry, "endpoint"@)) {
            (Some(id), Some(url)) => match endpoint_of_url(url) {
                Some(endpoint) => if text_check("model_id", id, limits::MAX_MODEL_ID_BYTES) is Ok {
                    Some(
                        ModelFacts {
                            id,
                            display_name: match member_str(entry, "name"@) {
                                Some(name) => name,
                                None => id,
                            },
                            endpoint: Some(endpoint),
                            training: privacy_of(entry).0,
                            retention: privacy_of(entry).1,
                        },
                    )
                } else {
                    None
                },
                None => None,
            },
            _ => None,
        },
        _ => None,
    }
}

/// The models that the entries describe, in order; other entries are skipped.
pub open spec fn models_of_entries(entries: Seq<JsonView>) -> Seq<ModelFacts>
    decreases entries.len(),
{
    if entries.len() == 0 {
        Seq::empty()
    } else {
        let rest = models_of_entries(entries.drop_last());
        match model_of_entry(entries.last()) {
            Some(m) => rest.push(m),
            None => rest,
        }
    }
}

/// The model entries of a payload: a bare array, or the array under `data`.
pub open spec fn payload_entries(payload: JsonView) -> Option<Seq<JsonView>> {
    match payload {
        JsonView::Array(items) => Some(items),
        JsonView::Object(_) => match member(payload, "data"@) {
            Some(JsonView::Array(items)) => Some(items),
            _ => None,
        },
        _ => None,
    }
}

/// What a models response body yields: the described models, or a malformed
/// response when the body is not JSON or holds no entry array.
pub open spec fn models_of_body(body: Seq<char>) -> Result<Seq<ModelFacts>, GoFailure> {
    match json_text(body) {
        Some(payload) => match payload_entries(payload) {
            Some(entries) => Ok(models_of_entries(entries)),
            None => Err(GoFailure::MalformedResponse),
        },
        None => Err(GoFailure::MalformedResponse),
    }
}

fn model_from_entry(entry: &serde_json::Value) -> (r: Option<DiscoveredModel>)
    ensures
        match r {
            Some(m) => model_of_entry(json_view(*entry)) == Some(model_facts(m)),
            None => model_of_entry(json_view(*entry)) is None,
        },
{
    if json_as_object(entry).is_none() {
        return None;
    }
    let id_text = match json_get(entry, "id") {
        Some(v) => match json_as_str(v) {
            Some(t) => t,
            None => return None,
        },
        None => return None,
    };
    let url = match json_get(entry, "endpoint") {
        Some(v) => match json_as_str(v) {
            Some(t) => t,
            None => return None,
        },
        None => return None,
    };
    let endpoint = match ProtocolEndpoint::from_url(url) {
        Some(e) => e,
        None => return None,
    };
    let id = match ModelId::new(id_text) {
        Ok(id) => id,
        Err(_) => return None,
    };
    let display_name = match json_get(entry, "name") {
        Some(v) => match json_as_str(v) {
            Some(name) => owned(name),
            None => owned(id.as_str()),
        },
        None => owned(id.as_str()),
    };
    Some(
        DiscoveredModel {
            id,
            display_name,
            endpoint: Some(endpoint),
            privacy: ModelPrivacy::from_entry(entry),
        },
    )
}

/// Parses a models response body.
pub fn parse_models(body: &str) -> (r: Result<Vec<DiscoveredModel>, GoFailure>)
    ensures
        match r {
            Ok(models) => models_of_body(body@) == Ok::<Seq<ModelFacts>, GoFailure>(
                models_facts(models@),
            ),
            Err(e) => models_of_body(body@) == Err::<Seq<ModelFacts>, GoFailure>(e),
        },
{
    let payload = match parse_json(body) {
        Some(v) => v,
        None => return Err(GoFailure::MalformedResponse),
    };
    let entries = match json_as_array(&payload) {
        Some(items) => items,
        None => {
            if json_as_object(&payload).is_none() {
                return Err(GoFailure::MalformedResponse);
            }
            match json_get(&payload, "data") {
                Some(data) => match json_as_array(data) {
                    Some(items) => items,
                    None => return Err(GoFailure::MalformedResponse),
                },
                None => return Err(GoFailure::MalformedResponse),
            }
        },
    };
    let ghost views = entries@.map_values(|v: serde_json::Value| json_view(v));
    assert(payload_entries(json_view(payload)) == Some(views));
    let mut models: Vec<DiscoveredModel> = Vec::new();
    let mut i: usize = 0;
    while i < entries.len()
        invariant
            i <= entries.len(),
            views == entries@.map_values(|v: serde_json::Value| json_view(v)),
            models_facts(models@) == models_of_entries(views.subrange(0, i as int)),
        decreases entries.len() - i,
    {
        assert(views.subrange(0, i + 1).drop_last() =~= views.subrange(0, i as int));
        assert(views[i as int] == json_view(entries@[i as int]));
        match model_from_entry(&entries[i]) {
            Some(m) => {
                let ghost before = models@;
                models.push(m);
                assert(models_facts(models@) =~= models_facts(before).push(model_facts(m)));
            },
            None => {},
        }
        i = i + 1;
    }
    assert(views.subrange(0, entries.len() as int) =~= views);
    Ok(models)
}

/// The request discovery makes: a GET of [`MODELS_URL`] with one
/// `Authorization: Bearer ...` header.
pub open spec fn is_models_request(url: Seq<char>, headers: Seq<(&str, &str)>) -> bool {
    &&& url == MODELS_URL@
    &&& headers.len() == 1
    &&& headers[0].0@ == "Authorization"@
    &&& has_prefix(headers[0].1@, "Bearer "@)
}

/// The minimal HTTP surface discovery needs. It is only ever asked for the
/// models request; what it answers depends on the network, so nothing is
/// stated of the answer.
pub trait HttpTransport {
    fn get(&self, url: &str, headers: &[(&str, &str)]) -> Result<String, GoFailure>
        requires
            is_models_request(url@, headers@),
    ;
}

/// What a transport's answer to the models request becomes: a body is
/// parsed, a failure is passed on unchanged.
pub fn models_from_answer(answer: Result<String, GoFailure>) -> (r: Result<
    Vec<DiscoveredModel>,
    GoFailure,
>)
    ensures
        answer matches Ok(body) ==> match r {
            Ok(models) => models_of_body(body@) == Ok::<Seq<ModelFacts>, GoFailure>(
                models_facts(models@),
            ),
            Err(e) => models_of_body(body@) == Err::<Seq<ModelFacts>, GoFailure>(e),
        },
        answer matches Err(f) ==> r == Err::<Vec<DiscoveredModel>, GoFailure>(f),
{
    match answer {
        Ok(body) => parse_models(body.as_str()),
        Err(e) => Err(e),
    }
}

/// The models request discovery made and the answer it got, as plain values.
pub struct ModelsCall {
    pub url: Seq<char>,
    pub headers: Seq<(Seq<char>, Seq<char>)>,
    pub answer: Result<Seq<char>, GoFailure>,
}

/// The headers of the models request for `credential`: its bearer header.
pub open spec fn bearer_headers(credential: Seq<char>) -> Seq<(Seq<char>, Seq<char>)> {
    seq![("Authorization"@, "Bearer "@ + credential)]
}

/// Whether `r` is what discovery returns for `answer`: a body is parsed,
/// a failure is passed on unchanged.
pub open spec fn models_outcome(
    answer: Result<Seq<char>, GoFailure>,
    r: Result<Vec<DiscoveredModel>, GoFailure>,
) -> bool {
    match answer {
        Ok(body) => match r {
            Ok(models) => models_of_body(body) == Ok::<Seq<ModelFacts>, GoFailure>(models_facts(models@)),
            Err(e) => models_of_body(body) == Err::<Seq<ModelFacts>, GoFailure>(e),
        },
        Err(f) => r == Err::<Vec<DiscoveredModel>, GoFailure>(f),
    }
}

/// Whether `call` is the models request for `credential`, answered so that
/// discovery returned `r`.
pub open spec fn models_call_right(
    call: ModelsCall,
    credential: Seq<char>,
    r: Result<Vec<DiscoveredModel>, GoFailure>,
) -> bool {
    &&& call.url == MODELS_URL@
    &&& call.headers == bearer_headers(credential)
    &&& models_outcome(call.answer, r)
}

pub struct DiscoveryClient<T: HttpTransport> {
    pub transport: T,
    calls: Ghost<Seq<ModelsCall>>,
}

impl<T: HttpTransport> DiscoveryClient<T> {
    /// Every request the client made, with its answer, in order.
    pub closed spec fn calls(&self) -> Seq<ModelsCall> {
        self.calls@
    }

    /// The transport the client goes through.
    pub closed spec fn held_transport(&self) -> T {
        self.transport
    }

    pub fn new(transport: T) -> (r: Self)
        ensures
            r.held_transport() == transport,
            r.calls() == Seq::<ModelsCall>::empty(),
    {
        DiscoveryClient { transport, calls: Ghost(Seq::empty()) }
    }

    /// Fetches [`MODELS_URL`] with the credential as a bearer header and
    /// parses the answer; a transport failure is returned as it is. The one
    /// request made is recorded with its answer.
    pub fn fetch(&mut self, credential: &CredentialValue) -> (r: Result<Vec<DiscoveredModel>, GoFailure>)
        ensures
            final(self).held_transport() == old(self).held_transport(),
            final(self).calls().len() == old(self).calls().len() + 1,
            final(self).calls().drop_last() == old(self).calls(),
            models_call_right(final(self).calls().last(), credential@, r),
    {
        let (r, call) = fetch_models(&self.transport, credential);
        self.calls = Ghost(self.calls@.push(call@));
        proof {
            assert(self.calls@.drop_last() =~= old(self).calls@);
        }
        r
    }
}

/// Fetches [`MODELS_URL`] through `transport` with the credential as a bearer
/// header and parses the answer; a transport failure is returned as it is.
/// The request made and its answer come back beside the result.
pub fn fetch_models<T: HttpTransport>(transport: &T, credential: &CredentialValue) -> (r: (
    Result<Vec<DiscoveredModel>, GoFailure>,
    Ghost<ModelsCall>,
))
    ensures
        models_call_right(r.1@, credential@, r.0),
{
    let authorization = AuthorizationHeader::bearer(credential);
    let headers: [(&str, &str); 1] = [("Authorization", authorization.expose_to_core())];
    proof {
        reveal_strlit("Bearer ");
        assert(authorization@.subrange(0, 7) =~= "Bearer "@);
    }
    let answer = transport.get(MODELS_URL, headers.as_slice());
    let ghost call = ModelsCall {
        url: MODELS_URL@,
        headers: headers@.map_values(|h: (&str, &str)| (h.0@, h.1@)),
        answer: match &answer {
            Ok(b) => Ok::<Seq<char>, GoFailure>(b@),
            Err(f) => Err::<Seq<char>, GoFailure>(*f),
        },
    };
    proof {
        reveal_strlit("Authorization");
        assert(call.headers =~= bearer_headers(credential@));
    }
    let r = models_from_answer(answer);
    (r, Ghost(call))
}

/// What the cache offers at a given moment.
#[derive(Debug, PartialEq, Eq)]
pub enum CatalogState {
    Fresh(Vec<DiscoveredModel>),
    Stale(Vec<DiscoveredModel>),
    Empty,
}

/// Nonsecret model metadata with the moment it was fetched.
#[derive(Debug)]
pub struct ModelCache {
    stored_at: Option<Duration>,
    models: Vec<DiscoveredModel>,
}

/// Whether a catalog stored at `stored` (nanoseconds) is fresh at `at`: its
/// age, never negative, is at most the cache's lifetime.
pub open spec fn is_fresh(stored: nat, at: nat) -> bool {
    at <= stored || at - stored <= CACHE_TTL_SECS * 1_000_000_000
}

/// A copy of `models`.
pub fn clone_models(models: &Vec<DiscoveredModel>) -> (r: Vec<DiscoveredModel>)
    ensures
        models_facts(r@) == models_facts(models@),
{
    let mut r: Vec<DiscoveredModel> = Vec::new();
    let mut i: usize = 0;
    while i < models.len()
        invariant
            i <= models.len(),
            models_facts(r@) == models_facts(models@.subrange(0, i as int)),
        decreases models.len() - i,
    {
        let ghost before = r@;
        let c = models[i].clone();
        r.push(c);
        assert(models_facts(r@) =~= models_facts(before).push(model_facts(c)));
        assert(models_facts(models@.subrange(0, i + 1)) =~= models_facts(
            models@.subrange(0, i as int),
        ).push(model_facts(models@[i as int])));
        i = i + 1;
    }
    assert(models@.subrange(0, models.len() as int) =~= models@);
    r
}

impl Default for ModelCache {
    fn default() -> (r: Self)
        ensures
            r.stored_at_nanos() is None,
            r.models().len() == 0,
    {
        ModelCache::new()
    }
}

impl ModelCache {
    /// When the catalog was stored, in nanoseconds, if it was.
    pub closed spec fn stored_at_nanos(&self) -> Option<nat> {
        match self.stored_at {
            Some(d) => Some(duration_nanos(d)),
            None => None,
        }
    }

    /// The stored models.
    pub closed spec fn models(&self) -> Seq<ModelFacts> {
        models_facts(self.models@)
    }

    pub fn new() -> (r: Self)
        ensures
            r.stored_at_nanos() is None,
            r.models().len() == 0,
    {
        ModelCache { stored_at: None, models: Vec::new() }
    }

    /// Stores nonsecret metadata with the moment it was fetched.
    pub fn store(&mut self, at: Duration, models: Vec<DiscoveredModel>)
        ensures
            final(self).stored_at_nanos() == Some(duration_nanos(at)),
            final(self).models() == models_facts(models@),
    {
        self.stored_at = Some(at);
        self.models = models;
    }

    pub fn clear(&mut self)
        ensures
            final(self).stored_at_nanos() is None,
            final(self).models().len() == 0,
    {
        self.stored_at = None;
        self.models.clear();
    }

    /// Empty before a store, after a clear, or when nothing was stored;
    /// otherwise the models, fresh while their age is within the lifetime and
    /// stale after it. A moment before the store counts as age zero.
    pub fn state(&self, at: Duration) -> (r: CatalogState)
        ensures
            (self.stored_at_nanos() is None || self.models().len() == 0) <==> r is Empty,
            r matches CatalogState::Fresh(ms) ==> models_facts(ms@) == self.models() && is_fresh(
                self.stored_at_nanos()->0,
                duration_nanos(at),
            ),
            r matches CatalogState::Stale(ms) ==> models_facts(ms@) == self.models() && !is_fresh(
                self.stored_at_nanos()->0,
                duration_nanos(at),
            ),
    {
        let stored_at = match self.stored_at {
            Some(d) => d,
            None => return CatalogState::Empty,
        };
        if self.models.len() == 0 {
            return CatalogState::Empty;
        }
        let stored = nanos(stored_at);
        let now = nanos(at);
        let ttl = nanos(cache_ttl());
        if now <= stored || now - stored <= ttl {
            CatalogState::Fresh(clone_models(&self.models))
        } else {
            CatalogState::Stale(clone_models(&self.models))
        }
    }
}

} // verus!
