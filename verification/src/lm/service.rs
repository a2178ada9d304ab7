//! What the language-model service holds between requests: the loaded model,
//! the mounted adapters and the prompt sessions, with the rules for loading,
//! mounting and picking the model a request runs on.
//!
//! The model, tokenizer and KV-cache handles are opaque to the library (type
//! parameter `H`); the library decides which of them a request uses.

use vstd::prelude::*;
use crate::text::{contains_seq, lowercase, owned, str_contains, str_eq, to_lowercase, trim, trim_str};
use crate::lm::models::{string_views, MountedAdapterInfo};
use crate::lm::registry::{put_into, taken_from, NamedList};

verus! {

/// The most adapters mounted at once.
pub const MAX_MOUNTED_ADAPTERS: usize = 4;

/// A lowercase layer class name marks a mixture-of-experts router: it
/// mentions `moe`, `switch`, `sparse` or `expert`.
pub open spec fn moe_class(lower: Seq<char>) -> bool {
    contains_seq(lower, "moe"@) || contains_seq(lower, "switch"@) || contains_seq(lower, "sparse"@)
        || contains_seq(lower, "expert"@)
}

/// Whether a layer of class `class_name` (in any case) is a mixture-of-experts
/// router, whose `top_k` a load may override.
pub fn is_moe_layer(class_name: &str) -> (r: bool)
    ensures
        r == moe_class(lowercase(class_name@)),
{
    let lower = to_lowercase(class_name);
    let l = lower.as_str();
    str_contains(l, "moe") || str_contains(l, "switch") || str_contains(l, "sparse") || str_contains(l, "expert")
}

/// Why the service refused a request.
pub enum ServiceError {
    /// No model is loaded.
    NotLoaded,
    /// No adapter is mounted under this name.
    AdapterNotFound(String),
    /// Loading or mounting was refused, with the reason.
    LoadFailed(String),
    /// The model is not on the allow-list.
    NotAllowed(String),
    /// A stream ran past its time limit.
    Timeout,
    /// The request is too long, with the reason.
    TokenLimit(String),
    /// The model code failed.
    Python(String),
    /// Anything else.
    Internal(String),
}

/// The HTTP status of an error.
pub open spec fn service_status(e: ServiceError) -> u16 {
    match e {
        ServiceError::NotLoaded => 503,
        ServiceError::LoadFailed(_) | ServiceError::NotAllowed(_) | ServiceError::TokenLimit(_) => 400,
        ServiceError::AdapterNotFound(_) => 404,
        ServiceError::Timeout => 504,
        ServiceError::Python(_) | ServiceError::Internal(_) => 500,
    }
}

/// The error code of an error.
pub open spec fn service_code(e: ServiceError) -> Seq<char> {
    match e {
        ServiceError::NotLoaded => "model_not_loaded"@,
        ServiceError::LoadFailed(_) | ServiceError::NotAllowed(_) => "model_load_error"@,
        ServiceError::AdapterNotFound(_) => "adapter_not_found"@,
        ServiceError::TokenLimit(_) => "message_too_long"@,
        ServiceError::Timeout => "stream_timeout"@,
        ServiceError::Python(_) | ServiceError::Internal(_) => "generation_failed"@,
    }
}

/// The message of an error.
pub open spec fn service_message(e: ServiceError) -> Seq<char> {
    match e {
        ServiceError::NotLoaded => "No model is loaded"@,
        ServiceError::LoadFailed(s) => "Model load failed: "@ + s@,
        ServiceError::NotAllowed(s) => "Model '"@ + s@ + "' is not in the allowed models list"@,
        ServiceError::AdapterNotFound(s) => "Adapter '"@ + s@ + "' is not mounted"@,
        ServiceError::Timeout => "Streaming timed out"@,
        ServiceError::TokenLimit(s) => "Token limit exceeded: "@ + s@,
        ServiceError::Python(s) => "Python error: "@ + s@,
        ServiceError::Internal(s) => "Internal error: "@ + s@,
    }
}

impl ServiceError {
    /// The HTTP status (see `service_status`).
    pub fn status(&self) -> (r: u16)
        ensures
            r == service_status(*self),
    {
        match self {
            ServiceError::NotLoaded => 503,
            ServiceError::LoadFailed(_) | ServiceError::NotAllowed(_) | ServiceError::TokenLimit(_) => 400,
            ServiceError::AdapterNotFound(_) => 404,
            ServiceError::Timeout => 504,
            ServiceError::Python(_) | ServiceError::Internal(_) => 500,
        }
    }

    /// The error code (see `service_code`).
    pub fn code(&self) -> (r: &'static str)
        ensures
            r@ == service_code(*self),
    {
        match self {
            ServiceError::NotLoaded => "model_not_loaded",
            ServiceError::LoadFailed(_) | ServiceError::NotAllowed(_) => "model_load_error",
            ServiceError::AdapterNotFound(_) => "adapter_not_found",
            ServiceError::TokenLimit(_) => "message_too_long",
            ServiceError::Timeout => "stream_timeout",
            ServiceError::Python(_) | ServiceError::Internal(_) => "generation_failed",
        }
    }

    /// The message (see `service_message`).
    pub fn message(&self) -> (r: String)
        ensures
            r@ == service_message(*self),
    {
        match self {
            ServiceError::NotLoaded => owned("No model is loaded"),
            ServiceError::LoadFailed(s) => crate::text::concat2("Model load failed: ", s.as_str()),
            ServiceError::NotAllowed(s) => crate::text::concat3(
                "Model '",
                s.as_str(),
                "' is not in the allowed models list",
            ),
            ServiceError::AdapterNotFound(s) => crate::text::concat3(
                "Adapter '",
                s.as_str(),
                "' is not mounted",
            ),
            ServiceError::Timeout => owned("Streaming timed out"),
            ServiceError::TokenLimit(s) => crate::text::concat2("Token limit exceeded: ", s.as_str()),
            ServiceError::Python(s) => crate::text::concat2("Python error: ", s.as_str()),
            ServiceError::Internal(s) => crate::text::concat2("Internal error: ", s.as_str()),
        }
    }
}

/// The loaded base model: its handles, its id, when it was loaded (Unix
/// seconds), and the draft model for speculative decoding, if any.
pub struct LoadedModel<H> {
    pub model: H,
    pub tokenizer: H,
    pub model_id: String,
    pub loaded_at_unix: u64,
    pub draft_model: Option<H>,
}

/// A mounted LoRA adapter: its handles, the base model it was loaded on, its
/// path, and when it was mounted.
pub struct MountedAdapter<H> {
    pub model: H,
    pub tokenizer: H,
    pub base_model_id: String,
    pub adapter_path: String,
    pub mounted_at: u64,
}

/// A prompt session: its KV cache and how many prompt tokens it holds.
pub struct PromptSession<H> {
    pub kv_cache: H,
    pub cached_tokens: usize,
}

/// The handles a request runs on: model, tokenizer and draft model.
pub struct ModelRefs<'a, H> {
    pub model: &'a H,
    pub tokenizer: &'a H,
    pub draft_model: Option<&'a H>,
}

/// The service's models and sessions.
pub struct ModelSlots<H> {
    pub loaded: Option<LoadedModel<H>>,
    pub adapters: NamedList<MountedAdapter<H>>,
    pub sessions: NamedList<PromptSession<H>>,
}

/// Whether `list` holds `s`.
pub fn list_contains(list: &Vec<String>, s: &str) -> (r: bool)
    ensures
        r == string_views(list@).contains(s@),
{
    let mut i: usize = 0;
    while i < list.len()
        invariant
            0 <= i <= list@.len(),
            forall|j: int| 0 <= j < i ==> list@[j]@ != s@,
        decreases list@.len() - i,
    {
        if str_eq(list[i].as_str(), s) {
            assert(string_views(list@)[i as int] == s@);
            return true;
        }
        i = i + 1;
    }
    proof {
        if string_views(list@).contains(s@) {
            let j = choose|j: int| 0 <= j < string_views(list@).len() && string_views(list@)[j] == s@;
            assert(list@[j]@ == s@);
        }
    }
    false
}

/// The adapter limit text.
pub open spec fn adapter_limit_text() -> Seq<char> {
    "Adapter limit (4) reached; unmount one first"@
}

/// The empty model name text.
pub open spec fn empty_name_text() -> Seq<char> {
    "model name cannot be empty"@
}

/// What a load request comes to before anything is fetched: `Ok(true)` when
/// that model is already loaded (nothing to do), `Ok(false)` when loading may
/// go ahead, and the refusal otherwise.
pub open spec fn load_check(
    current: Option<Seq<char>>,
    model_id: Seq<char>,
    allowed: Option<Seq<Seq<char>>>,
) -> Result<bool, Seq<char>> {
    if current == Some(model_id) {
        Ok(true)
    } else if trim(model_id).len() == 0 {
        Err(empty_name_text())
    } else if allowed matches Some(list) && !list.contains(model_id) {
        Err(model_id)
    } else {
        Ok(false)
    }
}

impl<H> ModelSlots<H> {
    /// The stores are sound, and no more than `MAX_MOUNTED_ADAPTERS`
    /// adapters are mounted.
    pub open spec fn wf(&self) -> bool {
        &&& self.adapters.wf()
        &&& self.sessions.wf()
        &&& self.adapters.keys().len() <= MAX_MOUNTED_ADAPTERS
    }

    /// The id of the loaded model.
    pub open spec fn current(&self) -> Option<Seq<char>> {
        match self.loaded {
            Some(l) => Some(l.model_id@),
            None => None,
        }
    }

    /// Nothing loaded, mounted or cached.
    pub fn new() -> (r: Self)
        ensures
            r.wf(),
            r.loaded is None,
            r.adapters.keys().len() == 0,
            r.sessions.keys().len() == 0,
    {
        ModelSlots { loaded: None, adapters: NamedList::new(), sessions: NamedList::new() }
    }

    /// The id of the loaded model.
    pub fn current_model(&self) -> (r: Option<String>)
        ensures
            match r {
                Some(id) => self.current() == Some(id@),
                None => self.current() is None,
            },
    {
        match &self.loaded {
            Some(l) => Some(l.model_id.clone()),
            None => None,
        }
    }

    /// Whether a model is loaded.
    pub fn is_loaded(&self) -> (r: bool)
        ensures
            r == self.loaded is Some,
    {
        self.loaded.is_some()
    }

    /// The loaded model's id and load time.
    pub fn loaded_info(&self) -> (r: Option<(String, u64)>)
        ensures
            match r {
                Some((id, t)) => self.loaded matches Some(l) && id@ == l.model_id@ && t
                    == l.loaded_at_unix,
                None => self.loaded is None,
            },
    {
        match &self.loaded {
            Some(l) => Some((l.model_id.clone(), l.loaded_at_unix)),
            None => None,
        }
    }

    /// Decides a load request before anything is fetched (see `load_check`);
    /// a refusal names the model or says that the name is empty.
    pub fn check_load(&self, model_id: &str, allowed: &Option<Vec<String>>) -> (r: Result<
        bool,
        ServiceError,
    >)
        ensures
            match load_check(
                self.current(),
                model_id@,
                match allowed {
                    Some(l) => Some(string_views(l@)),
                    None => None,
                },
            ) {
                Ok(b) => r == Ok::<bool, ServiceError>(b),
                Err(msg) => match r {
                    Err(ServiceError::LoadFailed(m)) => m@ == msg && trim(model_id@).len() == 0,
                    Err(ServiceError::NotAllowed(m)) => m@ == msg && trim(model_id@).len() > 0,
                    _ => false,
                },
            },
    {
        if let Some(l) = &self.loaded {
            if str_eq(l.model_id.as_str(), model_id) {
                return Ok(true);
            }
        }
        let t = trim_str(model_id);
        if t.as_str().is_empty() {
            return Err(ServiceError::LoadFailed(owned("model name cannot be empty")));
        }
        if let Some(list) = allowed {
            if !list_contains(list, model_id) {
                return Err(ServiceError::NotAllowed(owned(model_id)));
            }
        }
        Ok(false)
    }

    /// Installs a newly loaded model in place of any earlier one.
    pub fn set_loaded(&mut self, model: LoadedModel<H>)
        ensures
            final(self).loaded == Some(model),
            final(self).adapters == old(self).adapters,
            final(self).sessions == old(self).sessions,
    {
        self.loaded = Some(model);
    }

    /// Drops the loaded model and gives its id.
    pub fn unload(&mut self) -> (r: Option<String>)
        ensures
            final(self).loaded is None,
            final(self).adapters == old(self).adapters,
            final(self).sessions == old(self).sessions,
            match r {
                Some(id) => old(self).current() == Some(id@),
                None => old(self).loaded is None,
            },
    {
        match self.loaded.take() {
            Some(l) => Some(l.model_id),
            None => None,
        }
    }

    /// Unloads the model `model_id` when it is the loaded one; otherwise
    /// nothing changes and the refusal names the model.
    pub fn unload_named(&mut self, model_id: &str) -> (r: Result<(), String>)
        ensures
            old(self).current() == Some(model_id@) ==> r is Ok && final(self).loaded is None,
            old(self).current() != Some(model_id@) ==> *final(self) == *old(self) && (r matches Err(
                m,
            ) && m@ == "Model '"@ + model_id@ + "' not found"@),
            final(self).adapters == old(self).adapters,
            final(self).sessions == old(self).sessions,
    {
        let matches = match &self.loaded {
            Some(l) => str_eq(l.model_id.as_str(), model_id),
            None => false,
        };
        if matches {
            self.loaded = None;
            Ok(())
        } else {
            Err(crate::text::concat3("Model '", model_id, "' not found"))
        }
    }

    /// The handles a request runs on: those of the named adapter (without a
    /// draft model) when one is named, those of the loaded model otherwise.
    pub fn refs_for(&self, adapter_name: Option<&str>) -> (r: Result<ModelRefs<'_, H>, ServiceError>)
        requires
            self.wf(),
        ensures
            match adapter_name {
                Some(name) => match r {
                    Ok(refs) => exists|i: int|
                        0 <= i < self.adapters.keys().len() && self.adapters.keys()[i] == name@
                            && *refs.model == self.adapters.values()[i].model && *refs.tokenizer
                            == self.adapters.values()[i].tokenizer && refs.draft_model is None,
                    Err(ServiceError::AdapterNotFound(n)) => n@ == name@ && !self.adapters.has(
                        name@,
                    ),
                    Err(_) => false,
                },
                None => match r {
                    Ok(refs) => self.loaded matches Some(l) && *refs.model == l.model
                        && *refs.tokenizer == l.tokenizer && match l.draft_model {
                        Some(d) => refs.draft_model == Some(&d),
                        None => refs.draft_model is None,
                    },
                    Err(ServiceError::NotLoaded) => self.loaded is None,
                    Err(_) => false,
                },
            },
    {
        match adapter_name {
            Some(name) => match self.adapters.get(name) {
                Some(a) => Ok(ModelRefs { model: &a.model, tokenizer: &a.tokenizer, draft_model: None }),
                None => Err(ServiceError::AdapterNotFound(owned(name))),
            },
            None => match &self.loaded {
                Some(l) => {
                    let draft = match &l.draft_model {
                        Some(d) => Some(d),
                        None => None,
                    };
                    Ok(ModelRefs { model: &l.model, tokenizer: &l.tokenizer, draft_model: draft })
                },
                None => Err(ServiceError::NotLoaded),
            },
        }
    }

    /// Whether an adapter may be mounted under `name`: refused when the limit
    /// is reached and the name is new (a mounted name is replaced).
    pub fn check_mount(&self, name: &str) -> (r: Result<(), ServiceError>)
        requires
            self.wf(),
        ensures
            match r {
                Ok(()) => self.adapters.keys().len() < MAX_MOUNTED_ADAPTERS || self.adapters.has(
                    name@,
                ),
                Err(ServiceError::LoadFailed(m)) => m@ == adapter_limit_text()
                    && self.adapters.keys().len() >= MAX_MOUNTED_ADAPTERS && !self.adapters.has(
                    name@,
                ),
                Err(_) => false,
            },
    {
        if self.adapters.len() >= MAX_MOUNTED_ADAPTERS && !self.adapters.contains(name) {
            return Err(ServiceError::LoadFailed(owned("Adapter limit (4) reached; unmount one first")));
        }
        Ok(())
    }

    /// Mounts (or replaces) the adapter named `name`, checking the limit in
    /// the same step: refused, with nothing changed, when
    /// `MAX_MOUNTED_ADAPTERS` adapters are mounted and the name is new.
    pub fn mount(&mut self, name: String, adapter: MountedAdapter<H>) -> (r: Result<(), ServiceError>)
        requires
            old(self).wf(),
        ensures
            final(self).wf(),
            final(self).adapters.keys().len() <= MAX_MOUNTED_ADAPTERS,
            final(self).loaded == old(self).loaded,
            final(self).sessions == old(self).sessions,
            match r {
                Ok(()) => {
                    &&& old(self).adapters.keys().len() < MAX_MOUNTED_ADAPTERS || old(self).adapters.has(name@)
                    &&& final(self).adapters.has(name@)
                    &&& put_into(old(self).adapters, final(self).adapters, name@, adapter)
                },
                Err(ServiceError::LoadFailed(m)) => {
                    &&& m@ == adapter_limit_text()
                    &&& old(self).adapters.keys().len() >= MAX_MOUNTED_ADAPTERS
                    &&& !old(self).adapters.has(name@)
                    &&& final(self).adapters == old(self).adapters
                },
                Err(_) => false,
            },
    {
        if self.adapters.len() >= MAX_MOUNTED_ADAPTERS && !self.adapters.contains(name.as_str()) {
            return Err(ServiceError::LoadFailed(owned("Adapter limit (4) reached; unmount one first")));
        }
        let ghost n = name@;
        self.adapters.insert(name, adapter);
        proof {
            if old(self).adapters.has(n) {
            } else {
                assert(self.adapters.keys()[self.adapters.keys().len() - 1] == n);
            }
        }
        Ok(())
    }

    /// Unmounts the adapter named `name`; whether one was mounted.
    pub fn unmount(&mut self, name: &str) -> (r: bool)
        requires
            old(self).wf(),
        ensures
            final(self).wf(),
            r == old(self).adapters.has(name@),
            !final(self).adapters.has(name@),
            taken_from(old(self).adapters, final(self).adapters, name@),
            final(self).loaded == old(self).loaded,
            final(self).sessions == old(self).sessions,
    {
        self.adapters.remove(name).is_some()
    }

    /// The mounted adapters as listed: name, base model, path and mount time.
    pub fn list_adapters(&self) -> (r: Vec<MountedAdapterInfo>)
        ensures
            r@.len() == self.adapters.keys().len(),
            forall|i: int|
                0 <= i < r@.len() ==> (#[trigger] r@[i]).name@ == self.adapters.keys()[i]
                    && r@[i].base_model@ == self.adapters.values()[i].base_model_id@
                    && r@[i].adapter_path@ == self.adapters.values()[i].adapter_path@
                    && r@[i].mounted_at == self.adapters.values()[i].mounted_at,
    {
        let mut r: Vec<MountedAdapterInfo> = Vec::new();
        let mut i: usize = 0;
        proof {
            self.adapters.lemma_lengths();
        }
        while i < self.adapters.len()
            invariant
                0 <= i <= self.adapters.keys().len(),
                self.adapters.keys().len() == self.adapters.values().len(),
                r@.len() == i,
                forall|j: int|
                    0 <= j < i ==> (#[trigger] r@[j]).name@ == self.adapters.keys()[j]
                        && r@[j].base_model@ == self.adapters.values()[j].base_model_id@
                        && r@[j].adapter_path@ == self.adapters.values()[j].adapter_path@
                        && r@[j].mounted_at == self.adapters.values()[j].mounted_at,
            decreases self.adapters.keys().len() - i,
        {
            let (name, a) = self.adapters.entry(i);
            r.push(
                MountedAdapterInfo {
                    name: name.clone(),
                    base_model: a.base_model_id.clone(),
                    adapter_path: a.adapter_path.clone(),
                    mounted_at: a.mounted_at,
                },
            );
            i = i + 1;
        }
        r
    }

    /// The session named `id`: its KV cache and the tokens it holds.
    pub fn session(&self, id: &str) -> (r: Option<&PromptSession<H>>)
        requires
            self.wf(),
        ensures
            match r {
                Some(s) => exists|i: int|
                    0 <= i < self.sessions.keys().len() && self.sessions.keys()[i] == id@ && *s
                        == self.sessions.values()[i],
                None => !self.sessions.has(id@),
            },
    {
        self.sessions.get(id)
    }

    /// Records the session `id` with its cache after a generation.
    pub fn commit_session(&mut self, id: String, kv_cache: H, cached_tokens: usize)
        requires
            old(self).wf(),
        ensures
            final(self).wf(),
            final(self).sessions.has(id@),
            put_into(old(self).sessions, final(self).sessions, id@, (PromptSession { kv_cache, cached_tokens })),
            final(self).loaded == old(self).loaded,
            final(self).adapters == old(self).adapters,
    {
        let ghost n = id@;
        self.sessions.insert(id, PromptSession { kv_cache, cached_tokens });
        proof {
            if !old(self).sessions.has(n) {
                assert(self.sessions.keys()[self.sessions.keys().len() - 1] == n);
            }
        }
    }

    /// Forgets the session `id`.
    pub fn delete_session(&mut self, id: &str)
        requires
            old(self).wf(),
        ensures
            final(self).wf(),
            !final(self).sessions.has(id@),
            taken_from(old(self).sessions, final(self).sessions, id@),
            final(self).loaded == old(self).loaded,
            final(self).adapters == old(self).adapters,
    {
        let _ = self.sessions.remove(id);
    }
}

} // verus!
