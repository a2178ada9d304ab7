//! The audio server's request and response types, its loaded models, and the
//! rules for picking a model and for the request options it reads.

use vstd::prelude::*;
use crate::text::{concat2, owned, parse_unsigned, parse_unsigned_str, str_eq, starts_with, chars_of, starts_with_chars};
use crate::ids::unix_time_secs;
use crate::lm::models::string_views;
use crate::audio::error::AudioError;

verus! {

// ── Model kinds ─────────────────────────────────────────────────────────────

/// The kinds of audio model.
#[derive(PartialEq, Eq, Structural, Clone, Copy)]
pub enum ModelType {
    Tts,
    Stt,
    Sts,
    Vad,
}

/// The wire name of a model kind.
pub open spec fn model_type_text(t: ModelType) -> Seq<char> {
    match t {
        ModelType::Tts => "tts"@,
        ModelType::Stt => "stt"@,
        ModelType::Sts => "sts"@,
        ModelType::Vad => "vad"@,
    }
}

impl ModelType {
    /// The wire name (`"tts"`, `"stt"`, `"sts"`, `"vad"`).
    pub fn as_str(&self) -> (r: &'static str)
        ensures
            r@ == model_type_text(*self),
    {
        match self {
            ModelType::Tts => "tts",
            ModelType::Stt => "stt",
            ModelType::Sts => "sts",
            ModelType::Vad => "vad",
        }
    }

    /// The kind named by its wire name.
    pub fn from_name(name: &str) -> (r: Option<ModelType>)
        ensures
            match r {
                Some(t) => model_type_text(t) == name@,
                None => forall|t: ModelType| model_type_text(t) != name@,
            },
    {
        if str_eq(name, "tts") {
            Some(ModelType::Tts)
        } else if str_eq(name, "stt") {
            Some(ModelType::Stt)
        } else if str_eq(name, "sts") {
            Some(ModelType::Sts)
        } else if str_eq(name, "vad") {
            Some(ModelType::Vad)
        } else {
            None
        }
    }
}

/// A request to load a model of a kind.
pub struct ModelLoadRequest {
    pub model: String,
    pub model_type: ModelType,
}

/// A loaded model as listed.
pub struct ModelObject {
    pub id: String,
    pub object: &'static str,
    pub created: u64,
    pub owned_by: String,
    pub model_type: ModelType,
}

impl ModelObject {
    /// A model listing entry created at `created`, owned by the audio server.
    pub fn new_at(id: String, model_type: ModelType, created: u64) -> (r: Self)
        ensures
            r.id@ == id@,
            r.object@ == "model"@,
            r.owned_by@ == "mlx-audio-server"@,
            r.model_type == model_type,
            r.created == created,
    {
        ModelObject { id, object: "model", created, owned_by: owned("mlx-audio-server"), model_type }
    }

    /// A model listing entry created now, owned by the audio server.
    pub fn new(id: String, model_type: ModelType) -> (r: Self)
        ensures
            r.id@ == id@,
            r.object@ == "model"@,
            r.owned_by@ == "mlx-audio-server"@,
            r.model_type == model_type,
    {
        Self::new_at(id, model_type, unix_time_secs())
    }
}

/// The list of loaded models.
pub struct ModelList {
    pub object: &'static str,
    pub data: Vec<ModelObject>,
}

/// The server's health: which models are loaded.
pub struct HealthResponse {
    pub status: &'static str,
    pub tts_model: Option<String>,
    pub stt_model: Option<String>,
    pub sts_model: Option<String>,
    pub vad_model: Option<String>,
}

/// Options of a source separation.
pub struct SeparationParams {
    pub model: Option<String>,
    pub description: Option<String>,
}

/// The separated sources, as `data:` URLs.
pub struct SeparationResponse {
    pub target_url: Option<String>,
    pub residual_url: Option<String>,
    pub message: String,
}

// ── Loaded models ───────────────────────────────────────────────────────────

/// A loaded speech synthesis model and its sample rate.
pub struct LoadedTts<H> {
    pub model: H,
    pub model_id: String,
    pub sample_rate: u32,
    pub loaded_at_unix: u64,
}

/// A loaded transcription model.
pub struct LoadedStt<H> {
    pub model: H,
    pub model_id: String,
    pub loaded_at_unix: u64,
}

/// A loaded source separation model and its processor.
pub struct LoadedSts<H> {
    pub model: H,
    pub processor: H,
    pub model_id: String,
    pub loaded_at_unix: u64,
}

/// A loaded voice activity model.
pub struct LoadedVad<H> {
    pub model: H,
    pub model_id: String,
    pub loaded_at_unix: u64,
}

/// The models the audio server holds, one of each kind at most.
pub struct AudioSlots<H> {
    pub tts: Option<LoadedTts<H>>,
    pub stt: Option<LoadedStt<H>>,
    pub sts: Option<LoadedSts<H>>,
    pub vad: Option<LoadedVad<H>>,
}

/// The sample rate of a synthesis model that does not report one.
pub open spec fn default_sample_rate() -> u32 {
    24000
}

/// A model's sample rate, or 24 kHz when it reports none.
pub fn tts_sample_rate(reported: Option<u32>) -> (r: u32)
    ensures
        r == match reported {
            Some(s) => s,
            None => default_sample_rate(),
        },
{
    match reported {
        Some(s) => s,
        None => 24000,
    }
}

/// The id of a loaded synthesis model.
pub open spec fn tts_id<H>(slot: Option<LoadedTts<H>>) -> Option<Seq<char>> {
    match slot {
        Some(m) => Some(m.model_id@),
        None => None,
    }
}

/// The id of a loaded transcription model.
pub open spec fn stt_id<H>(slot: Option<LoadedStt<H>>) -> Option<Seq<char>> {
    match slot {
        Some(m) => Some(m.model_id@),
        None => None,
    }
}

/// The id of a loaded separation model.
pub open spec fn sts_id<H>(slot: Option<LoadedSts<H>>) -> Option<Seq<char>> {
    match slot {
        Some(m) => Some(m.model_id@),
        None => None,
    }
}

/// One listing entry per loaded model, synthesis first, then transcription,
/// then separation.
pub open spec fn listed_models(
    tts: Option<Seq<char>>,
    stt: Option<Seq<char>>,
    sts: Option<Seq<char>>,
) -> Seq<(Seq<char>, ModelType)> {
    (match tts {
        Some(i) => seq![(i, ModelType::Tts)],
        None => Seq::empty(),
    }) + (match stt {
        Some(i) => seq![(i, ModelType::Stt)],
        None => Seq::empty(),
    }) + (match sts {
        Some(i) => seq![(i, ModelType::Sts)],
        None => Seq::empty(),
    })
}

impl<H> AudioSlots<H> {
    /// No model loaded.
    pub fn new() -> (r: Self)
        ensures
            r.tts is None && r.stt is None && r.sts is None && r.vad is None,
    {
        AudioSlots { tts: None, stt: None, sts: None, vad: None }
    }

    /// The id of the synthesis model.
    pub fn tts_model_id(&self) -> (r: Option<String>)
        ensures
            match r {
                Some(id) => self.tts matches Some(m) && id@ == m.model_id@,
                None => self.tts is None,
            },
    {
        match &self.tts {
            Some(m) => Some(m.model_id.clone()),
            None => None,
        }
    }

    /// The id of the transcription model.
    pub fn stt_model_id(&self) -> (r: Option<String>)
        ensures
            match r {
                Some(id) => self.stt matches Some(m) && id@ == m.model_id@,
                None => self.stt is None,
            },
    {
        match &self.stt {
            Some(m) => Some(m.model_id.clone()),
            None => None,
        }
    }

    /// The id of the separation model.
    pub fn sts_model_id(&self) -> (r: Option<String>)
        ensures
            match r {
                Some(id) => self.sts matches Some(m) && id@ == m.model_id@,
                None => self.sts is None,
            },
    {
        match &self.sts {
            Some(m) => Some(m.model_id.clone()),
            None => None,
        }
    }

    /// The id of the voice activity model.
    pub fn vad_model_id(&self) -> (r: Option<String>)
        ensures
            match r {
                Some(id) => self.vad matches Some(m) && id@ == m.model_id@,
                None => self.vad is None,
            },
    {
        match &self.vad {
            Some(m) => Some(m.model_id.clone()),
            None => None,
        }
    }

    /// Unloads the model of the kind named `name` (`tts`, `stt` or `sts`);
    /// any other name is refused.
    pub fn unload_by_name(&mut self, name: &str) -> (r: Result<(), AudioError>)
        ensures
            name@ == "tts"@ ==> r is Ok && final(self).tts is None && final(self).stt == old(self).stt && final(self).sts == old(self).sts && final(self).vad == old(self).vad,
            name@ == "stt"@ ==> r is Ok && final(self).stt is None && final(self).tts == old(self).tts && final(self).sts == old(self).sts && final(self).vad == old(self).vad,
            name@ == "sts"@ ==> r is Ok && final(self).sts is None && final(self).tts == old(self).tts && final(self).stt == old(self).stt && final(self).vad == old(self).vad,
            name@ != "tts"@ && name@ != "stt"@ && name@ != "sts"@ ==> *final(self) == *old(self)
                && match r {
                Err(AudioError::Internal(m)) => m@ == "Unknown model type: "@ + name@,
                _ => false,
            },
    {
        proof {
            reveal_strlit("tts");
            reveal_strlit("stt");
            reveal_strlit("sts");
            assert("tts"@[0] != "stt"@[0]);
            assert("tts"@[0] != "sts"@[0]);
            assert("stt"@[2] != "sts"@[2]);
        }
        if str_eq(name, "tts") {
            self.tts = None;
            Ok(())
        } else if str_eq(name, "stt") {
            self.stt = None;
            Ok(())
        } else if str_eq(name, "sts") {
            self.sts = None;
            Ok(())
        } else {
            Err(AudioError::Internal(concat2("Unknown model type: ", name)))
        }
    }

    /// The loaded synthesis, transcription and separation models, in that
    /// order, as listed (the voice activity model is not listed).
    pub fn list_models(&self) -> (r: ModelList)
        ensures
            r.object@ == "list"@,
            r.data@.map_values(|o: ModelObject| (o.id@, o.model_type)) == listed_models(
                tts_id(self.tts),
                stt_id(self.stt),
                sts_id(self.sts),
            ),
    {
        let mut data: Vec<ModelObject> = Vec::new();
        if let Some(m) = &self.tts {
            data.push(ModelObject::new(m.model_id.clone(), ModelType::Tts));
        }
        if let Some(m) = &self.stt {
            data.push(ModelObject::new(m.model_id.clone(), ModelType::Stt));
        }
        if let Some(m) = &self.sts {
            data.push(ModelObject::new(m.model_id.clone(), ModelType::Sts));
        }
        proof {
            let t = match tts_id(self.tts) {
                Some(i) => seq![(i, ModelType::Tts)],
                None => Seq::<(Seq<char>, ModelType)>::empty(),
            };
            let u = match stt_id(self.stt) {
                Some(i) => seq![(i, ModelType::Stt)],
                None => Seq::<(Seq<char>, ModelType)>::empty(),
            };
            let v = match sts_id(self.sts) {
                Some(i) => seq![(i, ModelType::Sts)],
                None => Seq::<(Seq<char>, ModelType)>::empty(),
            };
            assert(data@.map_values(|o: ModelObject| (o.id@, o.model_type)) =~= t + u + v);
        }
        ModelList { object: "list", data }
    }

    /// The server's health.
    pub fn health(&self) -> (r: HealthResponse)
        ensures
            r.status@ == "ok"@,
            match r.tts_model {
                Some(id) => self.tts matches Some(m) && id@ == m.model_id@,
                None => self.tts is None,
            },
            match r.stt_model {
                Some(id) => self.stt matches Some(m) && id@ == m.model_id@,
                None => self.stt is None,
            },
            match r.sts_model {
                Some(id) => self.sts matches Some(m) && id@ == m.model_id@,
                None => self.sts is None,
            },
            match r.vad_model {
                Some(id) => self.vad matches Some(m) && id@ == m.model_id@,
                None => self.vad is None,
            },
    {
        HealthResponse {
            status: "ok",
            tts_model: self.tts_model_id(),
            stt_model: self.stt_model_id(),
            sts_model: self.sts_model_id(),
            vad_model: self.vad_model_id(),
        }
    }

    /// The synthesis model and its sample rate for `text`: refused when the
    /// text has more than `max_chars` characters, then when no model is loaded.
    pub fn tts_for(&self, text: &str, max_chars: usize) -> (r: Result<(&H, u32), AudioError>)
        ensures
            match r {
                Ok((m, sr)) => text@.len() <= max_chars && (self.tts matches Some(t) && *m
                    == t.model && sr == t.sample_rate),
                Err(AudioError::InputTooLong(n, mx)) => text@.len() > max_chars && n == text@.len()
                    && mx == max_chars,
                Err(AudioError::TtsNotLoaded) => text@.len() <= max_chars && self.tts is None,
                Err(_) => false,
            },
    {
        let n = chars_of(text).len();
        if n > max_chars {
            return Err(AudioError::InputTooLong(n, max_chars));
        }
        match &self.tts {
            Some(t) => Ok((&t.model, t.sample_rate)),
            None => Err(AudioError::TtsNotLoaded),
        }
    }

    /// The transcription model.
    pub fn stt_model(&self) -> (r: Result<&H, AudioError>)
        ensures
            match r {
                Ok(m) => self.stt matches Some(t) && *m == t.model,
                Err(AudioError::SttNotLoaded) => self.stt is None,
                Err(_) => false,
            },
    {
        match &self.stt {
            Some(t) => Ok(&t.model),
            None => Err(AudioError::SttNotLoaded),
        }
    }

    /// The separation model and its processor.
    pub fn sts_models(&self) -> (r: Result<(&H, &H), AudioError>)
        ensures
            match r {
                Ok((m, p)) => self.sts matches Some(t) && *m == t.model && *p == t.processor,
                Err(AudioError::StsNotLoaded) => self.sts is None,
                Err(_) => false,
            },
    {
        match &self.sts {
            Some(t) => Ok((&t.model, &t.processor)),
            None => Err(AudioError::StsNotLoaded),
        }
    }

    /// The voice activity model.
    pub fn vad_model(&self) -> (r: Result<&H, AudioError>)
        ensures
            match r {
                Ok(m) => self.vad matches Some(t) && *m == t.model,
                Err(AudioError::Internal(msg)) => self.vad is None && msg@
                    == "VAD model not loaded"@,
                Err(_) => false,
            },
    {
        match &self.vad {
            Some(t) => Ok(&t.model),
            None => Err(AudioError::Internal(owned("VAD model not loaded"))),
        }
    }
}

} // verus!
