//! Image generation requests: the size, count, seeds and output form, the
//! model held by the server, and which FLUX variant a model id selects.

use vstd::prelude::*;
use crate::text::{
    chars_of, contains_seq, owned, parse_unsigned, parse_unsigned_chars, split_char, split_chars,
    str_contains, string_of, trim, trim_chars, lowercase, to_lowercase,
};
use crate::codec::{base64_len, base64_standard, data_url, data_url_text, encode_base64};
use crate::image::error::ImageError;

verus! {

// ── Sizes ───────────────────────────────────────────────────────────────────

/// The width and height a size text gives: exactly two `x`-separated pieces,
/// each (trimmed) an unsigned 32-bit number.
pub open spec fn size_of(s: Seq<char>) -> Option<(u32, u32)> {
    let parts = split_char(s, 'x');
    if parts.len() != 2 {
        None
    } else {
        match (parse_unsigned(trim(parts[0]), u32::MAX as nat), parse_unsigned(trim(parts[1]), u32::MAX as nat)) {
            (Some(w), Some(h)) => Some((w as u32, h as u32)),
            _ => None,
        }
    }
}

/// Parses `WIDTHxHEIGHT`; the size text comes back in the error when it does
/// not parse (see `size_of`).
pub fn parse_size(size: &str) -> (r: Result<(u32, u32), ImageError>)
    ensures
        match r {
            Ok(wh) => size_of(size@) == Some(wh),
            Err(ImageError::InvalidSize(s)) => size_of(size@) is None && s@ == size@,
            Err(_) => false,
        },
{
    let cs = chars_of(size);
    let parts = split_chars(cs.as_slice(), 'x');
    if parts.len() != 2 {
        return Err(ImageError::InvalidSize(owned(size)));
    }
    let a = trim_chars(parts[0].as_slice());
    let b = trim_chars(parts[1].as_slice());
    let w = match parse_unsigned_chars(a.as_slice(), 0xffff_ffff) {
        Some(v) => v,
        None => {
            return Err(ImageError::InvalidSize(owned(size)));
        },
    };
    let h = match parse_unsigned_chars(b.as_slice(), 0xffff_ffff) {
        Some(v) => v,
        None => {
            return Err(ImageError::InvalidSize(owned(size)));
        },
    };
    Ok((w as u32, h as u32))
}

// ── Request settings ────────────────────────────────────────────────────────

/// The number of images: one by default, at most four.
pub fn image_count(n: Option<u32>) -> (r: u32)
    ensures
        r == match n {
            Some(k) => if k < 4 {
                k
            } else {
                4
            },
            None => 1,
        },
{
    let k = match n {
        Some(k) => k,
        None => 1,
    };
    if k < 4 {
        k
    } else {
        4
    }
}

/// Whether images come back as base64 text: unless the request asks for `url`.
pub fn want_b64(response_format: Option<&str>) -> (r: bool)
    ensures
        r == match response_format {
            Some(f) => f@ != "url"@,
            None => true,
        },
{
    match response_format {
        Some(f) => !crate::text::str_eq(f, "url"),
        None => true,
    }
}

/// The quantization of a model loaded on demand: the request's, else the
/// server's default, else 4 bits.
pub fn auto_load_quantize(requested: Option<u32>, default: Option<u32>) -> (r: Option<u32>)
    ensures
        r == match requested {
            Some(q) => Some(q),
            None => match default {
                Some(q) => Some(q),
                None => Some(4u32),
            },
        },
{
    match requested {
        Some(q) => Some(q),
        None => match default {
            Some(q) => Some(q),
            None => Some(4),
        },
    }
}

/// The seed of image `i`: the request's, else the clock's nanoseconds plus `i`.
pub fn image_seed(seed: Option<i64>, clock_nanos: u32, i: u32) -> (r: i64)
    ensures
        r == match seed {
            Some(s) => s as int,
            None => clock_nanos + i,
        },
{
    match seed {
        Some(s) => s,
        None => clock_nanos as i64 + i as i64,
    }
}

/// One generated image as returned.
pub struct ImageData {
    pub b64_json: Option<String>,
    pub url: Option<String>,
    pub revised_prompt: Option<String>,
}

/// The images of a request, with the time they were made.
pub struct ImageGenerationResponse {
    pub created: u64,
    pub data: Vec<ImageData>,
}

/// A request to load a model.
pub struct LoadModelRequest {
    pub model: String,
    pub quantize: Option<u32>,
    pub model_path: Option<String>,
}

/// A loaded model as listed.
pub struct ModelInfo {
    pub id: String,
    pub object: &'static str,
    pub loaded: bool,
    pub quantize: Option<u32>,
}

/// A generated PNG as returned: base64 text, or a `data:` URL of it.
pub fn image_data(png: &Vec<u8>, b64: bool) -> (r: ImageData)
    requires
        base64_len(png@.len()) <= usize::MAX,
    ensures
        r.revised_prompt is None,
        b64 ==> r.url is None && (r.b64_json matches Some(t) && t@ == base64_standard(png@)),
        !b64 ==> r.b64_json is None && (r.url matches Some(u) && u@ == data_url_text(
            "image/png"@,
            png@,
        )),
{
    if b64 {
        ImageData { b64_json: Some(encode_base64(png.as_slice())), url: None, revised_prompt: None }
    } else {
        ImageData { b64_json: None, url: Some(data_url("image/png", png.as_slice())), revised_prompt: None }
    }
}

// ── Model variants ──────────────────────────────────────────────────────────

/// A lowercase model id names a FLUX.2 Klein model: it mentions `klein`,
/// `flux.2` or `flux2`.
pub open spec fn klein_in(lower: Seq<char>) -> bool {
    contains_seq(lower, "klein"@) || contains_seq(lower, "flux.2"@) || contains_seq(lower, "flux2"@)
}

/// Whether the lowercase id names a Klein model (see `klein_in`).
pub fn is_klein_lowercase(lower: &str) -> (r: bool)
    ensures
        r == klein_in(lower@),
{
    str_contains(lower, "klein") || str_contains(lower, "flux.2") || str_contains(lower, "flux2")
}

/// Whether a model id names a FLUX.2 Klein model, whatever its case.
pub fn is_klein_model(model_id: &str) -> (r: bool)
    ensures
        r == klein_in(lowercase(model_id@)),
{
    let lower = to_lowercase(model_id);
    is_klein_lowercase(lower.as_str())
}

/// The FLUX configuration of a model: Klein 4B for Klein models, `dev` for
/// other ids that mention `dev`, `schnell` otherwise.
pub fn flux_config(model_id: &str, klein: bool) -> (r: &'static str)
    ensures
        r@ == if klein {
            "flux2_klein_4b"@
        } else if contains_seq(model_id@, "dev"@) {
            "dev"@
        } else {
            "schnell"@
        },
{
    if klein {
        "flux2_klein_4b"
    } else if str_contains(model_id, "dev") {
        "dev"
    } else {
        "schnell"
    }
}

/// The loaded image model: its handle, id, quantization, weights path, and
/// whether it is a Klein model.
pub struct LoadedImageModel<H> {
    pub flux: H,
    pub model_id: String,
    pub quantize: Option<u32>,
    pub model_path: Option<String>,
    pub is_klein: bool,
}

/// The model the image server holds.
pub struct ImageSlot<H> {
    pub model: Option<LoadedImageModel<H>>,
}

impl<H> ImageSlot<H> {
    /// No model loaded.
    pub fn new() -> (r: Self)
        ensures
            r.model is None,
    {
        ImageSlot { model: None }
    }

    /// Whether a model is loaded.
    pub fn is_loaded(&self) -> (r: bool)
        ensures
            r == self.model is Some,
    {
        self.model.is_some()
    }

    /// The loaded model's id, quantization and weights path.
    pub fn current_model(&self) -> (r: Option<(String, Option<u32>, Option<String>)>)
        ensures
            match r {
                Some((id, q, p)) => self.model matches Some(m) && id@ == m.model_id@ && q
                    == m.quantize && p == m.model_path,
                None => self.model is None,
            },
    {
        match &self.model {
            Some(m) => Some((m.model_id.clone(), m.quantize, m.model_path.clone())),
            None => None,
        }
    }

    /// Installs a newly loaded model.
    pub fn set(&mut self, model: LoadedImageModel<H>)
        ensures
            final(self).model == Some(model),
    {
        self.model = Some(model);
    }

    /// Drops the loaded model.
    pub fn unload(&mut self)
        ensures
            final(self).model is None,
    {
        self.model = None;
    }

    /// The model a generation runs on, and whether it is a Klein model.
    pub fn for_generation(&self) -> (r: Result<(&H, bool), ImageError>)
        ensures
            match r {
                Ok((f, k)) => self.model matches Some(m) && *f == m.flux && k == m.is_klein,
                Err(ImageError::NotLoaded) => self.model is None,
                Err(_) => false,
            },
    {
        match &self.model {
            Some(m) => Ok((&m.flux, m.is_klein)),
            None => Err(ImageError::NotLoaded),
        }
    }

    /// The listed models: the loaded one, if any.
    pub fn list(&self) -> (r: Vec<ModelInfo>)
        ensures
            match self.model {
                Some(m) => r@.len() == 1 && r@[0].id@ == m.model_id@ && r@[0].object@ == "model"@
                    && r@[0].loaded && r@[0].quantize == m.quantize,
                None => r@.len() == 0,
            },
    {
        let mut v: Vec<ModelInfo> = Vec::new();
        if let Some(m) = &self.model {
            v.push(ModelInfo { id: m.model_id.clone(), object: "model", loaded: true, quantize: m.quantize });
        }
        v
    }
}

/// A negative prompt is passed on only to models other than Klein.
pub fn negative_prompt_for(negative: Option<String>, klein: bool) -> (r: Option<String>)
    ensures
        r == if klein {
            None
        } else {
            negative
        },
{
    if klein {
        None
    } else {
        negative
    }
}

} // verus!
