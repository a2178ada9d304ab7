//! Model tooling: the command lines handed to the fuse and convert tools, the
//! paths they write to, and the settings of a benchmark run.

use vstd::prelude::*;
use crate::text::{chars_of, concat2, decimal, decimal_string, owned, split_char, split_chars, str_eq, string_of, lemma_split_char_nonempty};
use crate::lm::models::{string_views, FuseResponse, MountedAdapterInfo};

verus! {

// ── Fuse ────────────────────────────────────────────────────────────────────

/// The adapter path to fuse: that of the first mounted adapter named `name`,
/// else `name` itself taken as a path.
pub open spec fn adapter_path_for(adapters: Seq<MountedAdapterInfo>, name: Seq<char>) -> Seq<char>
    decreases adapters.len(),
{
    if adapters.len() == 0 {
        name
    } else if adapters[0].name@ == name {
        adapters[0].adapter_path@
    } else {
        adapter_path_for(adapters.drop_first(), name)
    }
}

/// The adapter path to fuse (see `adapter_path_for`).
pub fn resolve_adapter_path(adapters: &Vec<MountedAdapterInfo>, name: &str) -> (r: String)
    ensures
        r@ == adapter_path_for(adapters@, name@),
{
    let mut i: usize = 0;
    assert(adapters@.skip(0) =~= adapters@);
    while i < adapters.len()
        invariant
            0 <= i <= adapters@.len(),
            adapter_path_for(adapters@, name@) == adapter_path_for(adapters@.skip(i as int), name@),
        decreases adapters@.len() - i,
    {
        assert(adapters@.skip(i as int)[0] == adapters@[i as int]);
        if str_eq(adapters[i].name.as_str(), name) {
            return adapters[i].adapter_path.clone();
        }
        assert(adapters@.skip(i as int).drop_first() =~= adapters@.skip(i + 1));
        i = i + 1;
    }
    owned(name)
}

/// Where a fused model goes: the requested output, else `./fused-<name>`.
pub fn fuse_output_path(output: &Option<String>, name: &str) -> (r: String)
    ensures
        r@ == match output {
            Some(o) => o@,
            None => "./fused-"@ + name@,
        },
{
    match output {
        Some(o) => o.clone(),
        None => concat2("./fused-", name),
    }
}

/// The fuse tool's arguments.
pub open spec fn fuse_args(
    base: Seq<char>,
    adapter: Seq<char>,
    output: Seq<char>,
    dequantize: bool,
    export_gguf: bool,
    upload_repo: Option<Seq<char>>,
) -> Seq<Seq<char>> {
    seq!["fuse"@, "--model"@, base, "--adapter-path"@, adapter, "--save-path"@, output] + (if dequantize {
        seq!["--de-quantize"@]
    } else {
        Seq::empty()
    }) + (if export_gguf {
        seq!["--export-gguf"@]
    } else {
        Seq::empty()
    }) + match upload_repo {
        Some(r) => seq!["--upload-repo"@, r],
        None => Seq::empty(),
    }
}

/// The fuse tool's arguments (see `fuse_args`).
pub fn fuse_argv(
    base: &str,
    adapter: &str,
    output: &str,
    dequantize: bool,
    export_gguf: bool,
    upload_repo: &Option<String>,
) -> (r: Vec<String>)
    ensures
        string_views(r@) == fuse_args(
            base@,
            adapter@,
            output@,
            dequantize,
            export_gguf,
            match upload_repo {
                Some(u) => Some(u@),
                None => None,
            },
        ),
{
    let mut v: Vec<String> = Vec::new();
    v.push(owned("fuse"));
    v.push(owned("--model"));
    v.push(owned(base));
    v.push(owned("--adapter-path"));
    v.push(owned(adapter));
    v.push(owned("--save-path"));
    v.push(owned(output));
    let ghost a = string_views(v@);
    if dequantize {
        v.push(owned("--de-quantize"));
    }
    let ghost b = string_views(v@);
    if export_gguf {
        v.push(owned("--export-gguf"));
    }
    let ghost c = string_views(v@);
    if let Some(u) = upload_repo {
        v.push(owned("--upload-repo"));
        v.push(u.clone());
    }
    proof {
        let d = if dequantize {
            seq!["--de-quantize"@]
        } else {
            Seq::<Seq<char>>::empty()
        };
        let e = if export_gguf {
            seq!["--export-gguf"@]
        } else {
            Seq::<Seq<char>>::empty()
        };
        let f = match upload_repo {
            Some(u) => seq!["--upload-repo"@, u@],
            None => Seq::<Seq<char>>::empty(),
        };
        assert(a =~= seq!["fuse"@, "--model"@, base@, "--adapter-path"@, adapter@, "--save-path"@, output@]);
        assert(b =~= a + d);
        assert(c =~= a + d + e);
        assert(string_views(v@) =~= a + d + e + f);
    }
    v
}

/// What the fuse endpoint answers: the output path, the GGUF file inside it
/// when one was exported, and the repository uploaded to.
pub fn fuse_response(output: String, export_gguf: bool, upload_repo: Option<String>) -> (r: FuseResponse)
    ensures
        r.output_path@ == output@,
        match r.gguf_path {
            Some(g) => export_gguf && g@ == output@ + "/model.gguf"@,
            None => !export_gguf,
        },
        r.uploaded_to == upload_repo,
{
    let gguf = if export_gguf {
        Some(concat2(output.as_str(), "/model.gguf"))
    } else {
        None
    };
    FuseResponse { output_path: output, gguf_path: gguf, uploaded_to: upload_repo }
}

// ── Convert ─────────────────────────────────────────────────────────────────

/// Where a converted model goes: the requested output, else `./mlx-` and the
/// last `/`-separated piece of the model name.
pub open spec fn convert_output(output: Option<Seq<char>>, model: Seq<char>) -> Seq<char> {
    match output {
        Some(o) => o,
        None => "./mlx-"@ + split_char(model, '/').last(),
    }
}

/// Where a converted model goes (see `convert_output`).
pub fn convert_output_path(output: &Option<String>, model: &str) -> (r: String)
    ensures
        r@ == convert_output(
            match output {
                Some(o) => Some(o@),
                None => None,
            },
            model@,
        ),
{
    match output {
        Some(o) => o.clone(),
        None => {
            let m = chars_of(model);
            let pieces = split_chars(m.as_slice(), '/');
            proof {
                lemma_split_char_nonempty(model@, '/');
            }
            let last = string_of(pieces[pieces.len() - 1].as_slice());
            concat2("./mlx-", last.as_str())
        },
    }
}

/// The convert tool's arguments.
pub open spec fn convert_args(
    model: Seq<char>,
    output: Seq<char>,
    bits: Option<u32>,
    group_size: Option<u32>,
    upload_repo: Option<Seq<char>>,
    hf_token: Option<Seq<char>>,
) -> Seq<Seq<char>> {
    seq!["convert"@, "--hf-path"@, model, "--mlx-path"@, output] + match bits {
        Some(b) => seq!["-q"@, "--q-bits"@, decimal(b as nat)],
        None => Seq::empty(),
    } + match group_size {
        Some(g) => seq!["--q-group-size"@, decimal(g as nat)],
        None => Seq::empty(),
    } + match upload_repo {
        Some(r) => seq!["--upload-repo"@, r],
        None => Seq::empty(),
    } + match hf_token {
        Some(t) => seq!["--hf-token"@, t],
        None => Seq::empty(),
    }
}

/// The convert tool's arguments (see `convert_args`).
pub fn convert_argv(
    model: &str,
    output: &str,
    bits: Option<u32>,
    group_size: Option<u32>,
    upload_repo: &Option<String>,
    hf_token: &Option<String>,
) -> (r: Vec<String>)
    ensures
        string_views(r@) == convert_args(
            model@,
            output@,
            bits,
            group_size,
            match upload_repo {
                Some(u) => Some(u@),
                None => None,
            },
            match hf_token {
                Some(t) => Some(t@),
                None => None,
            },
        ),
{
    let mut v: Vec<String> = Vec::new();
    v.push(owned("convert"));
    v.push(owned("--hf-path"));
    v.push(owned(model));
    v.push(owned("--mlx-path"));
    v.push(owned(output));
    let ghost a = string_views(v@);
    if let Some(b) = bits {
        v.push(owned("-q"));
        v.push(owned("--q-bits"));
        v.push(decimal_string(b as u64));
    }
    let ghost b1 = string_views(v@);
    if let Some(g) = group_size {
        v.push(owned("--q-group-size"));
        v.push(decimal_string(g as u64));
    }
    let ghost c1 = string_views(v@);
    if let Some(u) = upload_repo {
        v.push(owned("--upload-repo"));
        v.push(u.clone());
    }
    let ghost d1 = string_views(v@);
    if let Some(t) = hf_token {
        v.push(owned("--hf-token"));
        v.push(t.clone());
    }
    proof {
        let pb = match bits {
            Some(b) => seq!["-q"@, "--q-bits"@, decimal(b as nat)],
            None => Seq::<Seq<char>>::empty(),
        };
        let pg = match group_size {
            Some(g) => seq!["--q-group-size"@, decimal(g as nat)],
            None => Seq::<Seq<char>>::empty(),
        };
        let pu = match upload_repo {
            Some(u) => seq!["--upload-repo"@, u@],
            None => Seq::<Seq<char>>::empty(),
        };
        let pt = match hf_token {
            Some(t) => seq!["--hf-token"@, t@],
            None => Seq::<Seq<char>>::empty(),
        };
        assert(a =~= seq!["convert"@, "--hf-path"@, model@, "--mlx-path"@, output@]);
        assert(b1 =~= a + pb);
        assert(c1 =~= a + pb + pg);
        assert(d1 =~= a + pb + pg + pu);
        assert(string_views(v@) =~= a + pb + pg + pu + pt);
    }
    v
}

// ── Benchmark ───────────────────────────────────────────────────────────────

/// The prompt a benchmark runs when none is given.
pub fn default_bench_prompt() -> (r: String)
    ensures
        r@ == "Write a short poem about the ocean."@,
{
    owned("Write a short poem about the ocean.")
}

/// The number of benchmark runs when none is given.
pub fn default_bench_runs() -> (r: usize)
    ensures
        r == 3,
{
    3
}

/// The token budget of a benchmark run when none is given.
pub fn default_bench_max_tokens() -> (r: usize)
    ensures
        r == 64,
{
    64
}

/// `n` limited to `lo..=hi`.
pub open spec fn clamp(n: int, lo: int, hi: int) -> int {
    if n < lo {
        lo
    } else if n > hi {
        hi
    } else {
        n
    }
}

/// The number of benchmark runs: between one and twenty.
pub fn bench_runs(runs: usize) -> (r: usize)
    ensures
        r == clamp(runs as int, 1, 20),
{
    if runs < 1 {
        1
    } else if runs > 20 {
        20
    } else {
        runs
    }
}

/// The token budget of a benchmark run: between one and 512.
pub fn bench_max_tokens(max_tokens: usize) -> (r: usize)
    ensures
        r == clamp(max_tokens as int, 1, 512),
{
    if max_tokens < 1 {
        1
    } else if max_tokens > 512 {
        512
    } else {
        max_tokens
    }
}

} // verus!
