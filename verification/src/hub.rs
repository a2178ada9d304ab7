//! The HuggingFace hub and its local cache: the names of cached model
//! directories, the search request, and the models a search lists.

use vstd::prelude::*;
use crate::text::{
    chars_of, concat2, concat3, decimal, decimal_string, owned, replace_all, replace_from,
    replace_str, slice_vec, starts_with, starts_with_chars, str_eq, string_of, replace_chars,
};
use crate::lm::models::{string_views, HfModel};

verus! {

/// A search of the hub: the text searched for, and how many models to list.
pub struct HfSearchQuery {
    pub search: String,
    pub limit: usize,
}

/// The number of models a search lists when none is given.
pub fn default_limit() -> (r: usize)
    ensures
        r == 20,
{
    20
}

/// The number of models a search asks the hub for: at most fifty.
pub fn search_limit(limit: usize) -> (r: usize)
    ensures
        r == if limit < 50 {
            limit
        } else {
            50
        },
{
    if limit < 50 {
        limit
    } else {
        50
    }
}

/// The query parameters of a hub search: models of `mlx-community` by
/// downloads, most first, `limit` of them with full details, and the search
/// text when there is one.
pub open spec fn search_query(search: Seq<char>, limit: nat) -> Seq<(Seq<char>, Seq<char>)> {
    seq![
        ("author"@, "mlx-community"@),
        ("sort"@, "downloads"@),
        ("direction"@, "-1"@),
        ("limit"@, decimal(limit)),
        ("full"@, "true"@),
    ] + if search.len() > 0 {
        seq![("search"@, search)]
    } else {
        Seq::empty()
    }
}

/// The views of a list of string pairs.
pub open spec fn pair_views(v: Seq<(String, String)>) -> Seq<(Seq<char>, Seq<char>)> {
    v.map_values(|p: (String, String)| (p.0@, p.1@))
}

/// The query parameters of a hub search (see `search_query`).
pub fn search_params(search: &str, limit: usize) -> (r: Vec<(String, String)>)
    ensures
        pair_views(r@) == search_query(search@, limit as nat),
{
    let mut v: Vec<(String, String)> = Vec::new();
    v.push((owned("author"), owned("mlx-community")));
    v.push((owned("sort"), owned("downloads")));
    v.push((owned("direction"), owned("-1")));
    v.push((owned("limit"), decimal_string(limit as u64)));
    v.push((owned("full"), owned("true")));
    if !search.is_empty() {
        v.push((owned("search"), owned(search)));
    }
    assert(pair_views(v@) =~= search_query(search@, limit as nat));
    v
}

/// A model of a search: its fields as the hub lists them, and whether it is
/// in the local cache.
pub fn hf_model(
    id: String,
    pipeline_tag: String,
    downloads: u64,
    likes: u64,
    size_bytes: Option<u64>,
    local_ids: &Vec<String>,
) -> (r: HfModel)
    ensures
        r.id@ == id@,
        r.model_id@ == id@,
        r.pipeline_tag@ == pipeline_tag@,
        r.downloads == downloads,
        r.likes == likes,
        r.size_bytes == size_bytes,
        r.cached == string_views(local_ids@).contains(id@),
{
    let cached = crate::lm::service::list_contains(local_ids, id.as_str());
    HfModel { model_id: id.clone(), id, pipeline_tag, downloads, likes, size_bytes, cached }
}

/// The ids of the models whose size the search did not give, in order.
pub open spec fn missing_size_ids(models: Seq<HfModel>) -> Seq<Seq<char>>
    decreases models.len(),
{
    if models.len() == 0 {
        Seq::empty()
    } else if models.last().size_bytes is None {
        missing_size_ids(models.drop_last()).push(models.last().id@)
    } else {
        missing_size_ids(models.drop_last())
    }
}

/// The ids of the models whose size the search did not give.
pub fn models_needing_size(models: &Vec<HfModel>) -> (r: Vec<String>)
    ensures
        string_views(r@) == missing_size_ids(models@),
{
    let mut r: Vec<String> = Vec::new();
    let mut i: usize = 0;
    while i < models.len()
        invariant
            0 <= i <= models@.len(),
            string_views(r@) == missing_size_ids(models@.take(i as int)),
        decreases models@.len() - i,
    {
        assert(models@.take(i + 1).drop_last() =~= models@.take(i as int));
        if models[i].size_bytes.is_none() {
            let ghost prev = r@;
            let s = models[i].id.clone();
            r.push(s);
            assert(string_views(r@) =~= string_views(prev).push(s@));
        }
        i = i + 1;
    }
    assert(models@.take(i as int) =~= models@);
    r
}

/// The size looked up for `id`: that of the last entry for it, none when no
/// entry is for it.
pub open spec fn size_lookup(sizes: Seq<(Seq<char>, Option<u64>)>, id: Seq<char>) -> Option<u64>
    decreases sizes.len(),
{
    if sizes.len() == 0 {
        None
    } else if sizes.last().0 == id {
        sizes.last().1
    } else {
        size_lookup(sizes.drop_last(), id)
    }
}

/// The views of the looked-up sizes.
pub open spec fn size_views(v: Seq<(String, Option<u64>)>) -> Seq<(Seq<char>, Option<u64>)> {
    v.map_values(|p: (String, Option<u64>)| (p.0@, p.1))
}

/// The size found for `id`.
fn find_size(sizes: &Vec<(String, Option<u64>)>, id: &str) -> (r: Option<u64>)
    ensures
        r == size_lookup(size_views(sizes@), id@),
{
    let mut k = sizes.len();
    assert(size_views(sizes@).take(k as int) =~= size_views(sizes@));
    while k > 0
        invariant
            0 <= k <= sizes@.len(),
            size_lookup(size_views(sizes@), id@) == size_lookup(size_views(sizes@).take(k as int), id@),
        decreases k,
    {
        let ghost t = size_views(sizes@).take(k as int);
        assert(t.last() == (sizes@[k - 1].0@, sizes@[k - 1].1));
        if str_eq(sizes[k - 1].0.as_str(), id) {
            return sizes[k - 1].1;
        }
        assert(t.drop_last() =~= size_views(sizes@).take(k - 1));
        k = k - 1;
    }
    None
}

/// Fills in the sizes the search did not give, from the sizes looked up one
/// by one; a model whose size was given keeps it.
pub fn fill_sizes(models: &mut Vec<HfModel>, sizes: &Vec<(String, Option<u64>)>)
    ensures
        final(models)@.len() == old(models)@.len(),
        forall|i: int|
            0 <= i < old(models)@.len() ==> {
                let m = #[trigger] final(models)@[i];
                let o = old(models)@[i];
                &&& m.id == o.id
                &&& m.model_id == o.model_id
                &&& m.pipeline_tag == o.pipeline_tag
                &&& m.downloads == o.downloads
                &&& m.likes == o.likes
                &&& m.cached == o.cached
                &&& m.size_bytes == match o.size_bytes {
                    Some(s) => Some(s),
                    None => size_lookup(size_views(sizes@), o.id@),
                }
            },
{
    let mut i: usize = 0;
    while i < models.len()
        invariant
            0 <= i <= models@.len(),
            models@.len() == old(models)@.len(),
            forall|j: int|
                i <= j < models@.len() ==> #[trigger] models@[j] == old(models)@[j],
            forall|j: int|
                0 <= j < i ==> {
                    let m = #[trigger] models@[j];
                    let o = old(models)@[j];
                    &&& m.id == o.id
                    &&& m.model_id == o.model_id
                    &&& m.pipeline_tag == o.pipeline_tag
                    &&& m.downloads == o.downloads
                    &&& m.likes == o.likes
                    &&& m.cached == o.cached
                    &&& m.size_bytes == match o.size_bytes {
                        Some(s) => Some(s),
                        None => size_lookup(size_views(sizes@), o.id@),
                    }
                },
        decreases models@.len() - i,
    {
        if models[i].size_bytes.is_none() {
            let s = find_size(sizes, models[i].id.as_str());
            let mut m = models.remove(i);
            m.size_bytes = s;
            models.insert(i, m);
        }
        i = i + 1;
    }
}

// ── Cache directory names ───────────────────────────────────────────────────

/// The cache directory of `org/model`: `models--<org>--<model>`, with each `/`
/// of the model name written `--`.
pub open spec fn cache_dir(org: Seq<char>, model: Seq<char>) -> Seq<char> {
    "models--"@ + org + "--"@ + replace_all(model, "/"@, "--"@)
}

/// The model id a cache directory holds: the name after `models--` with each
/// `--` read as `/`; none for other directories.
pub open spec fn model_id_of_dir(name: Seq<char>) -> Option<Seq<char>> {
    if starts_with(name, "models--"@) {
        Some(replace_all(name.skip(8), "--"@, "/"@))
    } else {
        None
    }
}

/// The cache directory of `org/model` (see `cache_dir`).
pub fn cache_dir_name(org: &str, model: &str) -> (r: String)
    ensures
        r@ == cache_dir(org@, model@),
{
    proof {
        reveal_strlit("/");
    }
    let m = replace_str(model, "/", "--");
    let head = concat3("models--", org, "--");
    concat2(head.as_str(), m.as_str())
}

/// The model id a cache directory holds (see `model_id_of_dir`).
pub fn model_id_from_dir(name: &str) -> (r: Option<String>)
    ensures
        match r {
            Some(id) => model_id_of_dir(name@) == Some(id@),
            None => model_id_of_dir(name@) is None,
        },
{
    proof {
        reveal_strlit("models--");
        reveal_strlit("--");
    }
    let s = chars_of(name);
    let prefix = chars_of("models--");
    if starts_with_chars(s.as_slice(), prefix.as_slice()) {
        let rest = slice_vec(s.as_slice(), 8, s.len());
        assert(rest@ =~= name@.skip(8));
        let sep = chars_of("--");
        let slash = chars_of("/");
        let id = replace_chars(rest.as_slice(), sep.as_slice(), slash.as_slice());
        Some(string_of(id.as_slice()))
    } else {
        None
    }
}

/// The `org/model` label of a deleted model.
pub fn deleted_label(org: &str, model: &str) -> (r: String)
    ensures
        r@ == org@ + "/"@ + model@,
{
    concat3(org, "/", model)
}

/// A stretch of text without `p[0]` is copied unchanged by the replacement.
proof fn lemma_replace_copies(x: Seq<char>, p: Seq<char>, r: Seq<char>, i: int, k: int)
    requires
        0 <= i <= k <= x.len(),
        p.len() > 0,
        forall|j: int| i <= j < k ==> x[j] != p[0],
    ensures
        replace_from(x, p, r, i) == x.subrange(i, k) + replace_from(x, p, r, k),
    decreases k - i,
{
    if i == k {
        assert(x.subrange(i, k) =~= Seq::<char>::empty());
        assert(Seq::<char>::empty() + replace_from(x, p, r, k) =~= replace_from(x, p, r, k));
    } else {
        if i + p.len() <= x.len() && x.subrange(i, i + p.len()) == p {
            assert(x.subrange(i, i + p.len())[0] == x[i]);
        }
        lemma_replace_copies(x, p, r, i + 1, k);
        assert(seq![x[i]] + (x.subrange(i + 1, k) + replace_from(x, p, r, k)) =~= x.subrange(i, k)
            + replace_from(x, p, r, k));
    }
}

/// The text has no hyphen and no slash.
pub open spec fn plain_name(s: Seq<char>) -> bool {
    forall|i: int| 0 <= i < s.len() ==> s[i] != '-' && s[i] != '/'
}

/// Reading back the directory of a model gives its id: for organisation and
/// model names without hyphens or slashes, the directory `cache_dir(org, model)`
/// holds the model `org/model`.
pub proof fn lemma_cache_dir_roundtrip(org: Seq<char>, model: Seq<char>)
    requires
        plain_name(org),
        plain_name(model),
    ensures
        model_id_of_dir(cache_dir(org, model)) == Some(org + "/"@ + model),
{
    reveal_strlit("models--");
    reveal_strlit("--");
    reveal_strlit("/");
    let slash = "/"@;
    let dash2 = "--"@;
    lemma_replace_copies(model, slash, dash2, 0, model.len() as int);
    assert(model.subrange(0, model.len() as int) =~= model);
    assert(replace_from(model, slash, dash2, model.len() as int) =~= Seq::<char>::empty());
    assert(replace_all(model, slash, dash2) =~= model);
    let name = cache_dir(org, model);
    assert(starts_with(name, "models--"@)) by {
        assert(name.subrange(0, 8) =~= "models--"@);
    }
    let x = name.skip(8);
    assert(x =~= org + dash2 + model);
    let o = org.len() as int;
    lemma_replace_copies(x, dash2, slash, 0, o);
    assert(x.subrange(0, o) =~= org);
    assert(x.subrange(o, o + 2) =~= dash2);
    assert(replace_from(x, dash2, slash, o) == slash + replace_from(x, dash2, slash, o + 2));
    lemma_replace_copies(x, dash2, slash, o + 2, x.len() as int);
    assert(x.subrange(o + 2, x.len() as int) =~= model);
    assert(replace_from(x, dash2, slash, x.len() as int) =~= Seq::<char>::empty());
    assert(replace_all(x, dash2, slash) =~= org + slash + model);
}

} // verus!
