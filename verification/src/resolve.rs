//! Which files make up a model: the model file chosen from a repository
//! listing, the companion weights file, and the file names that are safe to fetch.

use vstd::prelude::*;
use crate::images::{extension, file_name, last_index_of, texts};
use crate::backend::spec_weights_path;
use crate::text::{chars_of, ends_with, has_suffix, push_char, str_is, string_from_chars};

verus! {

/// The files of a resolved model, as paths.
#[derive(Clone, Debug)]
pub struct Files {
    pub model: String,
    pub processor: Option<String>,
    pub config: Option<String>,
}

/// Why the model's files could not be determined.
#[derive(Clone, Debug)]
pub enum ResolveError {
    /// A repository file name is absolute or has a `..` component.
    UnsafeFilename,
    /// No model file was named and the listing does not hold exactly one
    /// usable `.xml` or `.onnx` file; these are the usable candidates found.
    AmbiguousModel { candidates: Vec<String> },
    /// Neither a local model (`-m`) nor a repository (`--hf`) was given.
    NoModelGiven,
}

/// Where the model is loaded from.
#[derive(Clone, Copy, Debug, PartialEq, Eq, Structural)]
pub enum ModelSource {
    /// A local model file or directory (`-m`), which wins when both are given.
    Local,
    /// A Hugging Face Hub repository (`--hf`).
    Hub,
}

/// Chooses the model's source: `-m` first, then `--hf`; with neither the
/// request is refused.
pub fn model_source(has_model: bool, has_repo: bool) -> (r: Result<ModelSource, ResolveError>)
    ensures
        has_model ==> r == Ok::<ModelSource, ResolveError>(ModelSource::Local),
        !has_model && has_repo ==> r == Ok::<ModelSource, ResolveError>(ModelSource::Hub),
        !has_model && !has_repo ==> r matches Err(ResolveError::NoModelGiven),
{
    if has_model {
        Ok(ModelSource::Local)
    } else if has_repo {
        Ok(ModelSource::Hub)
    } else {
        Err(ResolveError::NoModelGiven)
    }
}

/// A file given on the command line (`--preprocessor`) takes precedence over
/// the one found beside the model.
pub fn prefer_override<T>(given: Option<T>, found: Option<T>) -> (r: Option<T>)
    ensures
        r == (if given is Some { given } else { found }),
{
    match given {
        Some(p) => Some(p),
        None => found,
    }
}

/// The model file looked for first, in a directory or a repository.
pub const DEFAULT_MODEL_FILE: &'static str = "openvino_model.xml";

/// The image processor metadata file beside a model.
pub const PREPROCESSOR_CONFIG_FILE: &'static str = "preprocessor_config.json";

/// The model configuration file (class labels) beside a model.
pub const CONFIG_FILE: &'static str = "config.json";

/// The name of the model file in a local model directory: `--model-file`, or the default.
pub fn model_file_name(model_file: &Option<String>) -> (r: String)
    ensures
        r@ == match model_file {
            Some(n) => n@,
            None => DEFAULT_MODEL_FILE@,
        },
{
    match model_file {
        Some(n) => n.clone(),
        None => DEFAULT_MODEL_FILE.to_string(),
    }
}

/// A `..` segment (between separators or the text's ends) starts at `i`.
pub open spec fn parent_segment_at(name: Seq<char>, i: int) -> bool {
    &&& 0 <= i
    &&& i + 2 <= name.len()
    &&& name[i] == '.'
    &&& name[i + 1] == '.'
    &&& (i == 0 || name[i - 1] == '/')
    &&& (i + 2 == name.len() || name[i + 2] == '/')
}

/// A repository file name that may be fetched: not absolute, no `..` component.
pub open spec fn is_safe_repo_filename(name: Seq<char>) -> bool {
    &&& !(name.len() > 0 && name[0] == '/')
    &&& forall|i: int| !#[trigger] parent_segment_at(name, i)
}

/// Checks a repository file name before it is fetched.
pub fn check_repo_filename(name: &str) -> (r: Result<(), ResolveError>)
    ensures
        r is Ok <==> is_safe_repo_filename(name@),
        r matches Err(e) ==> e is UnsafeFilename,
{
    let s = chars_of(name);
    if s.len() > 0 && s[0] == '/' {
        return Err(ResolveError::UnsafeFilename);
    }
    let mut i: usize = 0;
    while i < s.len()
        invariant
            s@ == name@,
            i <= s.len(),
            forall|j: int| j < i ==> !#[trigger] parent_segment_at(s@, j),
        decreases s.len() - i,
    {
        if s.len() - i >= 2 && s[i] == '.' && s[i + 1] == '.' && (i == 0 || s[i - 1] == '/') && (i + 2
            == s.len() || s[i + 2] == '/') {
            assert(parent_segment_at(s@, i as int));
            return Err(ResolveError::UnsafeFilename);
        }
        i = i + 1;
    }
    assert forall|j: int| !#[trigger] parent_segment_at(name@, j) by {
        if j >= s.len() {
        }
    }
    Ok(())
}

/// An IR or ONNX model file name.
pub open spec fn is_model_file_name(name: Seq<char>) -> bool {
    ends_with(name, ".xml"@) || ends_with(name, ".onnx"@)
}

/// The usable model files of a listing, in listing order; entry `i` is usable
/// when online or when `cached[i]` holds.
pub open spec fn model_candidates(names: Seq<Seq<char>>, offline: bool, cached: Seq<bool>) -> Seq<
    Seq<char>,
>
    decreases names.len(),
{
    if names.len() == 0 {
        seq![]
    } else {
        let prev = model_candidates(names.drop_last(), offline, cached);
        let i = names.len() - 1;
        if is_model_file_name(names[i]) && (!offline || cached[i]) {
            prev.push(names[i])
        } else {
            prev
        }
    }
}

/// The model file to fetch from a repository: `--model-file` when given; else
/// the default file when it is listed (and, offline, cached); else the one usable
/// IR/ONNX candidate, and an error when there is not exactly one.
pub open spec fn spec_choose_model_file(
    model_file: Option<Seq<char>>,
    names: Seq<Seq<char>>,
    offline: bool,
    cached: Seq<bool>,
    default_cached: bool,
) -> Result<Seq<char>, Seq<Seq<char>>> {
    match model_file {
        Some(n) => Ok(n),
        None => if names.contains(DEFAULT_MODEL_FILE@) && (!offline || default_cached) {
            Ok(DEFAULT_MODEL_FILE@)
        } else {
            let c = model_candidates(names, offline, cached);
            if c.len() == 1 {
                Ok(c[0])
            } else {
                Err(c)
            }
        },
    }
}

/// An online repository that lists the default model file resolves to it,
/// whatever other model files it holds; `--model-file` always wins.
pub proof fn lemma_default_model_preferred(names: Seq<Seq<char>>, cached: Seq<bool>, default_cached: bool)
    requires
        names.contains(DEFAULT_MODEL_FILE@),
    ensures
        spec_choose_model_file(None, names, false, cached, default_cached) == Ok::<Seq<char>, Seq<Seq<char>>>(
            DEFAULT_MODEL_FILE@,
        ),
        forall|m: Seq<char>| #[trigger] spec_choose_model_file(Some(m), names, false, cached, default_cached)
            == Ok::<Seq<char>, Seq<Seq<char>>>(m),
{
}

/// Every model candidate of a listing is one of its names and an IR (`.xml`)
/// or ONNX (`.onnx`) file.
pub proof fn lemma_candidates_are_ir_or_onnx(names: Seq<Seq<char>>, offline: bool, cached: Seq<bool>)
    ensures
        forall|i: int| 0 <= i < model_candidates(names, offline, cached).len() ==> {
            let c = #[trigger] model_candidates(names, offline, cached)[i];
            &&& ends_with(c, ".xml"@) || ends_with(c, ".onnx"@)
            &&& names.contains(c)
        },
    decreases names.len(),
{
    if names.len() > 0 {
        lemma_candidates_are_ir_or_onnx(names.drop_last(), offline, cached);
        let prev = model_candidates(names.drop_last(), offline, cached);
        assert forall|i: int| 0 <= i < prev.len() implies names.contains(#[trigger] prev[i]) by {
            let k = choose|k: int| 0 <= k < names.drop_last().len() && names.drop_last()[k] == prev[i];
            assert(names[k] == prev[i]);
        }
        assert(names[names.len() - 1] == names.last());
    }
}

proof fn lemma_only_candidate(names: Seq<Seq<char>>, cached: Seq<bool>, j: int)
    requires
        0 <= j < names.len() ==> ends_with(names[j], ".xml"@) || ends_with(names[j], ".onnx"@),
        forall|i: int|
            0 <= i < names.len() && i != j ==> !(ends_with(#[trigger] names[i], ".xml"@) || ends_with(names[i], ".onnx"@)),
    ensures
        model_candidates(names, false, cached) == (if 0 <= j < names.len() { seq![names[j]] } else { Seq::<Seq<char>>::empty() }),
    decreases names.len(),
{
    if names.len() > 0 {
        let init = names.drop_last();
        assert forall|i: int| 0 <= i < init.len() && i != j implies !(ends_with(#[trigger] init[i], ".xml"@)
            || ends_with(init[i], ".onnx"@)) by {
            assert(init[i] == names[i]);
        }
        if 0 <= j < init.len() {
            assert(init[j] == names[j]);
        }
        lemma_only_candidate(init, cached, j);
        let last = names.len() - 1;
        if j == last {
            assert(seq![names[j]] =~= Seq::<Seq<char>>::empty().push(names[j]));
        } else {
            assert(!(ends_with(names[last], ".xml"@) || ends_with(names[last], ".onnx"@)));
        }
    }
}

/// A repository listing without the default model file whose only IR or ONNX
/// file is `names[j]` resolves to that file: other files (such as Safetensors
/// or PyTorch weights, or metadata) are never model candidates.
pub proof fn lemma_single_model_resolves(names: Seq<Seq<char>>, cached: Seq<bool>, default_cached: bool, j: int)
    requires
        0 <= j < names.len(),
        !names.contains(DEFAULT_MODEL_FILE@),
        ends_with(names[j], ".xml"@) || ends_with(names[j], ".onnx"@),
        forall|i: int|
            0 <= i < names.len() && i != j ==> !(ends_with(#[trigger] names[i], ".xml"@) || ends_with(names[i], ".onnx"@)),
    ensures
        spec_choose_model_file(None, names, false, cached, default_cached) == Ok::<Seq<char>, Seq<Seq<char>>>(names[j]),
{
    lemma_only_candidate(names, cached, j);
}

/// The listing assumed offline, where the repository cannot be asked.
pub fn offline_model_names() -> (r: Vec<String>)
    ensures
        texts(r@) == seq![DEFAULT_MODEL_FILE@, "model.onnx"@],
{
    let mut v: Vec<String> = Vec::new();
    v.push(DEFAULT_MODEL_FILE.to_string());
    v.push("model.onnx".to_string());
    assert(texts(v@) =~= seq![DEFAULT_MODEL_FILE@, "model.onnx"@]);
    v
}

/// Chooses the model file of a repository (see `spec_choose_model_file`);
/// `cached[i]` tells whether `names[i]` is in the local cache, `default_cached`
/// whether the default model file is.
pub fn choose_model_file(
    model_file: &Option<String>,
    names: &Vec<String>,
    offline: bool,
    cached: &Vec<bool>,
    default_cached: bool,
) -> (r: Result<String, ResolveError>)
    requires
        cached.len() == names.len(),
    ensures
        match r {
            Ok(n) => spec_choose_model_file(
                match model_file { Some(m) => Some(m@), None => None },
                texts(names@),
                offline,
                cached@,
                default_cached,
            ) == Ok::<Seq<char>, Seq<Seq<char>>>(n@),
            Err(ResolveError::AmbiguousModel { candidates }) => spec_choose_model_file(
                match model_file { Some(m) => Some(m@), None => None },
                texts(names@),
                offline,
                cached@,
                default_cached,
            ) == Err::<Seq<char>, Seq<Seq<char>>>(texts(candidates@)),
            Err(_) => false,
        },
{
    if let Some(n) = model_file {
        return Ok(n.clone());
    }
    let ghost views = texts(names@);
    let mut has_default = false;
    let mut i: usize = 0;
    while i < names.len()
        invariant
            i <= names.len(),
            views == texts(names@),
            has_default == exists|j: int| 0 <= j < i && views[j] == DEFAULT_MODEL_FILE@,
        decreases names.len() - i,
    {
        if str_is(names[i].as_str(), DEFAULT_MODEL_FILE) {
            has_default = true;
        }
        assert(views[i as int] == names@[i as int]@);
        i = i + 1;
    }
    assert(has_default == views.contains(DEFAULT_MODEL_FILE@));
    if has_default && (!offline || default_cached) {
        return Ok(DEFAULT_MODEL_FILE.to_string());
    }
    let mut candidates: Vec<String> = Vec::new();
    let mut k: usize = 0;
    while k < names.len()
        invariant
            k <= names.len(),
            cached.len() == names.len(),
            views == texts(names@),
            texts(candidates@) == model_candidates(views.take(k as int), offline, cached@),
        decreases names.len() - k,
    {
        let cs = chars_of(names[k].as_str());
        let is_model = has_suffix(&cs, ".xml") || has_suffix(&cs, ".onnx");
        assert(views.take(k + 1).drop_last() =~= views.take(k as int));
        assert(views.take(k + 1)[k as int] == names@[k as int]@);
        if is_model && (!offline || cached[k]) {
            let ghost prev = candidates@;
            candidates.push(names[k].clone());
            assert(texts(candidates@) =~= texts(prev).push(names@[k as int]@));
        }
        k = k + 1;
    }
    assert(views.take(names.len() as int) =~= views);
    if candidates.len() != 1 {
        return Err(ResolveError::AmbiguousModel { candidates });
    }
    assert(texts(candidates@)[0] == candidates@[0]@);
    Ok(candidates[0].clone())
}

/// `name` with every trailing `.xml` removed (as `str::trim_end_matches`).
pub open spec fn trim_xml_suffixes(name: Seq<char>) -> Seq<char>
    decreases name.len(),
{
    if ends_with(name, ".xml"@) && name.len() >= 4 {
        trim_xml_suffixes(name.take(name.len() - 4))
    } else {
        name
    }
}

/// The weights file fetched with an IR model: for a name ending in `.xml`, the
/// name with its trailing `.xml` suffixes removed and `.bin` appended.
pub open spec fn spec_weights_file_name(name: Seq<char>) -> Option<Seq<char>> {
    if ends_with(name, ".xml"@) {
        Some(trim_xml_suffixes(name) + ".bin"@)
    } else {
        None
    }
}

/// The weights file that goes with a repository model file, if it is an IR model.
pub fn weights_file_name(name: &str) -> (r: Option<String>)
    ensures
        match r {
            Some(w) => spec_weights_file_name(name@) == Some(w@),
            None => spec_weights_file_name(name@) is None,
        },
{
    let mut cs = chars_of(name);
    if !has_suffix(&cs, ".xml") {
        return None;
    }
    proof {
        reveal_strlit(".xml");
    }
    let ghost target = trim_xml_suffixes(name@);
    while has_suffix(&cs, ".xml")
        invariant
            trim_xml_suffixes(cs@) == target,
            ".xml"@.len() == 4,
        decreases cs.len(),
    {
        let n = cs.len() - 4;
        cs.truncate(n);
    }
    let mut s = string_from_chars(&cs);
    push_char(&mut s, '.');
    push_char(&mut s, 'b');
    push_char(&mut s, 'i');
    push_char(&mut s, 'n');
    proof {
        reveal_strlit(".bin");
    }
    assert(s@ =~= target + ".bin"@);
    Some(s)
}

proof fn lemma_last_slash_before_suffix(s: Seq<char>, k: int)
    requires
        0 <= k <= s.len(),
        forall|j: int| s.len() - k <= j < s.len() ==> s[j] != '/',
    ensures
        match last_index_of(s, '/') {
            Some(i) => 0 <= i < s.len() - k,
            None => true,
        },
    decreases s.len(),
{
    if s.len() > 0 && s.last() != '/' {
        if k > 0 {
            lemma_last_slash_before_suffix(s.drop_last(), k - 1);
        } else {
            lemma_last_slash_before_suffix(s.drop_last(), 0);
        }
    }
}

/// The weights file fetched with an IR model is the one OpenVINO reads beside
/// it, for a repository name `<stem>.xml` whose file stem is not empty and
/// does not itself end in `.xml`.
pub proof fn lemma_fetched_weights_are_read(name: Seq<char>)
    requires
        ends_with(name, ".xml"@),
        !ends_with(name, ".xml.xml"@),
        file_name(name).len() > 4,
    ensures
        spec_weights_file_name(name) == Some(spec_weights_path(name)),
{
    reveal_strlit(".xml");
    reveal_strlit(".xml.xml");
    reveal_strlit("xml");
    reveal_strlit("bin");
    reveal_strlit(".bin");
    let n = name.len();
    assert(name.skip(n - 4) == ".xml"@);
    assert(name[n - 4] == '.' && name[n - 3] == 'x' && name[n - 2] == 'm' && name[n - 1] == 'l') by {
        assert(name.skip(n - 4)[0] == name[n - 4]);
        assert(name.skip(n - 4)[1] == name[n - 3]);
        assert(name.skip(n - 4)[2] == name[n - 2]);
        assert(name.skip(n - 4)[3] == name[n - 1]);
    }
    lemma_last_slash_before_suffix(name, 4);
    let f = file_name(name);
    let m = f.len();
    assert(f[m - 4] == '.' && f[m - 3] == 'x' && f[m - 2] == 'm' && f[m - 1] == 'l') by {
        match last_index_of(name, '/') {
            Some(i) => {
                assert(f == name.skip(i + 1));
                assert(f[m - 4] == name[n - 4]);
                assert(f[m - 3] == name[n - 3]);
                assert(f[m - 2] == name[n - 2]);
                assert(f[m - 1] == name[n - 1]);
            },
            None => {},
        }
    }
    assert(f != seq!['.', '.']);
    assert(f.drop_last().last() == 'm');
    assert(f.drop_last().drop_last().last() == 'x');
    assert(f.drop_last().drop_last().drop_last().last() == '.');
    assert(f.last() == 'l');
    assert(last_index_of(f.drop_last().drop_last().drop_last(), '.') == Some(m - 4));
    assert(last_index_of(f.drop_last().drop_last(), '.') == Some(m - 4));
    assert(last_index_of(f.drop_last(), '.') == Some(m - 4));
    assert(last_index_of(f, '.') == Some(m - 4));
    assert(f.skip(m - 3) =~= "xml"@);
    assert(extension(f) == Some("xml"@));
    let stem = name.take(n - 4);
    assert(!ends_with(stem, ".xml"@)) by {
        if ends_with(stem, ".xml"@) {
            assert(name.skip(n - 8) =~= stem.skip(stem.len() - 4) + name.skip(n - 4));
            assert(".xml.xml"@ =~= ".xml"@ + ".xml"@);
            assert(name.skip(n - 8) == ".xml.xml"@);
            assert(ends_with(name, ".xml.xml"@));
        }
    }
    assert(name.take(n - 4) =~= name.take(n as int - 4));
    assert(trim_xml_suffixes(stem) == stem);
    assert(ends_with(name, ".xml"@) && name.len() >= 4);
    assert(trim_xml_suffixes(name) == trim_xml_suffixes(name.take(name.len() - 4)));
    assert(trim_xml_suffixes(name) == stem);
    assert(name.take(n - 3) + "bin"@ =~= stem + ".bin"@);
}

/// The repository files that must be fetched, in order: the model file, the
/// `--extra-file` names, and the weights of an IR model.
pub open spec fn spec_required_files(model: Seq<char>, extra: Seq<Seq<char>>) -> Seq<Seq<char>> {
    let base = seq![model] + extra;
    match spec_weights_file_name(model) {
        Some(w) => base.push(w),
        None => base,
    }
}

/// The files to fetch before a repository model can be used.
pub fn required_files(model: &String, extra: &Vec<String>) -> (r: Vec<String>)
    ensures
        texts(r@) == spec_required_files(model@, texts(extra@)),
{
    let mut v: Vec<String> = Vec::new();
    v.push(model.clone());
    let mut i: usize = 0;
    while i < extra.len()
        invariant
            i <= extra.len(),
            texts(v@) == seq![model@] + texts(extra@).take(i as int),
        decreases extra.len() - i,
    {
        let ghost prev = v@;
        v.push(extra[i].clone());
        assert(texts(v@) =~= texts(prev).push(extra@[i as int]@));
        assert(texts(extra@).take(i + 1) =~= texts(extra@).take(i as int).push(extra@[i as int]@));
        i = i + 1;
    }
    assert(texts(extra@).take(extra.len() as int) =~= texts(extra@));
    match weights_file_name(model.as_str()) {
        Some(w) => {
            let ghost prev = v@;
            v.push(w);
            assert(texts(v@) =~= texts(prev).push(w@));
        },
        None => {},
    }
    v
}

} // verus!
