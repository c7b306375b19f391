//! The local embedding provider.

use std::collections::hash_map::DefaultHasher;
use std::hash::Hasher;
use std::path::PathBuf;

use vstd::prelude::*;
use vstd::std_specs::hash::DefaultHasherAdditionalSpecFns;
use vstd::string::*;

use crate::path::{join, joined};
use crate::text::opt_view;

verus! {

/// The number of dimensions of the model.
pub const MODEL_DIMENSIONS: usize = 384;

/// Local embedding provider using ONNX Runtime.
///
/// Uses e5-small-v2 model (384 dimensions, 33M parameters).
/// Runs on CPU — no GPU required, fully air-gap compatible.
///
/// The model files (model.onnx + tokenizer.json) must be present
/// at the configured model directory.
#[derive(Debug)]
pub struct LocalEmbeddingProvider {
    model_dir: PathBuf,
    dimensions: usize,
}

// ---------------------------------------------------------------------------
// Paths that need not be text
// ---------------------------------------------------------------------------

/// `std::path::PathBuf`: a path of the system, which need not be UTF-8.
#[verifier::external_type_specification]
#[verifier::external_body]
pub struct ExPathBuf(PathBuf);

/// The text that a path holds, by `Path::to_str`; nothing where it is not UTF-8.
pub uninterp spec fn path_text(path: PathBuf) -> Option<Seq<char>>;

/// The text that a path is shown as, by `Path::display`.
pub uninterp spec fn path_shown(path: PathBuf) -> Seq<char>;

/// The text of a path by `Path::to_str`.
#[verifier::external_body]
fn text_of_path(path: &PathBuf) -> (r: Option<String>)
    ensures
        opt_view(r) == path_text(*path),
{
    path.to_str().map(|text| text.to_string())
}

/// Shows a path by `Path::display`, which replaces what is not UTF-8 and keeps a text as it is.
#[verifier::external_body]
fn show_path(path: &PathBuf) -> (r: String)
    ensures
        r@ == path_shown(*path),
        match path_text(*path) {
            Some(text) => r@ == text,
            None => true,
        },
{
    path.display().to_string()
}

/// Makes a path of a text by `PathBuf::from`. The path holds the text, and is shown as it.
#[verifier::external_body]
fn path_of_text(text: &str) -> (r: PathBuf)
    ensures
        path_text(r) == Some(text@),
        path_shown(r) == text@,
{
    PathBuf::from(text)
}

/// A name that is one part of a path on every system.
pub open spec fn is_plain_name(name: Seq<char>) -> bool {
    &&& name.len() > 2
    &&& forall|i: int|
        0 <= i < name.len() ==> #[trigger] name[i] != '/' && name[i] != '\\' && name[i] != ':'
}

/// The path of a name inside a directory, by `Path::join`. It ends in the name, and is text
/// just if the directory is. How the two are put together is the system's to say, and left
/// unsaid here.
#[verifier::external_body]
fn join_path(dir: &PathBuf, name: &str) -> (r: PathBuf)
    requires
        is_plain_name(name@),
    ensures
        path_text(r) is Some <==> path_text(*dir) is Some,
        name@.is_suffix_of(path_shown(r)),
{
    dir.join(name)
}

/// Asks with `Path::exists` whether there is something at a path. The answer depends on the
/// file system at that moment, so nothing is stated of it.
#[verifier::external_body]
fn path_exists(path: &PathBuf) -> bool {
    path.exists()
}

/// The directory of user configuration by `dirs::config_dir`, if there is one. It depends on
/// the user and the machine, so nothing is stated of it.
#[verifier::external_body]
fn config_dir() -> Option<PathBuf> {
    dirs::config_dir()
}

/// A path is that of a name inside a directory: a text where the directory is one, else a
/// path that ends in the name.
pub open spec fn is_below(path: PathBuf, dir: PathBuf, name: Seq<char>) -> bool {
    match path_text(dir) {
        Some(text) => path_text(path) == Some(joined(text, name)),
        None => path_text(path) is None && name.is_suffix_of(path_shown(path)),
    }
}

fn below(dir: &PathBuf, name: &str) -> (r: PathBuf)
    requires
        is_plain_name(name@),
    ensures
        is_below(r, *dir, name@),
{
    match text_of_path(dir) {
        Some(text) => path_of_text(join(text.as_str(), name).as_str()),
        None => join_path(dir, name),
    }
}

/// The paths of the model and of the tokenizer in a model directory.
pub fn model_files(model_dir: &PathBuf) -> (r: (PathBuf, PathBuf))
    ensures
        is_below(r.0, *model_dir, "model.onnx"@),
        is_below(r.1, *model_dir, "tokenizer.json"@),
{
    proof {
        reveal_strlit("model.onnx");
        reveal_strlit("tokenizer.json");
    }
    (below(model_dir, "model.onnx"), below(model_dir, "tokenizer.json"))
}

/// What is said where the model is missing in a directory that is shown so.
pub open spec fn model_missing(model_dir: Seq<char>) -> Seq<char> {
    "ONNX model not found at "@ + joined(model_dir, "model.onnx"@)
        + ". Download e5-small-v2 model files."@
}

/// What is said where the tokenizer is missing in a directory that is shown so.
pub open spec fn tokenizer_missing(model_dir: Seq<char>) -> Seq<char> {
    "Tokenizer not found at "@ + joined(model_dir, "tokenizer.json"@)
        + ". Download e5-small-v2 tokenizer.json."@
}

/// The directory of the model below a configuration directory, or below `.config` where
/// there is none.
pub open spec fn default_model_dir(config: Option<Seq<char>>) -> Seq<char> {
    let base = match config {
        Some(dir) => dir,
        None => ".config"@,
    };
    joined(joined(joined(base, "goose"@), "models"@), "e5-small-v2"@)
}

/// A path is the directory of the model for a configuration directory, if there is one.
pub open spec fn is_default_dir(path: PathBuf, config: Option<PathBuf>) -> bool {
    match config {
        Some(dir) => match path_text(dir) {
            Some(text) => path_text(path) == Some(default_model_dir(Some(text))),
            None => path_text(path) is None && "e5-small-v2"@.is_suffix_of(path_shown(path)),
        },
        None => path_text(path) == Some(default_model_dir(None)),
    }
}

/// The directory of the model below a configuration directory, or below `.config` where
/// there is none.
pub fn default_model_dir_in(config: Option<PathBuf>) -> (r: PathBuf)
    ensures
        is_default_dir(r, config),
{
    proof {
        reveal_strlit("goose");
        reveal_strlit("models");
        reveal_strlit("e5-small-v2");
    }
    let base = match config {
        Some(dir) => dir,
        None => path_of_text(".config"),
    };
    below(&below(&below(&base, "goose"), "models"), "e5-small-v2")
}

/// What comes of opening a model directory: a provider, or a message that one of its files is
/// missing.
pub open spec fn opens(r: Result<LocalEmbeddingProvider, String>, model_dir: PathBuf) -> bool {
    match r {
        Ok(provider) => provider.dir() == model_dir && provider.dims() == MODEL_DIMENSIONS,
        Err(message) => message@ == model_missing(path_shown(model_dir)) || message@
            == tokenizer_missing(path_shown(model_dir)),
    }
}

impl LocalEmbeddingProvider {
    /// The directory of the model.
    pub closed spec fn dir(self) -> PathBuf {
        self.model_dir
    }

    /// The number of dimensions.
    pub closed spec fn dims(self) -> usize {
        self.dimensions
    }

    /// A provider whose model directory holds the model and the tokenizer, or not.
    pub fn from_presence(model_dir: PathBuf, has_model: bool, has_tokenizer: bool) -> (r: Result<
        LocalEmbeddingProvider,
        String,
    >)
        ensures
            match r {
                Ok(provider) => {
                    &&& has_model && has_tokenizer
                    &&& provider.dir() == model_dir
                    &&& provider.dims() == MODEL_DIMENSIONS
                },
                Err(message) => if has_model {
                    !has_tokenizer && message@ == tokenizer_missing(path_shown(model_dir))
                } else {
                    message@ == model_missing(path_shown(model_dir))
                },
            },
    {
        if !has_model {
            let mut text = "ONNX model not found at ".to_owned();
            text.append(join(show_path(&model_dir).as_str(), "model.onnx").as_str());
            text.append(". Download e5-small-v2 model files.");
            return Err(text);
        }
        if !has_tokenizer {
            let mut text = "Tokenizer not found at ".to_owned();
            text.append(join(show_path(&model_dir).as_str(), "tokenizer.json").as_str());
            text.append(". Download e5-small-v2 tokenizer.json.");
            return Err(text);
        }
        Ok(LocalEmbeddingProvider { model_dir, dimensions: MODEL_DIMENSIONS })
    }

    /// Create a new local embedding provider.
    ///
    /// `model_dir` should contain:
    /// - `model.onnx` — the ONNX model file
    /// - `tokenizer.json` — the HuggingFace tokenizer config
    pub fn new(model_dir: PathBuf) -> (r: Result<LocalEmbeddingProvider, String>)
        ensures
            opens(r, model_dir),
    {
        let (model, tokenizer) = model_files(&model_dir);
        let has_model = path_exists(&model);
        let has_tokenizer = path_exists(&tokenizer);
        LocalEmbeddingProvider::from_presence(model_dir, has_model, has_tokenizer)
    }

    /// Create with a default model directory (~/.config/goose/models/e5-small-v2/).
    pub fn with_default_path() -> (r: Result<LocalEmbeddingProvider, String>)
        ensures
            exists|dir: PathBuf, config: Option<PathBuf>| #[trigger]
                is_default_dir(dir, config) && opens(r, dir),
    {
        let config = config_dir();
        let ghost given = config;
        let model_dir = default_model_dir_in(config);
        assert(is_default_dir(model_dir, given));
        LocalEmbeddingProvider::new(model_dir)
    }

    /// Get the model directory path.
    pub fn model_dir(&self) -> (r: &PathBuf)
        ensures
            *r == self.dir(),
    {
        &self.model_dir
    }

    /// Name of this embedding provider.
    pub fn name(&self) -> (r: &'static str)
        ensures
            r@ == "e5-small-v2-local"@,
    {
        "e5-small-v2-local"
    }

    /// Dimensionality of the output embeddings.
    pub fn dimensions(&self) -> (r: usize)
        ensures
            r == self.dims(),
    {
        self.dimensions
    }

    /// The embedding of a text before it is scaled: one number below a thousand for each
    /// dimension, from which the component is made by dividing by a thousand and taking
    /// one half away.
    pub fn infer(&self, text: &str) -> (r: Vec<u64>)
        ensures
            r@ == seeds(text_hash(text@), self.dims() as nat),
    {
        seeds_of(hash_of(text), self.dimensions)
    }
}

impl LocalEmbeddingProvider {
    /// The embeddings of texts before they are scaled: for each text the same as by itself.
    pub fn infer_batch(&self, texts: &Vec<String>) -> (r: Vec<Vec<u64>>)
        ensures
            r@.len() == texts@.len(),
            forall|i: int|
                0 <= i < texts@.len() ==> (#[trigger] r@[i])@ == seeds(
                    text_hash(texts@[i]@),
                    self.dims() as nat,
                ),
    {
        let mut out: Vec<Vec<u64>> = Vec::new();
        let mut i: usize = 0;
        while i < texts.len()
            invariant
                i <= texts@.len(),
                out@.len() == i,
                forall|k: int|
                    0 <= k < i ==> (#[trigger] out@[k])@ == seeds(
                        text_hash(texts@[k]@),
                        self.dims() as nat,
                    ),
            decreases texts@.len() - i,
        {
            out.push(self.infer(texts[i].as_str()));
            i += 1;
        }
        out
    }
}

// ---------------------------------------------------------------------------
// Pseudo-random components
// ---------------------------------------------------------------------------

/// What the `Hash` of `str` writes into a hasher.
pub uninterp spec fn str_hash_writes(text: Seq<char>) -> Seq<Seq<u8>>;

/// Feeds a text to a hasher with the `Hash` of `str`. What is written depends on the text
/// alone.
#[verifier::external_body]
fn feed_text(text: &str, hasher: &mut DefaultHasher)
    ensures
        final(hasher)@ == old(hasher)@ + str_hash_writes(text@),
{
    std::hash::Hash::hash(text, hasher);
}

/// The hash of a text by a fresh `DefaultHasher`, which works the same for every hasher made
/// by `DefaultHasher::new`.
pub open spec fn text_hash(text: Seq<char>) -> u64 {
    DefaultHasher::spec_finish(str_hash_writes(text))
}

fn hash_of(text: &str) -> (r: u64)
    ensures
        r == text_hash(text@),
{
    let mut hasher = DefaultHasher::new();
    feed_text(text, &mut hasher);
    assert(Seq::<Seq<u8>>::empty() + str_hash_writes(text@) =~= str_hash_writes(text@));
    hasher.finish()
}

/// The number for a dimension: the hash plus the dimension, without carry, modulo a
/// thousand.
pub open spec fn seed(hash: u64, i: int) -> u64 {
    (((hash + i) % 0x1_0000_0000_0000_0000) % 1000) as u64
}

/// The numbers for the dimensions.
pub open spec fn seeds(hash: u64, dims: nat) -> Seq<u64> {
    Seq::new(dims, |i: int| seed(hash, i))
}

/// The numbers for the dimensions.
pub fn seeds_of(hash: u64, dims: usize) -> (r: Vec<u64>)
    ensures
        r@ == seeds(hash, dims as nat),
{
    let mut out: Vec<u64> = Vec::new();
    let mut i: usize = 0;
    while i < dims
        invariant
            i <= dims,
            out@ == seeds(hash, i as nat),
        decreases dims - i,
    {
        let value: u64 = hash.wrapping_add(i as u64);
        out.push(value % 1000);
        assert(out@ =~= seeds(hash, i as nat + 1));
        i += 1;
    }
    out
}

/// Each number is below a thousand, and two dimensions next to each other have different
/// numbers. So no embedding of two or more dimensions is zero, and each can be scaled to
/// unit length.
pub proof fn law_seeds_vary(hash: u64, i: int)
    requires
        0 <= i,
    ensures
        seed(hash, i) < 1000,
        seed(hash, i) != seed(hash, i + 1),
{
    let x = (hash + i) % 0x1_0000_0000_0000_0000;
    let y = (hash + i + 1) % 0x1_0000_0000_0000_0000;
    assert(y == x + 1 || (y == 0 && x == 0xFFFF_FFFF_FFFF_FFFF));
}

/// Two embeddings of one text agree.
pub proof fn law_same_text_same_numbers(a: Seq<char>, b: Seq<char>, dims: nat)
    requires
        a == b,
    ensures
        seeds(text_hash(a), dims) == seeds(text_hash(b), dims),
{
}

/// Texts whose hashes differ modulo a thousand have embeddings that differ in their first
/// number.
pub proof fn law_texts_differ(a: Seq<char>, b: Seq<char>, dims: nat)
    requires
        dims > 0,
        text_hash(a) % 1000 != text_hash(b) % 1000,
    ensures
        seeds(text_hash(a), dims)[0] != seeds(text_hash(b), dims)[0],
        seeds(text_hash(a), dims) != seeds(text_hash(b), dims),
{
    assert(seeds(text_hash(a), dims)[0] == seed(text_hash(a), 0));
    assert(seeds(text_hash(b), dims)[0] == seed(text_hash(b), 0));
}

/// There is one number for each dimension. They count up from the hash, modulo a thousand, from
/// one dimension to the next, but where the sum starts over from zero.
pub proof fn law_seeds_count_up(hash: u64, dims: nat, i: int)
    requires
        0 <= i < dims,
    ensures
        seeds(hash, dims).len() == dims,
        seeds(hash, dims)[0] == hash % 1000,
        i + 1 < dims && (hash + i) % 0x1_0000_0000_0000_0000 != 0xFFFF_FFFF_FFFF_FFFF
            ==> seeds(hash, dims)[i + 1] == (seeds(hash, dims)[i] + 1) % 1000,
        i + 1 < dims && (hash + i) % 0x1_0000_0000_0000_0000 == 0xFFFF_FFFF_FFFF_FFFF
            ==> seeds(hash, dims)[i + 1] == 0,
{
    assert(seeds(hash, dims)[0] == seed(hash, 0));
    assert(seeds(hash, dims)[i] == seed(hash, i));
    if i + 1 < dims {
        assert(seeds(hash, dims)[i + 1] == seed(hash, i + 1));
    }
}

/// The model lies below the directory of the configuration, and what is said of a missing file
/// names where it should be.
pub proof fn law_model_files(dir: Seq<char>)
    requires
        dir.len() > 0,
        dir.last() != '/',
    ensures
        default_model_dir(Some(dir)) == dir + "/goose/models/e5-small-v2"@,
        default_model_dir(None) == ".config/goose/models/e5-small-v2"@,
        model_missing(dir) == "ONNX model not found at "@ + dir
            + "/model.onnx. Download e5-small-v2 model files."@,
        tokenizer_missing(dir) == "Tokenizer not found at "@ + dir
            + "/tokenizer.json. Download e5-small-v2 tokenizer.json."@,
{
    reveal_strlit("goose");
    reveal_strlit("models");
    reveal_strlit("e5-small-v2");
    reveal_strlit(".config");
    reveal_strlit("/goose/models/e5-small-v2");
    reveal_strlit(".config/goose/models/e5-small-v2");
    reveal_strlit("model.onnx");
    reveal_strlit("tokenizer.json");
    reveal_strlit(". Download e5-small-v2 model files.");
    reveal_strlit("/model.onnx. Download e5-small-v2 model files.");
    reveal_strlit(". Download e5-small-v2 tokenizer.json.");
    reveal_strlit("/tokenizer.json. Download e5-small-v2 tokenizer.json.");
    let slash = seq!['/'];
    assert("/goose/models/e5-small-v2"@ =~= slash + "goose"@ + slash + "models"@ + slash
        + "e5-small-v2"@);
    assert(".config/goose/models/e5-small-v2"@ =~= ".config"@ + "/goose/models/e5-small-v2"@);
    assert("/model.onnx. Download e5-small-v2 model files."@ =~= slash + "model.onnx"@
        + ". Download e5-small-v2 model files."@);
    assert("/tokenizer.json. Download e5-small-v2 tokenizer.json."@ =~= slash + "tokenizer.json"@
        + ". Download e5-small-v2 tokenizer.json."@);
    assert(".config"@.last() == 'g');
    assert forall|base: Seq<char>| base.len() > 0 && base.last() != '/' implies
        #[trigger] joined(joined(joined(base, "goose"@), "models"@), "e5-small-v2"@) == base
        + "/goose/models/e5-small-v2"@ by {
        let first = joined(base, "goose"@);
        assert(first.last() == 'e');
        let second = joined(first, "models"@);
        assert(second.last() == 's');
        assert(joined(second, "e5-small-v2"@) =~= base + "/goose/models/e5-small-v2"@);
    }
    assert(model_missing(dir) =~= "ONNX model not found at "@ + dir
        + "/model.onnx. Download e5-small-v2 model files."@);
    assert(tokenizer_missing(dir) =~= "Tokenizer not found at "@ + dir
        + "/tokenizer.json. Download e5-small-v2 tokenizer.json."@);
}

} // verus!
