//! The in-process model: which file it is, and how its token cache is used.

use crate::config;
use crate::config::{AxonConfig, AxonConfigView};
use crate::llm::BackendError;
use crate::session;
use crate::session::{Message, MessageView, Role};
use crate::text;
use vstd::prelude::*;

verus! {

/// Where a model comes from: a repository with a file in it, or a path with no file;
/// and its context window.
pub open spec fn model_source(c: AxonConfigView, name: Seq<char>) -> (Seq<char>, Seq<char>, usize) {
    match config::registered(c.models, name) {
        Some(m) => (m.hf_repo, m.hf_file, m.context_window),
        None => if name == "qwen3.5:2b"@ {
            ("unsloth/Qwen3.5-2B-GGUF"@, "Qwen3.5-2B-Q4_K_M.gguf"@, 32768)
        } else if name == "qwen3.5:4b-mlx"@ || name == "qwen3.5-4b"@ {
            ("unsloth/Qwen3.5-4B-GGUF"@, "Qwen3.5-4B-Q4_K_M.gguf"@, 32768)
        } else if name == "qwen3-4b-q4_k_m"@ || name == "qwen3:4b"@ || name == "qwen3-4b"@ {
            ("unsloth/Qwen3-4B-GGUF"@, "Qwen3-4B-Q4_K_M.gguf"@, 32768)
        } else if text::finishes_with(name, ".gguf"@) {
            (name, Seq::empty(), 2048)
        } else {
            (name, Seq::empty(), 4096)
        },
    }
}

/// Where the model `name` comes from. Models that the user registered come before the
/// built-in ones; any other name is the path of a model file.
pub fn resolve_model(config: &AxonConfig, name: &str) -> (r: (String, String, usize))
    ensures
        (r.0@, r.1@, r.2) == model_source(config@, name@),
{
    if let Some(entry) = config.find_model(name) {
        return (entry.hf_repo.clone(), entry.hf_file.clone(), entry.context_window);
    }
    if text::same(name, "qwen3.5:2b") {
        (
            "unsloth/Qwen3.5-2B-GGUF".to_string(),
            "Qwen3.5-2B-Q4_K_M.gguf".to_string(),
            32768,
        )
    } else if text::same(name, "qwen3.5:4b-mlx") || text::same(name, "qwen3.5-4b") {
        (
            "unsloth/Qwen3.5-4B-GGUF".to_string(),
            "Qwen3.5-4B-Q4_K_M.gguf".to_string(),
            32768,
        )
    } else if text::same(name, "qwen3-4b-q4_k_m") || text::same(name, "qwen3:4b") || text::same(
        name,
        "qwen3-4b",
    ) {
        ("unsloth/Qwen3-4B-GGUF".to_string(), "Qwen3-4B-Q4_K_M.gguf".to_string(), 32768)
    } else if text::ends_with(name, ".gguf") {
        (name.to_string(), String::new(), 2048)
    } else {
        (name.to_string(), String::new(), 4096)
    }
}

/// The context window of the model `name`.
pub fn resolve_cw(config: &AxonConfig, name: &str) -> (r: usize)
    ensures
        r == model_source(config@, name@).2,
{
    resolve_model(config, name).2
}

/// The names of the built-in models.
pub fn known_models() -> (r: Vec<&'static str>)
    ensures
        r@.map_values(|s: &str| s@) == seq!["qwen3.5:2b"@, "qwen3.5:4b-mlx"@, "qwen3:4b"@],
{
    let r = vec!["qwen3.5:2b", "qwen3.5:4b-mlx", "qwen3:4b"];
    assert(r@.map_values(|s: &str| s@) =~= seq!["qwen3.5:2b"@, "qwen3.5:4b-mlx"@, "qwen3:4b"@]);
    r
}

/// What must be fetched before the model `name` can be loaded: nothing for a path, and
/// nothing where downloads are off.
pub fn download_source(config: &AxonConfig, name: &str, no_download: bool) -> (r: Option<
    (String, String),
>)
    ensures
        ({
            let (repo, file, _) = model_source(config@, name@);
            match r {
                Some((a, b)) => file.len() > 0 && !no_download && a@ == repo && b@ == file,
                None => file.len() == 0 || no_download,
            }
        }),
{
    let (repo, file, _) = resolve_model(config, name);
    if file.as_str().is_empty() || no_download {
        None
    } else {
        Some((repo, file))
    }
}

/// Why a model file could not be had.
pub fn fetch_error(hf_repo: &str, hf_file: &str, no_download: bool) -> (r: BackendError)
    ensures
        r@ == if no_download {
            crate::llm::BackendErrorView::ModelNotCached
        } else {
            crate::llm::BackendErrorView::Unavailable(
                "failed to download "@ + hf_file@ + " from "@ + hf_repo@,
            )
        },
{
    if no_download {
        BackendError::ModelNotCached
    } else {
        let mut m = "failed to download ".to_string();
        m.append(hf_file);
        m.append(" from ");
        m.append(hf_repo);
        BackendError::Unavailable(m)
    }
}

/// The in-process model.
pub struct LocalBackend {
    pub name: String,
    pub hf_repo: String,
    pub hf_file: String,
    pub cw: usize,
    pub no_download: bool,
}

impl LocalBackend {
    pub fn new(config: &AxonConfig, model_name: &str, no_download: bool) -> (r: LocalBackend)
        ensures
            r.name@ == model_name@,
            (r.hf_repo@, r.hf_file@, r.cw) == model_source(config@, model_name@),
            r.no_download == no_download,
    {
        let (hf_repo, hf_file, cw) = resolve_model(config, model_name);
        LocalBackend { name: model_name.to_string(), hf_repo, hf_file, cw, no_download }
    }
}

/// The texts of the system messages.
pub open spec fn system_texts(ms: Seq<MessageView>) -> Seq<Seq<char>> {
    session::system_only(ms).map_values(|m: MessageView| m.content)
}

/// What the cached prefix is known by: the texts of the system messages, a line each.
pub open spec fn cache_key(ms: Seq<MessageView>) -> Seq<char> {
    text::joined(system_texts(ms), "\n"@)
}

/// The texts of the system messages.
pub fn system_contents(messages: &Vec<Message>) -> (r: Vec<String>)
    ensures
        text::views(r@) == system_texts(session::message_views(messages@)),
{
    let mut out: Vec<String> = Vec::new();
    let mut i: usize = 0;
    let ghost all = session::message_views(messages@);
    let ghost pick = |m: MessageView| m.content;
    proof {
        assert(all.take(0) =~= Seq::<MessageView>::empty());
        reveal_with_fuel(Seq::filter, 1);
        assert(text::views(out@) =~= system_texts(all.take(0)));
    }
    while i < messages.len()
        invariant
            i <= messages.len(),
            all == session::message_views(messages@),
            text::views(out@) == system_texts(all.take(i as int)),
        decreases messages.len() - i,
    {
        let ghost before = text::views(out@);
        proof {
            assert(all.take(i + 1).drop_last() =~= all.take(i as int));
            assert(all.take(i + 1).last() == messages[i as int]@);
            reveal_with_fuel(Seq::filter, 2);
        }
        if messages[i].role == Role::System {
            out.push(messages[i].content.clone());
            assert(text::views(out@) =~= before.push(messages[i as int].content@));
            assert(system_texts(all.take(i + 1)) =~= before.push(messages[i as int].content@));
        }
        i += 1;
    }
    assert(all.take(i as int) =~= all);
    out
}

/// What the cached prefix is known by.
pub fn system_key(messages: &Vec<Message>) -> (r: String)
    ensures
        r@ == cache_key(session::message_views(messages@)),
{
    text::join(&system_contents(messages), "\n")
}

/// The number of tokens of the system messages: none without system messages, and none where
/// they could not be counted by themselves.
pub fn prefix_tokens(messages: &Vec<Message>, counted: Option<usize>) -> (r: i32)
    requires
        counted matches Some(n) ==> n <= i32::MAX,
    ensures
        r == if session::system_only(session::message_views(messages@)).len() == 0 {
            0
        } else {
            match counted {
                Some(n) => n as int,
                None => 0,
            }
        },
{
    let texts = system_contents(messages);
    assert(texts.len() == text::views(texts@).len());
    if texts.len() == 0 {
        0
    } else {
        match counted {
            Some(n) => n as i32,
            None => 0,
        }
    }
}

/// The prefix whose tokens are in the model's cache.
pub struct PrefixCache {
    pub system_key: String,
    pub prefix_len: i32,
}

/// The number of tokens that are decoded in one batch.
pub const PREFILL_CHUNK: usize = 512;

/// The cache holds the prefix of this request.
pub open spec fn reusable(cache: Option<PrefixCache>, key: Seq<char>, prefix_len: i32) -> bool {
    match cache {
        Some(pc) => pc.system_key@ == key && pc.prefix_len == prefix_len && prefix_len > 0,
        None => false,
    }
}

/// Where decoding starts: behind the cached prefix, or at the first token.
pub open spec fn decode_from(cache: Option<PrefixCache>, key: Seq<char>, prefix_len: i32) -> int {
    if reusable(cache, key, prefix_len) {
        prefix_len as int
    } else {
        0
    }
}

/// Whether the cached prefix can be used again.
pub fn can_reuse(cache: &Option<PrefixCache>, key: &str, prefix_len: i32) -> (r: bool)
    ensures
        r == reusable(*cache, key@, prefix_len),
{
    match cache {
        Some(pc) => text::same(pc.system_key.as_str(), key) && pc.prefix_len == prefix_len
            && prefix_len > 0,
        None => false,
    }
}

/// A run of prompt tokens that is decoded at once, from `start` up to `end`.
#[derive(Clone, Copy, Debug, PartialEq, Eq, Structural)]
pub struct Chunk {
    pub start: usize,
    pub end: usize,
}

/// The chunks that cut the tokens from `start` up to `total` into batches.
pub open spec fn chunks_of(start: int, total: int) -> Seq<(int, int)>
    decreases total - start,
{
    if start >= total {
        Seq::empty()
    } else if start + PREFILL_CHUNK >= total {
        seq![(start, total)]
    } else {
        seq![(start, start + PREFILL_CHUNK)] + chunks_of(start + PREFILL_CHUNK, total)
    }
}

pub open spec fn chunk_bounds(v: Seq<Chunk>) -> Seq<(int, int)> {
    v.map_values(|c: Chunk| (c.start as int, c.end as int))
}

/// Where in its batch the last token stands; the model's next token is sampled there.
pub open spec fn last_in_batch(start: int, total: int) -> int {
    if start >= total {
        0
    } else {
        (total - start - 1) % (PREFILL_CHUNK as int)
    }
}

/// How a prompt is decoded.
pub struct Prefill {
    /// The cached tokens are kept up to here, and all of them dropped otherwise.
    pub keep: Option<i32>,
    pub chunks: Vec<Chunk>,
    /// Where in the last batch the next token is sampled.
    pub sample_at: i32,
}

/// Plans the decoding of a prompt of `total` tokens whose system part is `prefix_len`
/// tokens long.
pub fn plan_prefill(cache: &Option<PrefixCache>, key: &str, prefix_len: i32, total: usize) -> (r:
    Prefill)
    requires
        total <= i32::MAX,
        reusable(*cache, key@, prefix_len) ==> prefix_len <= total,
    ensures
        r.keep == if reusable(*cache, key@, prefix_len) {
            Some(prefix_len)
        } else {
            None
        },
        chunk_bounds(r.chunks@) == chunks_of(
            decode_from(*cache, key@, prefix_len),
            total as int,
        ),
        r.sample_at == last_in_batch(decode_from(*cache, key@, prefix_len), total as int),
{
    let reuse = can_reuse(cache, key, prefix_len);
    let start: usize = if reuse {
        prefix_len as usize
    } else {
        0
    };
    let mut chunks: Vec<Chunk> = Vec::new();
    let mut at: usize = start;
    assert(chunk_bounds(chunks@) + chunks_of(at as int, total as int) =~= chunks_of(
        start as int,
        total as int,
    ));
    while at < total
        invariant
            start <= at <= total <= i32::MAX,
            chunk_bounds(chunks@) + chunks_of(at as int, total as int) == chunks_of(
                start as int,
                total as int,
            ),
        decreases total - at,
    {
        let end: usize = if total - at > PREFILL_CHUNK {
            at + PREFILL_CHUNK
        } else {
            total
        };
        let ghost before = chunk_bounds(chunks@);
        chunks.push(Chunk { start: at, end });
        proof {
            let rest = chunks_of(end as int, total as int);
            assert(chunk_bounds(chunks@) =~= before.push((at as int, end as int)));
            assert(before + (seq![(at as int, end as int)] + rest) =~= chunk_bounds(chunks@)
                + rest);
            assert(seq![(at as int, end as int)] + rest =~= chunks_of(at as int, total as int));
        }
        at = end;
    }
    assert(chunk_bounds(chunks@) + Seq::<(int, int)>::empty() =~= chunk_bounds(chunks@));
    let sample_at: i32 = if start < total {
        ((total - start - 1) % PREFILL_CHUNK) as i32
    } else {
        0
    };
    Prefill {
        keep: if reuse {
            Some(prefix_len)
        } else {
            None
        },
        chunks,
        sample_at,
    }
}

/// Whether the token at `index` of a prompt of `total` tokens asks for a prediction.
pub fn wants_logits(index: usize, total: usize) -> (r: bool)
    requires
        index < total,
    ensures
        r == (index == total - 1),
{
    index == total - 1
}

/// The number that the low 32 bits of `n` stand for as a signed number.
pub open spec fn low_i32(n: int) -> int {
    let m = n % 0x1_0000_0000;
    if m >= 0x8000_0000 {
        m - 0x1_0000_0000
    } else {
        m
    }
}

/// How many tokens fit in the context window `cw`.
pub fn window_tokens(cw: usize) -> (r: i32)
    ensures
        r == low_i32(cw as int),
{
    let m: u64 = (cw as u64) % 0x1_0000_0000;
    if m >= 0x8000_0000 {
        (m as i64 - 0x1_0000_0000) as i32
    } else {
        m as i32
    }
}

/// What the generation of a reply does next.
#[derive(Clone, Copy, Debug, PartialEq, Eq, Structural)]
pub enum GenAction {
    /// Sample the next token at this place of the last batch.
    Sample { at: i32 },
    /// Decode the sampled token at this position.
    Decode { at: i32 },
    /// The reply is complete.
    Stop,
}

/// The generation of a reply token by token.
#[derive(Clone, Copy, Debug, PartialEq, Eq, Structural)]
pub struct Generation {
    /// The position of the next token.
    pub position: i32,
    /// Where in the last batch the next token is sampled.
    pub sample_at: i32,
    /// The number of tokens that fit in the window.
    pub window: i32,
}

impl Generation {
    pub fn new(prompt_len: i32, sample_at: i32, cw: usize) -> (r: Generation)
        ensures
            r.position == prompt_len,
            r.sample_at == sample_at,
            r.window == low_i32(cw as int),
    {
        Generation { position: prompt_len, sample_at, window: window_tokens(cw) }
    }

    /// Generation goes on while the window has room and nobody cancelled.
    pub fn next(&self, cancelled: bool) -> (r: GenAction)
        ensures
            r == if self.position >= self.window || cancelled {
                GenAction::Stop
            } else {
                GenAction::Sample { at: self.sample_at }
            },
    {
        if self.position >= self.window || cancelled {
            GenAction::Stop
        } else {
            GenAction::Sample { at: self.sample_at }
        }
    }

    /// A token was sampled: it ends the reply, or its text could not be delivered, or it
    /// is decoded at the next position.
    pub fn sampled(&mut self, end_of_generation: bool, delivered: bool) -> (r: GenAction)
        requires
            old(self).position < old(self).window,
        ensures
            end_of_generation || !delivered ==> r == GenAction::Stop && *final(self) == *old(self),
            !end_of_generation && delivered ==> r == (GenAction::Decode { at: old(self).position })
                && *final(self) == (Generation {
                position: (old(self).position + 1) as i32,
                sample_at: 0,
                window: old(self).window,
            }),
    {
        if end_of_generation || !delivered {
            return GenAction::Stop;
        }
        let at = self.position;
        self.position = at + 1;
        self.sample_at = 0;
        GenAction::Decode { at }
    }
}

/// A request to the model: what its prefix is known by, how its prompt is decoded and
/// how its reply is generated.
pub struct Inference {
    pub key: String,
    pub prefill: Prefill,
    pub generation: Generation,
}

/// Plans a request whose prompt is `total` tokens long, `prefix_len` of them for the
/// system messages. There is nothing to do for an empty prompt.
pub fn begin(
    cache: &Option<PrefixCache>,
    messages: &Vec<Message>,
    prefix_len: i32,
    total: usize,
    cw: usize,
) -> (r: Option<Inference>)
    requires
        total <= i32::MAX,
        reusable(*cache, cache_key(session::message_views(messages@)), prefix_len) ==> prefix_len
            <= total,
    ensures
        r is None <==> total == 0,
        r matches Some(i) ==> {
            let key = cache_key(session::message_views(messages@));
            let from = decode_from(*cache, key, prefix_len);
            &&& i.key@ == key
            &&& i.prefill.keep == if reusable(*cache, key, prefix_len) {
                Some(prefix_len)
            } else {
                None
            }
            &&& chunk_bounds(i.prefill.chunks@) == chunks_of(from, total as int)
            &&& i.generation.position == total
            &&& i.generation.sample_at == last_in_batch(from, total as int)
            &&& i.generation.window == low_i32(cw as int)
        },
{
    if total == 0 {
        return None;
    }
    let key = system_key(messages);
    let prefill = plan_prefill(cache, key.as_str(), prefix_len, total);
    let generation = Generation::new(total as i32, prefill.sample_at, cw);
    Some(Inference { key, prefill, generation })
}

/// What is kept in the cache once a reply is complete: the prefix, if there is one.
pub fn keep_prefix(key: String, prefix_len: i32) -> (r: Option<PrefixCache>)
    ensures
        match r {
            Some(pc) => prefix_len > 0 && pc.system_key@ == key@ && pc.prefix_len == prefix_len,
            None => prefix_len <= 0,
        },
{
    if prefix_len > 0 {
        Some(PrefixCache { system_key: key, prefix_len })
    } else {
        None
    }
}

/// The chunks follow one another without gap from the first token to decode to the
/// last of the prompt; none is empty or longer than a batch.
pub proof fn law_chunks_cover_the_prompt(start: int, total: int)
    requires
        start <= total,
    ensures
        ({
            let cs = chunks_of(start, total);
            &&& start < total ==> cs.len() > 0 && cs[0].0 == start && cs.last().1 == total
            &&& start == total ==> cs.len() == 0
            &&& forall|i: int|
                0 <= i < cs.len() ==> 0 < (#[trigger] cs[i]).1 - cs[i].0 <= PREFILL_CHUNK
            &&& forall|i: int| 0 < i < cs.len() ==> (#[trigger] cs[i]).0 == cs[i - 1].1
        }),
    decreases total - start,
{
    if start + PREFILL_CHUNK < total {
        let rest = chunks_of(start + PREFILL_CHUNK, total);
        law_chunks_cover_the_prompt(start + PREFILL_CHUNK, total);
        let cs = chunks_of(start, total);
        assert(cs.last() == rest.last());
        assert forall|i: int| 0 <= i < cs.len() implies 0 < (#[trigger] cs[i]).1 - cs[i].0
            <= PREFILL_CHUNK by {
            if i > 0 {
                assert(cs[i] == rest[i - 1]);
            }
        }
        assert forall|i: int| 0 < i < cs.len() implies (#[trigger] cs[i]).0 == cs[i - 1].1 by {
            assert(cs[i] == rest[i - 1]);
            if i > 1 {
                assert(cs[i - 1] == rest[i - 2]);
            }
        }
    }
}

/// The place where the next token is sampled is that of the prompt's last token in the
/// last chunk.
pub proof fn law_sampling_is_at_the_last_token(start: int, total: int)
    requires
        start < total,
    ensures
        chunks_of(start, total).last().0 + last_in_batch(start, total) == total - 1,
    decreases total - start,
{
    if start + PREFILL_CHUNK < total {
        law_sampling_is_at_the_last_token(start + PREFILL_CHUNK, total);
        law_chunks_cover_the_prompt(start + PREFILL_CHUNK, total);
        let rest = chunks_of(start + PREFILL_CHUNK, total);
        assert(chunks_of(start, total).last() == rest.last());
        let n = total - start - 1;
        assert(n % 512 == (n - 512) % 512) by (nonlinear_arith);
    } else {
        let n = total - start - 1;
        assert(n % 512 == n) by (nonlinear_arith)
            requires
                0 <= n < 512,
        ;
    }
}

/// A request with the same system part and the same prefix length as the one before
/// finds the prefix in the cache.
pub proof fn law_prefix_is_found_again(cache: Option<PrefixCache>, key: Seq<char>, prefix_len: i32)
    requires
        cache matches Some(pc) ==> pc.system_key@ == key && pc.prefix_len == prefix_len,
        cache is Some <==> prefix_len > 0,
    ensures
        reusable(cache, key, prefix_len) == (prefix_len > 0),
{
}

/// A model that the user registered comes from where the entry says, even where it has the name
/// of a built-in one; the first entry of a name counts.
pub proof fn law_registered_models_come_first(c: AxonConfigView, i: int)
    requires
        0 <= i < c.models.len(),
        forall|j: int| 0 <= j < i ==> (#[trigger] c.models[j]).name != c.models[i].name,
    ensures
        model_source(c, c.models[i].name) == (
            c.models[i].hf_repo,
            c.models[i].hf_file,
            c.models[i].context_window,
        ),
{
    config::law_first_of_a_name(c.models, i, c.models[i].name);
}

/// The model of a path is the path itself, and there is nothing to fetch for it.
pub proof fn law_paths_are_models(c: AxonConfigView, dir: Seq<char>)
    requires
        forall|j: int| 0 <= j < c.models.len() ==> (#[trigger] c.models[j]).name != dir + ".gguf"@,
    ensures
        model_source(c, dir + ".gguf"@) == (dir + ".gguf"@, Seq::<char>::empty(), 2048usize),
{
    let name = dir + ".gguf"@;
    config::law_first_of_a_name(c.models, 0, name);
    reveal_strlit(".gguf");
    reveal_strlit("qwen3.5:2b");
    reveal_strlit("qwen3.5:4b-mlx");
    reveal_strlit("qwen3.5-4b");
    reveal_strlit("qwen3-4b-q4_k_m");
    reveal_strlit("qwen3:4b");
    reveal_strlit("qwen3-4b");
    assert(name.last() == 'f');
    assert("qwen3.5:2b"@.last() == 'b' && "qwen3.5:4b-mlx"@.last() == 'x');
    assert("qwen3.5-4b"@.last() == 'b' && "qwen3-4b-q4_k_m"@.last() == 'm');
    assert("qwen3:4b"@.last() == 'b' && "qwen3-4b"@.last() == 'b');
    assert(name.subrange(name.len() - 5, name.len() as int) =~= ".gguf"@);
}

/// Nothing is taken out of the cache that was put there for another system part or for another
/// prefix: decoding starts at the first token then, and at the end of the prefix otherwise.
pub proof fn law_only_the_same_prefix_is_reused(
    cache: Option<PrefixCache>,
    key: Seq<char>,
    prefix_len: i32,
)
    ensures
        cache is None ==> decode_from(cache, key, prefix_len) == 0,
        cache matches Some(pc) ==> (pc.system_key@ != key ==> decode_from(cache, key, prefix_len)
            == 0),
        cache matches Some(pc) ==> (pc.prefix_len != prefix_len ==> decode_from(
            cache,
            key,
            prefix_len,
        ) == 0),
        cache matches Some(pc) ==> (pc.system_key@ == key && pc.prefix_len == prefix_len
            && prefix_len > 0 ==> decode_from(cache, key, prefix_len) == prefix_len),
{
}

/// What a prefix is known by holds what the system said and nothing of the conversation.
pub proof fn law_cache_key(system: MessageView, ms: Seq<MessageView>, i: int)
    requires
        system.role == Role::System,
        forall|j: int| 0 <= j < ms.len() ==> (#[trigger] ms[j]).role != Role::System,
    ensures
        cache_key(seq![system] + ms) == system.content,
        cache_key(ms).len() == 0,
        0 <= i < ms.len() ==> cache_key(seq![system] + ms) == cache_key(
            (seq![system] + ms).take(i + 1),
        ),
    decreases ms.len(),
{
    let pred = |m: MessageView| m.role == Role::System;
    lemma_no_system(ms);
    let all = seq![system] + ms;
    lemma_one_system(system, ms);
    if 0 <= i < ms.len() {
        let few = ms.take(i);
        assert(all.take(i + 1) =~= seq![system] + few);
        assert forall|j: int| 0 <= j < few.len() implies (#[trigger] few[j]).role
            != Role::System by {
            assert(few[j] == ms[j]);
        }
        lemma_one_system(system, few);
    }
}

proof fn lemma_no_system(ms: Seq<MessageView>)
    requires
        forall|j: int| 0 <= j < ms.len() ==> (#[trigger] ms[j]).role != Role::System,
    ensures
        system_texts(ms).len() == 0,
    decreases ms.len(),
{
    reveal_with_fuel(Seq::filter, 2);
    if ms.len() > 0 {
        assert forall|j: int| 0 <= j < ms.drop_last().len() implies (#[trigger] ms.drop_last()[j]).role
            != Role::System by {
            assert(ms.drop_last()[j] == ms[j]);
        }
        assert(ms[ms.len() - 1].role != Role::System);
        lemma_no_system(ms.drop_last());
    }
}

proof fn lemma_one_system(system: MessageView, ms: Seq<MessageView>)
    requires
        system.role == Role::System,
        forall|j: int| 0 <= j < ms.len() ==> (#[trigger] ms[j]).role != Role::System,
    ensures
        system_texts(seq![system] + ms) == seq![system.content],
    decreases ms.len(),
{
    reveal_with_fuel(Seq::filter, 2);
    let all = seq![system] + ms;
    if ms.len() == 0 {
        assert(all.drop_last() =~= Seq::<MessageView>::empty());
        assert(session::system_only(all) =~= seq![system]);
        assert(system_texts(all) =~= seq![system.content]);
    } else {
        assert(all.drop_last() =~= seq![system] + ms.drop_last());
        assert(all.last() == ms[ms.len() - 1]);
        assert forall|j: int| 0 <= j < ms.drop_last().len() implies (#[trigger] ms.drop_last()[j]).role
            != Role::System by {
            assert(ms.drop_last()[j] == ms[j]);
        }
        lemma_one_system(system, ms.drop_last());
    }
}

/// A window that fits is taken as it is, and one that does not keeps its low bits.
pub proof fn law_window_that_fits(n: int)
    ensures
        0 <= n < 0x8000_0000 ==> low_i32(n) == n,
        low_i32(n + 0x1_0000_0000) == low_i32(n),
        -0x8000_0000 <= low_i32(n) < 0x8000_0000,
{
}

/// What the system said is in the key in order, a line each, and a word of the user or the
/// assistant does not change the key.
pub proof fn law_key_is_what_the_system_said(ms: Seq<MessageView>, m: MessageView)
    ensures
        m.role != Role::System ==> cache_key(ms.push(m)) == cache_key(ms),
        m.role == Role::System && system_texts(ms).len() > 0 ==> cache_key(ms.push(m)) == cache_key(
            ms,
        ) + "\n"@ + m.content,
        m.role == Role::System && system_texts(ms).len() == 0 ==> cache_key(ms.push(m))
            == m.content,
{
    reveal_with_fuel(Seq::filter, 2);
    let all = ms.push(m);
    assert(all.drop_last() =~= ms);
    if m.role == Role::System {
        assert(system_texts(all) =~= system_texts(ms).push(m.content));
        assert(system_texts(all).drop_last() =~= system_texts(ms));
    }
}

} // verus!
