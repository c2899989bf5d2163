//! The 0G model catalog and the host's scoring policy. Laya and Jev pick one model id from a
//! snapshot; the host turns the caller's objective into a provider strategy, and the 0G Router
//! then chooses the provider.

use crate::json::{Json, JsonView};
use crate::proto::{Model, OfferView, ReasoningLevel};
use crate::text::{
    clone_strings, decimal, has_part, join, joined, lower, occurs_at, opt, str_contains, str_eq,
    to_ascii_lowercase, to_decimal, trim, trim_end_char, trimmed, views, without_trailing,
};
use vstd::prelude::*;
use vstd::string::*;

verus! {

/// Where the 0G Router is, unless the environment says otherwise.
pub const DEFAULT_BASE: &'static str = "https://router-api.0g.ai/v1";

/// How long a fetched catalog counts as fresh.
pub const CACHE_TTL_SECS: u64 = 60;

#[derive(Debug, Clone, Copy, PartialEq, Eq, Structural)]
pub enum Objective {
    Quality,
    Cost,
    Speed,
}

#[derive(Debug, Clone, Copy, PartialEq, Eq, Structural)]
pub enum TrustMode {
    Standard,
    Verified,
    Private,
}

/// One model of the catalog. The prices are the decimal texts of doubles.
#[derive(Debug, PartialEq)]
pub struct OgModel {
    pub id: String,
    pub name: String,
    pub context_length: u64,
    pub provider_count: u32,
    pub capabilities: Vec<String>,
    pub verifiability: String,
    pub prompt_price: String,
    pub completion_price: String,
}

/// The mathematical value of an [`OgModel`].
pub struct OgView {
    pub id: Seq<char>,
    pub name: Seq<char>,
    pub context_length: u64,
    pub provider_count: u32,
    pub capabilities: Seq<Seq<char>>,
    pub verifiability: Seq<char>,
    pub prompt_price: Seq<char>,
    pub completion_price: Seq<char>,
}

impl View for OgModel {
    type V = OgView;

    open spec fn view(&self) -> OgView {
        OgView {
            id: self.id@,
            name: self.name@,
            context_length: self.context_length,
            provider_count: self.provider_count,
            capabilities: views(self.capabilities@),
            verifiability: self.verifiability@,
            prompt_price: self.prompt_price@,
            completion_price: self.completion_price@,
        }
    }
}

/// The values of a list of models.
pub open spec fn og_views(models: Seq<OgModel>) -> Seq<OgView> {
    models.map_values(|m: OgModel| m@)
}

/// A copy of a model.
pub fn clone_model(m: &OgModel) -> (r: OgModel)
    ensures
        r@ == m@,
{
    OgModel {
        id: m.id.clone(),
        name: m.name.clone(),
        context_length: m.context_length,
        provider_count: m.provider_count,
        capabilities: clone_strings(&m.capabilities),
        verifiability: m.verifiability.clone(),
        prompt_price: m.prompt_price.clone(),
        completion_price: m.completion_price.clone(),
    }
}

/// A copy of a list of models.
pub fn clone_models(models: &Vec<OgModel>) -> (r: Vec<OgModel>)
    ensures
        og_views(r@) == og_views(models@),
{
    let mut out: Vec<OgModel> = Vec::new();
    let mut i: usize = 0;
    while i < models.len()
        invariant
            i <= models@.len(),
            out@.len() == i,
            forall|k: int| 0 <= k < i ==> (#[trigger] out@[k])@ == models@[k]@,
        decreases models@.len() - i,
    {
        out.push(clone_model(&models[i]));
        i = i + 1;
    }
    assert(og_views(out@) =~= og_views(models@));
    out
}

/// The router's address: the environment's, unless that is blank, without trailing slashes.
pub open spec fn router_address(env: Option<Seq<char>>) -> Seq<char> {
    let chosen = match env {
        Some(value) => if trimmed(value).len() > 0 {
            value
        } else {
            DEFAULT_BASE@
        },
        None => DEFAULT_BASE@,
    };
    without_trailing(chosen, '/')
}

/// The router's address; `env` is the value of `OG_BASE_URL`.
pub fn base_url(env: &Option<String>) -> (r: String)
    ensures
        r@ == router_address(opt(*env)),
{
    match env {
        Some(value) => {
            if trim(value.as_str()).as_str().is_empty() {
                trim_end_char(DEFAULT_BASE, '/')
            } else {
                trim_end_char(value.as_str(), '/')
            }
        },
        None => trim_end_char(DEFAULT_BASE, '/'),
    }
}

/// The address of the catalog.
pub fn models_url(base: &str) -> (r: String)
    ensures
        r@ == base@ + "/models"@,
{
    let mut url = base.to_owned();
    url.append("/models");
    url
}

/// The objective that a value of the environment stands for.
pub open spec fn env_objective(env: Option<Seq<char>>) -> Objective {
    match env {
        Some(value) => if trimmed(value) == "cost"@ {
            Objective::Cost
        } else if trimmed(value) == "speed"@ {
            Objective::Speed
        } else {
            Objective::Quality
        },
        None => Objective::Quality,
    }
}

/// The objective by the environment; `env` is the value of `KEEL_OG_OBJECTIVE`.
pub fn objective_from_env(env: &Option<String>) -> (r: Objective)
    ensures
        r == env_objective(opt(*env)),
{
    match env {
        Some(value) => {
            let value = trim(value.as_str());
            if str_eq(value.as_str(), "cost") {
                Objective::Cost
            } else if str_eq(value.as_str(), "speed") {
                Objective::Speed
            } else {
                Objective::Quality
            }
        },
        None => Objective::Quality,
    }
}

/// The trust mode that a value of the environment stands for.
pub open spec fn env_trust(env: Option<Seq<char>>) -> TrustMode {
    match env {
        Some(value) => if trimmed(value) == "private"@ {
            TrustMode::Private
        } else if trimmed(value) == "verified"@ {
            TrustMode::Verified
        } else {
            TrustMode::Standard
        },
        None => TrustMode::Standard,
    }
}

/// The trust mode by the environment; `env` is the value of `KEEL_OG_TRUST`.
pub fn trust_from_env(env: &Option<String>) -> (r: TrustMode)
    ensures
        r == env_trust(opt(*env)),
{
    match env {
        Some(value) => {
            let value = trim(value.as_str());
            if str_eq(value.as_str(), "private") {
                TrustMode::Private
            } else if str_eq(value.as_str(), "verified") {
                TrustMode::Verified
            } else {
                TrustMode::Standard
            }
        },
        None => TrustMode::Standard,
    }
}

/// The router's sort for an objective.
pub open spec fn strategy(objective: Objective) -> Seq<char> {
    match objective {
        Objective::Cost => "price"@,
        Objective::Speed => "latency"@,
        Objective::Quality => "default"@,
    }
}

/// The router's sort for an objective.
pub fn provider_strategy(objective: Objective) -> (r: &'static str)
    ensures
        r@ == strategy(objective),
{
    match objective {
        Objective::Cost => "price",
        Objective::Speed => "latency",
        Objective::Quality => "default",
    }
}

/// Whether answers must carry a TEE attestation.
pub fn verify_tee(trust: TrustMode) -> (r: bool)
    ensures
        r == (trust != TrustMode::Standard),
{
    match trust {
        TrustMode::Standard => false,
        _ => true,
    }
}

/// The name of a trust mode.
pub open spec fn trust_name(trust: TrustMode) -> Seq<char> {
    match trust {
        TrustMode::Private => "private"@,
        TrustMode::Verified => "verified"@,
        TrustMode::Standard => "standard"@,
    }
}

/// The name of a trust mode, as the router's header takes it.
pub fn trust_header(trust: TrustMode) -> (r: String)
    ensures
        r@ == trust_name(trust),
{
    match trust {
        TrustMode::Private => "private".to_owned(),
        TrustMode::Verified => "verified".to_owned(),
        TrustMode::Standard => "standard".to_owned(),
    }
}

/// The models that stand in where no catalog can be had.
pub open spec fn fallback_catalog() -> Seq<OgView> {
    seq![
        OgView {
            id: "glm-5.2"@,
            name: "GLM-5.2"@,
            context_length: 1_048_576,
            provider_count: 3,
            capabilities: seq!["reasoning"@, "tools"@, "json"@],
            verifiability: "TeeML"@,
            prompt_price: "0.00000483"@,
            completion_price: "0.00001612"@,
        },
        OgView {
            id: "qwen-32b"@,
            name: "Qwen 32B"@,
            context_length: 131_072,
            provider_count: 4,
            capabilities: seq!["code"@, "tools"@, "json"@],
            verifiability: "TeeTLS"@,
            prompt_price: "0.0000024"@,
            completion_price: "0.0000072"@,
        },
        OgView {
            id: "deepseek-16b"@,
            name: "DeepSeek 16B"@,
            context_length: 65_536,
            provider_count: 5,
            capabilities: seq!["code"@, "json"@],
            verifiability: "standard"@,
            prompt_price: "0.0000011"@,
            completion_price: "0.0000033"@,
        },
    ]
}

/// The models that stand in where no catalog can be had.
pub fn fallback_models() -> (r: Vec<OgModel>)
    ensures
        og_views(r@) == fallback_catalog(),
{
    let glm = OgModel {
        id: "glm-5.2".to_owned(),
        name: "GLM-5.2".to_owned(),
        context_length: 1_048_576,
        provider_count: 3,
        capabilities: vec!["reasoning".to_owned(), "tools".to_owned(), "json".to_owned()],
        verifiability: "TeeML".to_owned(),
        prompt_price: "0.00000483".to_owned(),
        completion_price: "0.00001612".to_owned(),
    };
    let qwen = OgModel {
        id: "qwen-32b".to_owned(),
        name: "Qwen 32B".to_owned(),
        context_length: 131_072,
        provider_count: 4,
        capabilities: vec!["code".to_owned(), "tools".to_owned(), "json".to_owned()],
        verifiability: "TeeTLS".to_owned(),
        prompt_price: "0.0000024".to_owned(),
        completion_price: "0.0000072".to_owned(),
    };
    let deepseek = OgModel {
        id: "deepseek-16b".to_owned(),
        name: "DeepSeek 16B".to_owned(),
        context_length: 65_536,
        provider_count: 5,
        capabilities: vec!["code".to_owned(), "json".to_owned()],
        verifiability: "standard".to_owned(),
        prompt_price: "0.0000011".to_owned(),
        completion_price: "0.0000033".to_owned(),
    };
    assert(glm@.capabilities =~= seq!["reasoning"@, "tools"@, "json"@]);
    assert(qwen@.capabilities =~= seq!["code"@, "tools"@, "json"@]);
    assert(deepseek@.capabilities =~= seq!["code"@, "json"@]);
    let r = vec![glm, qwen, deepseek];
    assert(og_views(r@) =~= fallback_catalog());
    r
}

/// A model's tier satisfies the trust mode.
pub open spec fn allows(m: OgView, trust: TrustMode) -> bool {
    let tier = lower(m.verifiability);
    match trust {
        TrustMode::Private => tier == "teeml"@ || tier == "private"@,
        TrustMode::Verified => tier != "standard"@,
        TrustMode::Standard => true,
    }
}

/// Whether a model's tier satisfies the trust mode.
pub fn trust_allows(model: &OgModel, trust: TrustMode) -> (r: bool)
    ensures
        r == allows(model@, trust),
{
    let tier = to_ascii_lowercase(model.verifiability.as_str());
    match trust {
        TrustMode::Private => str_eq(tier.as_str(), "teeml") || str_eq(tier.as_str(), "private"),
        TrustMode::Verified => !str_eq(tier.as_str(), "standard"),
        TrustMode::Standard => true,
    }
}

/// The models to choose from: those whose tier satisfies the trust mode, or all of them where
/// none does.
pub open spec fn eligible_views(models: Seq<OgView>, trust: TrustMode) -> Seq<OgView> {
    let kept = models.filter(|m: OgView| allows(m, trust));
    if kept.len() == 0 {
        models
    } else {
        kept
    }
}

proof fn lemma_filter_take<A>(s: Seq<A>, p: spec_fn(A) -> bool, i: int)
    requires
        0 <= i < s.len(),
    ensures
        s.take(i + 1).filter(p) == if p(s[i]) {
            s.take(i).filter(p).push(s[i])
        } else {
            s.take(i).filter(p)
        },
{
    reveal(Seq::filter);
    assert(s.take(i + 1).drop_last() =~= s.take(i));
}

/// The models to choose from: those whose tier satisfies the trust mode, or all of them where
/// none does.
pub fn eligible(models: &Vec<OgModel>, trust: TrustMode) -> (r: Vec<OgModel>)
    ensures
        og_views(r@) == eligible_views(og_views(models@), trust),
{
    let mut kept: Vec<OgModel> = Vec::new();
    let ghost all = og_views(models@);
    let ghost p = |m: OgView| allows(m, trust);
    let mut i: usize = 0;
    proof {
        reveal(Seq::filter);
        assert(all.take(0).filter(p) =~= Seq::<OgView>::empty());
        assert(og_views(kept@) =~= Seq::<OgView>::empty());
    }
    while i < models.len()
        invariant
            i <= models@.len(),
            all == og_views(models@),
            p == (|m: OgView| allows(m, trust)),
            og_views(kept@) == all.take(i as int).filter(p),
        decreases models@.len() - i,
    {
        let ghost told = og_views(kept@);
        proof {
            lemma_filter_take(all, p, i as int);
        }
        if trust_allows(&models[i], trust) {
            kept.push(clone_model(&models[i]));
            assert(og_views(kept@) =~= told.push(all[i as int]));
        }
        i = i + 1;
    }
    assert(all.take(i as int) =~= all);
    assert(all.filter(p).len() == kept@.len());
    if kept.len() == 0 {
        clone_models(models)
    } else {
        kept
    }
}

/// One of the needles stands in the text.
pub open spec fn has_any(value: Seq<char>, needles: Seq<Seq<char>>) -> bool {
    exists|i: int| 0 <= i < needles.len() && has_part(value, #[trigger] needles[i])
}

/// The characters of each needle.
pub open spec fn needle_views(needles: Seq<&str>) -> Seq<Seq<char>> {
    needles.map_values(|s: &str| s@)
}

/// Whether one of the needles stands in the text.
pub fn contains_any(value: &str, needles: &[&str]) -> (r: bool)
    ensures
        r == has_any(value@, needle_views(needles@)),
{
    let ghost all = needle_views(needles@);
    let mut i: usize = 0;
    while i < needles.len()
        invariant
            i <= needles@.len(),
            all == needle_views(needles@),
            forall|j: int| 0 <= j < i ==> !has_part(value@, #[trigger] all[j]),
        decreases needles@.len() - i,
    {
        let found = str_contains(value, needles[i]);
        assert(all[i as int] == needles@[i as int]@);
        if found {
            return true;
        }
        i = i + 1;
    }
    false
}

/// The words that mark a task about code or its security.
pub open spec fn code_words() -> Seq<Seq<char>> {
    seq![
        "contract"@,
        "solidity"@,
        "code"@,
        "bug"@,
        "漏洞"@,
        "代码"@,
        "合约"@,
        "审计"@,
    ]
}

/// The words that mark an extraction task.
pub open spec fn extraction_words() -> Seq<Seq<char>> {
    seq!["extract"@, "json"@, "字段"@, "提取"@, "结构化"@]
}

/// The words that mark a summary.
pub open spec fn summary_words() -> Seq<Seq<char>> {
    seq!["summar"@, "摘要"@, "总结"@, "归纳"@]
}

/// The words that mark a task for agents and tools.
pub open spec fn agent_words() -> Seq<Seq<char>> {
    seq!["agent"@, "tool"@, "function"@, "工具"@, "智能体"@]
}

/// The kind of task that a prompt asks for: the first kind one of whose words stands in it.
pub open spec fn task_of(prompt: Seq<char>) -> Seq<char> {
    let value = lower(prompt);
    if has_any(value, code_words()) {
        "code-security"@
    } else if has_any(value, extraction_words()) {
        "extraction"@
    } else if has_any(value, summary_words()) {
        "summarization"@
    } else if has_any(value, agent_words()) {
        "agent-tools"@
    } else {
        "general-reasoning"@
    }
}

/// The kind of task that a prompt asks for.
pub fn infer_task(prompt: &str) -> (r: &'static str)
    ensures
        r@ == task_of(prompt@),
{
    let value = to_ascii_lowercase(prompt);
    let code = vec![
        "contract",
        "solidity",
        "code",
        "bug",
        "漏洞",
        "代码",
        "合约",
        "审计",
    ];
    let extraction = vec!["extract", "json", "字段", "提取", "结构化"];
    let summary = vec!["summar", "摘要", "总结", "归纳"];
    let agent = vec!["agent", "tool", "function", "工具", "智能体"];
    assert(needle_views(code@) =~= code_words());
    assert(needle_views(extraction@) =~= extraction_words());
    assert(needle_views(summary@) =~= summary_words());
    assert(needle_views(agent@) =~= agent_words());
    if contains_any(value.as_str(), code.as_slice()) {
        "code-security"
    } else if contains_any(value.as_str(), extraction.as_slice()) {
        "extraction"
    } else if contains_any(value.as_str(), summary.as_slice()) {
        "summarization"
    } else if contains_any(value.as_str(), agent.as_slice()) {
        "agent-tools"
    } else {
        "general-reasoning"
    }
}

/// The text by which a model is matched with a task.
pub open spec fn profile(m: OgView) -> Seq<char> {
    lower(m.id + " "@ + m.name + " "@ + joined(m.capabilities, " "@))
}

/// What a model gains by fitting the task.
pub open spec fn task_bonus(m: OgView, task: Seq<char>) -> int {
    if task == "code-security"@ {
        if has_any(profile(m), seq!["code"@, "reason"@, "deepseek"@, "qwen"@, "glm"@]) {
            25
        } else {
            0
        }
    } else if task == "extraction"@ {
        if has_any(profile(m), seq!["json"@, "structured"@, "qwen"@, "glm"@]) {
            20
        } else {
            0
        }
    } else if task == "agent-tools"@ {
        if has_part(profile(m), "tool"@) {
            25
        } else {
            0
        }
    } else {
        0
    }
}

/// What a model loses by its tier under a trust mode.
pub open spec fn trust_penalty(m: OgView, trust: TrustMode) -> int {
    let tier = lower(m.verifiability);
    if trust == TrustMode::Private && tier != "teeml"@ {
        100
    } else if trust == TrustMode::Verified && tier == "standard"@ {
        60
    } else {
        0
    }
}

/// What a model gains by fitting the task: the points above the base of 50.
pub fn bonus(model: &OgModel, task: &str) -> (r: i64)
    ensures
        r == task_bonus(model@, task@),
        0 <= r <= 25,
{
    let mut text = model.id.clone();
    text.append(" ");
    text.append(model.name.as_str());
    text.append(" ");
    text.append(join(&model.capabilities, " ").as_str());
    let text = to_ascii_lowercase(text.as_str());
    proof {
        reveal_strlit("code-security");
        reveal_strlit("extraction");
        reveal_strlit("agent-tools");
        assert("code-security"@.len() == 13 && "extraction"@.len() == 10 && "agent-tools"@.len()
            == 11);
    }
    if str_eq(task, "code-security") {
        let words = vec!["code", "reason", "deepseek", "qwen", "glm"];
        assert(needle_views(words@) =~= seq!["code"@, "reason"@, "deepseek"@, "qwen"@, "glm"@]);
        if contains_any(text.as_str(), words.as_slice()) {
            return 25;
        }
    } else if str_eq(task, "extraction") {
        let words = vec!["json", "structured", "qwen", "glm"];
        assert(needle_views(words@) =~= seq!["json"@, "structured"@, "qwen"@, "glm"@]);
        if contains_any(text.as_str(), words.as_slice()) {
            return 20;
        }
    } else if str_eq(task, "agent-tools") && str_contains(text.as_str(), "tool") {
        return 25;
    }
    0
}

/// What a model loses by its tier under a trust mode.
pub fn penalty(model: &OgModel, trust: TrustMode) -> (r: i64)
    ensures
        r == trust_penalty(model@, trust),
        0 <= r <= 100,
{
    let tier = to_ascii_lowercase(model.verifiability.as_str());
    match trust {
        TrustMode::Private => if str_eq(tier.as_str(), "teeml") {
            0
        } else {
            100
        },
        TrustMode::Verified => if str_eq(tier.as_str(), "standard") {
            60
        } else {
            0
        },
        TrustMode::Standard => 0,
    }
}

/// A model's score, by which models are ranked. Every score starts at 50 points, with the task
/// bonus on top and the trust penalty off. Quality adds a point per 100,000 of context, 12 at
/// most, and is counted in units of a hundred-thousandth; speed adds two points per provider.
/// The prices are doubles, so a score by cost is `cost`, an integer that the caller has put in
/// the order of the doubles `50 + bonus - 500,000 * (prompt price + completion price) -
/// penalty`.
pub open spec fn merit(
    m: OgView,
    task: Seq<char>,
    objective: Objective,
    trust: TrustMode,
    cost: i64,
) -> int {
    let points = 50 + task_bonus(m, task) - trust_penalty(m, trust);
    match objective {
        Objective::Quality => 100_000 * points + if m.context_length < 1_200_000 {
            m.context_length as int
        } else {
            1_200_000
        },
        Objective::Speed => points + 2 * m.provider_count,
        Objective::Cost => cost as int,
    }
}

/// A model's score; see [`merit`].
pub fn score(model: &OgModel, task: &str, objective: Objective, trust: TrustMode, cost: i64) -> (r:
    i64)
    ensures
        r == merit(model@, task@, objective, trust, cost),
{
    let points: i64 = 50 + bonus(model, task) - penalty(model, trust);
    match objective {
        Objective::Quality => {
            let context: i64 = if model.context_length < 1_200_000 {
                model.context_length as i64
            } else {
                1_200_000
            };
            100_000 * points + context
        },
        Objective::Speed => points + 2 * (model.provider_count as i64),
        Objective::Cost => cost,
    }
}

/// The item at `a` ranks before the item at `b`: it has the higher key, or the same key and
/// the earlier place.
pub open spec fn precedes(keys: Seq<i64>, a: int, b: int) -> bool {
    keys[a] > keys[b] || (keys[a] == keys[b] && a < b)
}

/// `order` lists every place once, each before those it precedes.
pub open spec fn is_ranking(order: Seq<int>, keys: Seq<i64>) -> bool {
    &&& order.len() == keys.len()
    &&& forall|i: int| 0 <= i < order.len() ==> 0 <= #[trigger] order[i] < keys.len()
    &&& forall|x: int| 0 <= x < keys.len() ==> #[trigger] order.contains(x)
    &&& forall|i: int, j: int|
        0 <= i < j < order.len() ==> precedes(keys, #[trigger] order[i], #[trigger] order[j])
}

/// There is only one ranking.
pub proof fn law_ranking_is_unique(a: Seq<int>, b: Seq<int>, keys: Seq<i64>)
    requires
        is_ranking(a, keys),
        is_ranking(b, keys),
    ensures
        a == b,
{
    lemma_rankings_agree(a, b, keys, keys.len());
    assert(a =~= b);
}

proof fn lemma_rankings_agree(a: Seq<int>, b: Seq<int>, keys: Seq<i64>, n: nat)
    requires
        is_ranking(a, keys),
        is_ranking(b, keys),
        n <= keys.len(),
    ensures
        forall|i: int| 0 <= i < n ==> a[i] == b[i],
    decreases n,
{
    if n > 0 {
        lemma_rankings_agree(a, b, keys, (n - 1) as nat);
        let k = n - 1;
        if a[k] != b[k] {
            assert(b.contains(a[k]));
            let m = choose|m: int| 0 <= m < b.len() && b[m] == a[k];
            assert(a.contains(b[k]));
            let l = choose|l: int| 0 <= l < a.len() && a[l] == b[k];
            if m < k {
                assert(a[m] == b[m]);
                assert(precedes(keys, a[m], a[k]));
                assert(false);
            }
            if l < k {
                assert(a[l] == b[l]);
                assert(precedes(keys, b[l], b[k]));
                assert(false);
            }
            assert(precedes(keys, b[k], b[m]));
            assert(precedes(keys, a[k], a[l]));
            assert(false);
        }
    }
}

/// The places of a list of keys, highest key first, equal keys in their order.
pub fn ranking(keys: &Vec<i64>) -> (r: Vec<usize>)
    ensures
        is_ranking(r@.map_values(|x: usize| x as int), keys@),
{
    let mut order: Vec<usize> = Vec::new();
    let mut n: usize = 0;
    while n < keys.len()
        invariant
            n <= keys@.len(),
            order@.len() == n,
            forall|i: int| 0 <= i < n ==> #[trigger] order@[i] < n,
            forall|x: usize| x < n ==> #[trigger] order@.contains(x),
            forall|i: int, j: int|
                0 <= i < j < n ==> precedes(
                    keys@,
                    #[trigger] order@[i] as int,
                    #[trigger] order@[j] as int,
                ),
        decreases keys@.len() - n,
    {
        let mut at: usize = 0;
        while at < order.len() && keys[order[at]] >= keys[n]
            invariant
                n < keys@.len(),
                at <= order@.len(),
                order@.len() == n,
                forall|i: int| 0 <= i < n ==> #[trigger] order@[i] < n,
                forall|i: int| 0 <= i < at ==> keys@[#[trigger] order@[i] as int] >= keys@[n as int],
            decreases order@.len() - at,
        {
            at = at + 1;
        }
        let ghost before = order@;
        order.insert(at, n);
        proof {
            let after = order@;
            assert(after =~= before.insert(at as int, n));
            assert forall|x: usize| x < n + 1 implies #[trigger] after.contains(x) by {
                if x == n {
                    assert(after[at as int] == n);
                } else {
                    assert(before.contains(x));
                    let i = choose|i: int| 0 <= i < before.len() && before[i] == x;
                    if i < at {
                        assert(after[i] == x);
                    } else {
                        assert(after[i + 1] == x);
                    }
                }
            }
            assert forall|i: int, j: int| 0 <= i < j < n + 1 implies precedes(
                keys@,
                #[trigger] after[i] as int,
                #[trigger] after[j] as int,
            ) by {
                let x = if i < at { i } else { i - 1 };
                let y = if j < at { j } else { j - 1 };
                if i == at {
                    assert(after[j] == before[y]);
                    assert(keys@[before[at as int] as int] < keys@[n as int]);
                    if y > at {
                        assert(precedes(keys@, before[at as int] as int, before[y] as int));
                    }
                } else if j == at {
                    assert(after[i] == before[x]);
                } else {
                    assert(after[i] == before[x]);
                    assert(after[j] == before[y]);
                }
            }
        }
        n = n + 1;
    }
    proof {
        let places = order@.map_values(|x: usize| x as int);
        assert forall|x: int| 0 <= x < keys@.len() implies #[trigger] places.contains(x) by {
            assert(order@.contains(x as usize));
            let i = choose|i: int| 0 <= i < order@.len() && order@[i] == x as usize;
            assert(places[i] == x);
        }
        assert forall|i: int, j: int| 0 <= i < j < places.len() implies precedes(
            keys@,
            #[trigger] places[i],
            #[trigger] places[j],
        ) by {
            assert(precedes(keys@, order@[i] as int, order@[j] as int));
        }
    }
    order
}

/// The scores of the models to choose from. `costs` belong to these models, in order.
pub open spec fn merits(
    prompt: Seq<char>,
    models: Seq<OgView>,
    objective: Objective,
    trust: TrustMode,
    costs: Seq<i64>,
) -> Seq<i64> {
    let pool = eligible_views(models, trust);
    Seq::new(
        pool.len(),
        |i: int| merit(pool[i], task_of(prompt), objective, trust, costs[i]) as i64,
    )
}

/// `ranked` are the models to choose from, highest score first, equal scores in catalog order.
pub open spec fn is_ranked(
    ranked: Seq<OgView>,
    prompt: Seq<char>,
    models: Seq<OgView>,
    objective: Objective,
    trust: TrustMode,
    costs: Seq<i64>,
) -> bool {
    let pool = eligible_views(models, trust);
    exists|order: Seq<int>| #[trigger]
        is_ranking(order, merits(prompt, models, objective, trust, costs)) && ranked == Seq::new(
            order.len(),
            |i: int| pool[order[i]],
        )
}

/// Ranks the models that the trust mode leaves to choose from, highest score first. The costs
/// are those of [`merit`], one for each such model, and count only where cost is the
/// objective.
pub fn rank(
    prompt: &str,
    models: &Vec<OgModel>,
    objective: Objective,
    trust: TrustMode,
    costs: &Vec<i64>,
) -> (r: Vec<OgModel>)
    requires
        objective == Objective::Cost ==> costs@.len() == eligible_views(
            og_views(models@),
            trust,
        ).len(),
    ensures
        is_ranked(og_views(r@), prompt@, og_views(models@), objective, trust, costs@),
{
    let task = infer_task(prompt);
    let pool = eligible(models, trust);
    let ghost keys_spec = merits(prompt@, og_views(models@), objective, trust, costs@);
    let mut keys: Vec<i64> = Vec::new();
    let mut i: usize = 0;
    while i < pool.len()
        invariant
            i <= pool@.len(),
            task@ == task_of(prompt@),
            og_views(pool@) == eligible_views(og_views(models@), trust),
            objective == Objective::Cost ==> costs@.len() == pool@.len(),
            keys_spec == merits(prompt@, og_views(models@), objective, trust, costs@),
            keys@.len() == i,
            forall|k: int| 0 <= k < i ==> #[trigger] keys@[k] == keys_spec[k],
        decreases pool@.len() - i,
    {
        let cost: i64 = match objective {
            Objective::Cost => costs[i],
            _ => 0,
        };
        let key = score(&pool[i], task, objective, trust, cost);
        assert(og_views(pool@)[i as int] == pool@[i as int]@);
        keys.push(key);
        i = i + 1;
    }
    assert(og_views(pool@).len() == pool@.len());
    assert(keys@ =~= keys_spec);
    let order = ranking(&keys);
    let ghost places = order@.map_values(|x: usize| x as int);
    let mut out: Vec<OgModel> = Vec::new();
    let mut n: usize = 0;
    while n < order.len()
        invariant
            n <= order@.len(),
            places == order@.map_values(|x: usize| x as int),
            keys@.len() == pool@.len(),
            is_ranking(places, keys@),
            out@.len() == n,
            forall|k: int| 0 <= k < n ==> (#[trigger] out@[k])@ == pool@[places[k]]@,
        decreases order@.len() - n,
    {
        assert(places[n as int] == order@[n as int]);
        out.push(clone_model(&pool[order[n]]));
        n = n + 1;
    }
    proof {
        let all = eligible_views(og_views(models@), trust);
        assert forall|k: int| 0 <= k < places.len() implies og_views(out@)[k] == all[places[k]] by {
            assert(0 <= places[k] < keys@.len());
        }
        assert(og_views(out@) =~= Seq::new(places.len(), |i: int| all[places[i]]));
    }
    out
}

/// The capabilities, comma by comma, or `general` where there are none.
pub open spec fn capability_list(capabilities: Seq<Seq<char>>) -> Seq<char> {
    if capabilities.len() == 0 {
        "general"@
    } else {
        joined(capabilities, ","@)
    }
}

/// The capabilities, comma by comma, or `general` where there are none.
pub fn capability_text(capabilities: &Vec<String>) -> (r: String)
    ensures
        r@ == capability_list(views(capabilities@)),
{
    if capabilities.len() == 0 {
        "general".to_owned()
    } else {
        join(capabilities, ",")
    }
}

/// A model's facts in one line.
pub open spec fn description(m: OgView) -> Seq<char> {
    "capabilities="@ + capability_list(m.capabilities) + "; context="@ + decimal(
        m.context_length as int,
    ) + "; providers="@ + decimal(m.provider_count as int) + "; trust="@ + m.verifiability
        + "; promptPrice="@ + m.prompt_price + "; completionPrice="@ + m.completion_price
}

/// A model's facts in one line.
pub fn describe(model: &OgModel) -> (r: String)
    ensures
        r@ == description(model@),
{
    let mut s = "capabilities=".to_owned();
    s.append(capability_text(&model.capabilities).as_str());
    s.append("; context=");
    s.append(to_decimal(model.context_length).as_str());
    s.append("; providers=");
    s.append(to_decimal(model.provider_count as u64).as_str());
    s.append("; trust=");
    s.append(model.verifiability.as_str());
    s.append("; promptPrice=");
    s.append(model.prompt_price.as_str());
    s.append("; completionPrice=");
    s.append(model.completion_price.as_str());
    s
}

/// A catalog model as the harness offers it.
pub open spec fn offer(m: OgView) -> OfferView {
    OfferView {
        id: m.id,
        label: m.name,
        description: Some(description(m)),
        reasoning_levels: seq![ReasoningLevel::Medium],
    }
}

/// A catalog model as the harness offers it.
pub fn to_harness_model(model: &OgModel) -> (r: Model)
    ensures
        r@ == offer(model@),
{
    let levels = vec![ReasoningLevel::Medium];
    assert(levels@ =~= seq![ReasoningLevel::Medium]);
    Model {
        id: model.id.clone(),
        label: model.name.clone(),
        description: Some(describe(model)),
        reasoning_levels: levels,
    }
}

/// A cached catalog that is younger than its time to live.
pub fn fresh_cache(cached: Option<&Vec<OgModel>>, age_secs: u64) -> (r: Option<Vec<OgModel>>)
    ensures
        match r {
            Some(models) => {
                &&& cached is Some
                &&& age_secs < CACHE_TTL_SECS
                &&& og_views(models@) == og_views(cached->0@)
            },
            None => cached is None || age_secs >= CACHE_TTL_SECS,
        },
{
    match cached {
        Some(models) => if age_secs < CACHE_TTL_SECS {
            Some(clone_models(models))
        } else {
            None
        },
        None => None,
    }
}

/// What comes of an attempt to fetch the catalog, where no fresh cache was there before it:
/// the fetched models, unless there are none; a cache that has become fresh meanwhile, where
/// the attempt failed; else the stand-ins.
pub open spec fn loaded(fetched: Option<Seq<OgView>>, cached: Option<Seq<OgView>>) -> Seq<OgView> {
    match fetched {
        Some(models) => if models.len() > 0 {
            models
        } else {
            fallback_catalog()
        },
        None => match cached {
            Some(models) => models,
            None => fallback_catalog(),
        },
    }
}

/// What comes of an attempt to fetch the catalog, and whether that is to be stored.
pub fn load_catalog(fetched: Result<Vec<OgModel>, String>, cached: Option<Vec<OgModel>>) -> (r: (
    Vec<OgModel>,
    bool,
))
    ensures
        og_views(r.0@) == loaded(
            match fetched {
                Ok(models) => Some(og_views(models@)),
                Err(_) => None,
            },
            match cached {
                Some(models) => Some(og_views(models@)),
                None => None,
            },
        ),
        r.1 == (fetched matches Ok(models) && models@.len() > 0),
{
    match fetched {
        Ok(models) => if models.len() > 0 {
            (models, true)
        } else {
            (fallback_models(), false)
        },
        Err(_) => match cached {
            Some(models) => (models, false),
            None => (fallback_models(), false),
        },
    }
}

/// There is always a catalog: as long as only catalogs with a model are stored, what is loaded
/// has a model.
pub proof fn law_a_catalog_is_never_empty(
    fetched: Option<Seq<OgView>>,
    cached: Option<Seq<OgView>>,
)
    requires
        cached matches Some(models) ==> models.len() > 0,
    ensures
        loaded(fetched, cached).len() > 0,
{
}

/// One model as the catalog service sends it.
pub struct RawModel {
    pub id: String,
    pub name: Option<String>,
    pub context_length: Option<u64>,
    pub provider_count: Option<u32>,
    pub capabilities: Option<Json>,
    pub supported_parameters: Option<Vec<String>>,
    pub verifiability: Option<String>,
}

/// The strings among a list of values, in order.
pub open spec fn texts_of(items: Seq<JsonView>) -> Seq<Seq<char>>
    decreases items.len(),
{
    if items.len() == 0 {
        Seq::empty()
    } else {
        match items.last().text() {
            Some(t) => texts_of(items.drop_last()).push(t),
            None => texts_of(items.drop_last()),
        }
    }
}

/// The names of the members that are `true`, in order.
pub open spec fn switched_on(members: Seq<(Seq<char>, JsonView)>) -> Seq<Seq<char>>
    decreases members.len(),
{
    if members.len() == 0 {
        Seq::empty()
    } else if members.last().1.boolean() == Some(true) {
        switched_on(members.drop_last()).push(members.last().0)
    } else {
        switched_on(members.drop_last())
    }
}

/// The capabilities that a raw model names: the strings of a list, the switched-on names of an
/// object, else the supported parameters.
pub open spec fn raw_capabilities(
    capabilities: Option<JsonView>,
    parameters: Option<Seq<Seq<char>>>,
) -> Seq<Seq<char>> {
    match capabilities {
        Some(JsonView::Array(items)) => texts_of(items),
        Some(JsonView::Object(members)) => switched_on(members),
        _ => match parameters {
            Some(p) => p,
            None => Seq::empty(),
        },
    }
}

/// The value of an optional JSON value.
pub open spec fn opt_json(v: Option<Json>) -> Option<JsonView> {
    match v {
        Some(v) => Some(v@),
        None => None,
    }
}

/// The catalog model that a raw model stands for.
pub open spec fn normalized(raw: RawModel, prompt: Seq<char>, completion: Seq<char>) -> OgView {
    OgView {
        id: raw.id@,
        name: match raw.name {
            Some(name) => name@,
            None => raw.id@,
        },
        context_length: match raw.context_length {
            Some(n) => n,
            None => 0,
        },
        provider_count: match raw.provider_count {
            Some(n) => n,
            None => 0,
        },
        capabilities: raw_capabilities(
            opt_json(raw.capabilities),
            crate::serialize::opt_views(raw.supported_parameters),
        ),
        verifiability: match raw.verifiability {
            Some(v) => v@,
            None => "standard"@,
        },
        prompt_price: prompt,
        completion_price: completion,
    }
}

fn collect_texts(items: &Vec<Json>) -> (r: Vec<String>)
    ensures
        views(r@) == texts_of(items@.map_values(|j: Json| j@)),
{
    let mut out: Vec<String> = Vec::new();
    let ghost all = items@.map_values(|j: Json| j@);
    let mut i: usize = 0;
    assert(all.take(0) =~= Seq::<JsonView>::empty());
    assert(views(out@) =~= Seq::<Seq<char>>::empty());
    while i < items.len()
        invariant
            i <= items@.len(),
            all == items@.map_values(|j: Json| j@),
            views(out@) == texts_of(all.take(i as int)),
        decreases items@.len() - i,
    {
        let ghost told = views(out@);
        assert(all.take(i + 1).drop_last() =~= all.take(i as int));
        assert(all.take(i + 1).last() == items@[i as int]@);
        if let Some(text) = items[i].as_str() {
            out.push(text.clone());
            assert(views(out@) =~= told.push(text@));
        }
        i = i + 1;
    }
    assert(all.take(i as int) =~= all);
    out
}

fn collect_switched(members: &Vec<(String, Json)>) -> (r: Vec<String>)
    ensures
        views(r@) == switched_on(crate::wire::member_views(members@)),
{
    let mut out: Vec<String> = Vec::new();
    let ghost all = crate::wire::member_views(members@);
    let mut i: usize = 0;
    assert(all.take(0) =~= Seq::<(Seq<char>, JsonView)>::empty());
    assert(views(out@) =~= Seq::<Seq<char>>::empty());
    while i < members.len()
        invariant
            i <= members@.len(),
            all == crate::wire::member_views(members@),
            views(out@) == switched_on(all.take(i as int)),
        decreases members@.len() - i,
    {
        let ghost told = views(out@);
        assert(all.take(i + 1).drop_last() =~= all.take(i as int));
        assert(all.take(i + 1).last() == (members@[i as int].0@, members@[i as int].1@));
        if let Some(true) = members[i].1.as_bool() {
            out.push(members[i].0.clone());
            assert(views(out@) =~= told.push(members@[i as int].0@));
        }
        i = i + 1;
    }
    assert(all.take(i as int) =~= all);
    out
}

/// The text of a price, where the value is a string or a number.
pub fn price_text(value: &Option<Json>) -> (r: Option<&String>)
    ensures
        match opt_json(*value) {
            Some(JsonView::Text(t)) => r matches Some(s) && s@ == t,
            Some(JsonView::Number(n)) => r matches Some(s) && s@ == n,
            _ => r is None,
        },
{
    match value {
        Some(Json::Text(text)) => Some(text),
        Some(Json::Number(number)) => Some(number),
        _ => None,
    }
}

/// A catalog model from what the service sent; the prices are the decimal texts of the doubles
/// that its price fields stand for.
pub fn normalize(raw: &RawModel, prompt_price: String, completion_price: String) -> (r: OgModel)
    ensures
        r@ == normalized(*raw, prompt_price@, completion_price@),
{
    let capabilities = match &raw.capabilities {
        Some(Json::Array(items)) => {
            assert(items@.map_values(|j: Json| j@) =~= raw.capabilities->0@->Array_0);
            collect_texts(items)
        },
        Some(Json::Object(members)) => {
            assert(crate::wire::member_views(members@) =~= raw.capabilities->0@->Object_0);
            collect_switched(members)
        },
        _ => match &raw.supported_parameters {
            Some(parameters) => clone_strings(parameters),
            None => {
                let none: Vec<String> = Vec::new();
                assert(views(none@) =~= Seq::<Seq<char>>::empty());
                none
            },
        },
    };
    let name = match &raw.name {
        Some(name) => name.clone(),
        None => raw.id.clone(),
    };
    OgModel {
        id: raw.id.clone(),
        name,
        context_length: raw.context_length.unwrap_or(0),
        provider_count: raw.provider_count.unwrap_or(0),
        capabilities,
        verifiability: match &raw.verifiability {
            Some(v) => v.clone(),
            None => "standard".to_owned(),
        },
        prompt_price,
        completion_price,
    }
}

/// The catalog that a list of raw models stands for; a model without an id is left out.
/// `prices` are the texts of each model's two prices.
pub open spec fn catalog_views(raws: Seq<RawModel>, prices: Seq<(String, String)>) -> Seq<OgView>
    decreases raws.len(),
{
    if raws.len() == 0 {
        Seq::empty()
    } else {
        let before = catalog_views(raws.drop_last(), prices);
        let price = prices[raws.len() - 1];
        if raws.last().id@.len() > 0 {
            before.push(normalized(raws.last(), price.0@, price.1@))
        } else {
            before
        }
    }
}

/// The catalog that a list of raw models stands for; a model without an id is left out.
pub fn catalog_of(raws: &Vec<RawModel>, prices: &Vec<(String, String)>) -> (r: Vec<OgModel>)
    requires
        raws@.len() == prices@.len(),
    ensures
        og_views(r@) == catalog_views(raws@, prices@),
{
    let mut out: Vec<OgModel> = Vec::new();
    let mut i: usize = 0;
    assert(raws@.take(0) =~= Seq::<RawModel>::empty());
    assert(og_views(out@) =~= Seq::<OgView>::empty());
    while i < raws.len()
        invariant
            i <= raws@.len(),
            raws@.len() == prices@.len(),
            og_views(out@) == catalog_views(raws@.take(i as int), prices@),
        decreases raws@.len() - i,
    {
        let ghost told = og_views(out@);
        assert(raws@.take(i + 1).drop_last() =~= raws@.take(i as int));
        if !raws[i].id.as_str().is_empty() {
            out.push(normalize(&raws[i], prices[i].0.clone(), prices[i].1.clone()));
            assert(og_views(out@) =~= told.push(out@.last()@));
        }
        i = i + 1;
    }
    assert(raws@.take(i as int) =~= raws@);
    out
}

proof fn lemma_filter_from<A>(s: Seq<A>, p: spec_fn(A) -> bool)
    ensures
        forall|i: int| 0 <= i < s.filter(p).len() ==> s.contains(#[trigger] s.filter(p)[i]),
    decreases s.len(),
{
    reveal(Seq::filter);
    if s.len() > 0 {
        lemma_filter_from(s.drop_last(), p);
        assert forall|i: int| 0 <= i < s.filter(p).len() implies s.contains(
            #[trigger] s.filter(p)[i],
        ) by {
            let front = s.drop_last();
            if i < front.filter(p).len() {
                assert(front.contains(front.filter(p)[i]));
                let k = choose|k: int| 0 <= k < front.len() && front[k] == front.filter(p)[i];
                assert(s[k] == s.filter(p)[i]);
            } else {
                assert(s[s.len() - 1] == s.filter(p)[i]);
            }
        }
    }
}

/// There is always something to choose from, and what there is either satisfies the trust mode
/// throughout or is the whole catalog, none of which does.
pub proof fn law_trust_filters_or_keeps_all(models: Seq<OgView>, trust: TrustMode)
    ensures
        models.len() > 0 ==> eligible_views(models, trust).len() > 0,
        forall|i: int|
            0 <= i < eligible_views(models, trust).len() ==> models.contains(
                #[trigger] eligible_views(models, trust)[i],
            ),
        (exists|i: int| 0 <= i < models.len() && allows(#[trigger] models[i], trust)) ==> forall|
            i: int,
        |
            0 <= i < eligible_views(models, trust).len() ==> allows(
                #[trigger] eligible_views(models, trust)[i],
                trust,
            ),
        !(exists|i: int| 0 <= i < models.len() && allows(#[trigger] models[i], trust))
            ==> eligible_views(models, trust) == models,
{
    let p = |m: OgView| allows(m, trust);
    let kept = models.filter(p);
    broadcast use vstd::seq_lib::group_filter_ensures;

    lemma_filter_from(models, p);
    if exists|i: int| 0 <= i < models.len() && allows(#[trigger] models[i], trust) {
        let i = choose|i: int| 0 <= i < models.len() && allows(#[trigger] models[i], trust);
        assert(p(models[i]));
        assert(kept.contains(models[i]));
        assert(kept.len() > 0);
    } else if kept.len() > 0 {
        assert(p(kept[0]));
        assert(models.contains(kept[0]));
        assert(false);
    }
}

proof fn lemma_reordered<A>(order: Seq<int>, s: Seq<A>)
    requires
        order.len() == s.len(),
        order.no_duplicates(),
        forall|i: int| 0 <= i < order.len() ==> 0 <= #[trigger] order[i] < s.len(),
        forall|x: int| 0 <= x < s.len() ==> #[trigger] order.contains(x),
    ensures
        Seq::new(order.len(), |i: int| s[order[i]]).to_multiset() == s.to_multiset(),
    decreases s.len(),
{
    broadcast use vstd::seq_lib::group_to_multiset_ensures;

    let whole = Seq::new(order.len(), |i: int| s[order[i]]);
    if s.len() == 0 {
        assert(whole =~= s);
    } else {
        let n = s.len() - 1;
        assert(order.contains(n));
        let k = choose|k: int| 0 <= k < order.len() && order[k] == n;
        let rest = order.remove(k);
        let front = s.drop_last();
        assert forall|i: int| 0 <= i < rest.len() implies 0 <= #[trigger] rest[i] < front.len() by {
            let j = if i < k { i } else { i + 1 };
            assert(rest[i] == order[j]);
            assert(order[j] != order[k]);
        }
        assert forall|i: int, j: int| 0 <= i < rest.len() && 0 <= j < rest.len() && i
            != j implies rest[i] != rest[j] by {
            let a = if i < k { i } else { i + 1 };
            let b = if j < k { j } else { j + 1 };
            assert(order[a] != order[b]);
        }
        assert forall|x: int| 0 <= x < front.len() implies #[trigger] rest.contains(x) by {
            assert(order.contains(x));
            let i = choose|i: int| 0 <= i < order.len() && order[i] == x;
            let j = if i < k { i } else { i - 1 };
            assert(rest[j] == x);
        }
        lemma_reordered(rest, front);
        let part = Seq::new(rest.len(), |i: int| front[rest[i]]);
        assert(part =~= whole.remove(k));
        assert(s =~= front.push(s.last()));
        assert(whole.remove(k).to_multiset() =~= whole.to_multiset().remove(whole[k]));
        assert(s.to_multiset() =~= front.to_multiset().insert(s.last()));
        assert(whole.contains(whole[k]));
        assert(whole.to_multiset().count(whole[k]) > 0);
        assert(whole.to_multiset() =~= whole.to_multiset().remove(whole[k]).insert(whole[k]));
    }
}

/// A ranking has exactly the models to choose from, each as often as it stands among them.
pub proof fn law_rank_keeps_every_model(
    ranked: Seq<OgView>,
    prompt: Seq<char>,
    models: Seq<OgView>,
    objective: Objective,
    trust: TrustMode,
    costs: Seq<i64>,
)
    requires
        is_ranked(ranked, prompt, models, objective, trust, costs),
    ensures
        ranked.len() == eligible_views(models, trust).len(),
        ranked.to_multiset() == eligible_views(models, trust).to_multiset(),
{
    let pool = eligible_views(models, trust);
    let keys = merits(prompt, models, objective, trust, costs);
    let order = choose|order: Seq<int>| #[trigger]
        is_ranking(order, keys) && ranked == Seq::new(order.len(), |i: int| pool[order[i]]);
    assert forall|i: int, j: int| 0 <= i < order.len() && 0 <= j < order.len() && i
        != j implies order[i] != order[j] by {
        if i < j {
            assert(precedes(keys, order[i], order[j]));
        } else {
            assert(precedes(keys, order[j], order[i]));
        }
    }
    lemma_reordered(order, pool);
}

/// The first model of a ranking has the highest score of all that there are to choose from.
pub proof fn law_first_has_highest_score(
    ranked: Seq<OgView>,
    prompt: Seq<char>,
    models: Seq<OgView>,
    objective: Objective,
    trust: TrustMode,
    costs: Seq<i64>,
)
    requires
        is_ranked(ranked, prompt, models, objective, trust, costs),
        models.len() > 0,
    ensures
        ({
            let pool = eligible_views(models, trust);
            let keys = merits(prompt, models, objective, trust, costs);
            &&& ranked.len() > 0
            &&& exists|i: int|
                0 <= i < pool.len() && ranked[0] == #[trigger] pool[i] && forall|j: int|
                    0 <= j < pool.len() ==> keys[i] >= #[trigger] keys[j]
        }),
{
    law_trust_filters_or_keeps_all(models, trust);
    let pool = eligible_views(models, trust);
    let keys = merits(prompt, models, objective, trust, costs);
    let order = choose|order: Seq<int>| #[trigger]
        is_ranking(order, keys) && ranked == Seq::new(order.len(), |i: int| pool[order[i]]);
    let i = order[0];
    assert(ranked[0] == pool[i]);
    assert forall|j: int| 0 <= j < pool.len() implies keys[i] >= #[trigger] keys[j] by {
        assert(order.contains(j));
        let k = choose|k: int| 0 <= k < order.len() && order[k] == j;
        if k > 0 {
            assert(precedes(keys, order[0], order[k]));
        }
    }
}

/// Under private trust only TeeML and private models are ranked, where the catalog has any.
pub proof fn law_private_ranks_private_tiers(
    ranked: Seq<OgView>,
    prompt: Seq<char>,
    models: Seq<OgView>,
    objective: Objective,
    costs: Seq<i64>,
)
    requires
        is_ranked(ranked, prompt, models, objective, TrustMode::Private, costs),
        exists|i: int|
            0 <= i < models.len() && allows(#[trigger] models[i], TrustMode::Private),
    ensures
        forall|i: int|
            0 <= i < ranked.len() ==> {
                let tier = lower((#[trigger] ranked[i]).verifiability);
                tier == "teeml"@ || tier == "private"@
            },
{
    let trust = TrustMode::Private;
    law_trust_filters_or_keeps_all(models, trust);
    let pool = eligible_views(models, trust);
    let keys = merits(prompt, models, objective, trust, costs);
    let order = choose|order: Seq<int>| #[trigger]
        is_ranking(order, keys) && ranked == Seq::new(order.len(), |i: int| pool[order[i]]);
    assert forall|i: int| 0 <= i < ranked.len() implies ({
        let tier = lower((#[trigger] ranked[i]).verifiability);
        tier == "teeml"@ || tier == "private"@
    }) by {
        assert(ranked[i] == pool[order[i]]);
        assert(allows(pool[order[i]], trust));
    }
}

proof fn lemma_has_any_one(value: Seq<char>, needles: Seq<Seq<char>>, i: int)
    requires
        0 <= i < needles.len(),
        has_part(value, needles[i]),
    ensures
        has_any(value, needles),
{
}

/// A prompt is about code or its security where it says any one of the words for that, in
/// whatever case; else it is an extraction, a summary, or a task for agents and tools where it
/// says any one of the words for these, in this order; else it is general.
pub proof fn law_words_mark_the_task(prompt: Seq<char>)
    ensures
        ({
            let says = |word: Seq<char>| has_part(lower(prompt), word);
            let code = says("contract"@) || says("solidity"@) || says("code"@) || says("bug"@)
                || says("漏洞"@) || says("代码"@) || says("合约"@) || says("审计"@);
            let extraction = says("extract"@) || says("json"@) || says("字段"@) || says("提取"@)
                || says("结构化"@);
            let summary = says("summar"@) || says("摘要"@) || says("总结"@) || says("归纳"@);
            let agent = says("agent"@) || says("tool"@) || says("function"@) || says("工具"@)
                || says("智能体"@);
            &&& code ==> task_of(prompt) == "code-security"@
            &&& !code && extraction ==> task_of(prompt) == "extraction"@
            &&& !code && !extraction && summary ==> task_of(prompt) == "summarization"@
            &&& !code && !extraction && !summary && agent ==> task_of(prompt) == "agent-tools"@
            &&& !code && !extraction && !summary && !agent ==> task_of(prompt)
                == "general-reasoning"@
        }),
{
    let value = lower(prompt);
    if has_part(value, "contract"@) {
        lemma_has_any_one(value, code_words(), 0);
    }
    if has_part(value, "solidity"@) {
        lemma_has_any_one(value, code_words(), 1);
    }
    if has_part(value, "code"@) {
        lemma_has_any_one(value, code_words(), 2);
    }
    if has_part(value, "bug"@) {
        lemma_has_any_one(value, code_words(), 3);
    }
    if has_part(value, "漏洞"@) {
        lemma_has_any_one(value, code_words(), 4);
    }
    if has_part(value, "代码"@) {
        lemma_has_any_one(value, code_words(), 5);
    }
    if has_part(value, "合约"@) {
        lemma_has_any_one(value, code_words(), 6);
    }
    if has_part(value, "审计"@) {
        lemma_has_any_one(value, code_words(), 7);
    }
    if has_part(value, "extract"@) {
        lemma_has_any_one(value, extraction_words(), 0);
    }
    if has_part(value, "json"@) {
        lemma_has_any_one(value, extraction_words(), 1);
    }
    if has_part(value, "字段"@) {
        lemma_has_any_one(value, extraction_words(), 2);
    }
    if has_part(value, "提取"@) {
        lemma_has_any_one(value, extraction_words(), 3);
    }
    if has_part(value, "结构化"@) {
        lemma_has_any_one(value, extraction_words(), 4);
    }
    if has_part(value, "summar"@) {
        lemma_has_any_one(value, summary_words(), 0);
    }
    if has_part(value, "摘要"@) {
        lemma_has_any_one(value, summary_words(), 1);
    }
    if has_part(value, "总结"@) {
        lemma_has_any_one(value, summary_words(), 2);
    }
    if has_part(value, "归纳"@) {
        lemma_has_any_one(value, summary_words(), 3);
    }
    if has_part(value, "agent"@) {
        lemma_has_any_one(value, agent_words(), 0);
    }
    if has_part(value, "tool"@) {
        lemma_has_any_one(value, agent_words(), 1);
    }
    if has_part(value, "function"@) {
        lemma_has_any_one(value, agent_words(), 2);
    }
    if has_part(value, "工具"@) {
        lemma_has_any_one(value, agent_words(), 3);
    }
    if has_part(value, "智能体"@) {
        lemma_has_any_one(value, agent_words(), 4);
    }
}

proof fn lemma_lower_concat(a: Seq<char>, b: Seq<char>)
    ensures
        lower(a + b) == lower(a) + lower(b),
{
    assert(lower(a + b) =~= lower(a) + lower(b));
}

proof fn lemma_lower_space()
    ensures
        lower(" "@) == " "@,
        " "@ == seq![' '],
{
    reveal_strlit(" ");
    assert(" "@ =~= seq![' ']);
    assert(lower(" "@) =~= " "@);
}

proof fn lemma_part_of_two(a: Seq<char>, b: Seq<char>, word: Seq<char>)
    requires
        word.len() > 0,
        !word.contains(' '),
    ensures
        has_part(a + seq![' '] + b, word) <==> has_part(a, word) || has_part(b, word),
{
    let whole = a + seq![' '] + b;
    let n = word.len() as int;
    if has_part(whole, word) {
        let i = choose|i: int| occurs_at(whole, word, i);
        if i + n <= a.len() {
            assert(a.subrange(i, i + n) =~= whole.subrange(i, i + n));
            assert(occurs_at(a, word, i));
        } else if i > a.len() {
            let j = i - a.len() - 1;
            assert(b.subrange(j, j + n) =~= whole.subrange(i, i + n));
            assert(occurs_at(b, word, j));
        } else {
            let k = a.len() - i;
            assert(whole.subrange(i, i + n)[k] == ' ');
            assert(word[k] == ' ');
            assert(word.contains(' '));
        }
    }
    if has_part(a, word) {
        let i = choose|i: int| occurs_at(a, word, i);
        assert(a.subrange(i, i + n) =~= whole.subrange(i, i + n));
        assert(occurs_at(whole, word, i));
    }
    if has_part(b, word) {
        let j = choose|j: int| occurs_at(b, word, j);
        let i = a.len() + 1 + j;
        assert(b.subrange(j, j + n) =~= whole.subrange(i, i + n));
        assert(occurs_at(whole, word, i));
    }
}

/// A model mentions a word in its id, its name, or one of its capabilities, in whatever case.
pub open spec fn mentions(m: OgView, word: Seq<char>) -> bool {
    ||| has_part(lower(m.id), word)
    ||| has_part(lower(m.name), word)
    ||| exists|k: int|
        0 <= k < m.capabilities.len() && has_part(lower(#[trigger] m.capabilities[k]), word)
}

proof fn lemma_part_of_joined(parts: Seq<Seq<char>>, word: Seq<char>)
    requires
        word.len() > 0,
        !word.contains(' '),
    ensures
        has_part(lower(joined(parts, " "@)), word) <==> exists|k: int|
            0 <= k < parts.len() && has_part(lower(#[trigger] parts[k]), word),
    decreases parts.len(),
{
    lemma_lower_space();
    let text = lower(joined(parts, " "@));
    if parts.len() == 0 {
        if has_part(text, word) {
            let i = choose|i: int| occurs_at(text, word, i);
            assert(false);
        }
    } else if parts.len() == 1 {
        assert(text == lower(parts[0]));
    } else {
        let front = parts.drop_last();
        let last = parts[parts.len() - 1];
        lemma_part_of_joined(front, word);
        lemma_lower_concat(joined(front, " "@), " "@);
        lemma_lower_concat(joined(front, " "@) + " "@, parts.last());
        lemma_part_of_two(lower(joined(front, " "@)), lower(last), word);
        if exists|k: int| 0 <= k < front.len() && has_part(lower(#[trigger] front[k]), word) {
            let k = choose|k: int|
                0 <= k < front.len() && has_part(lower(#[trigger] front[k]), word);
            assert(parts[k] == front[k]);
        }
        if exists|k: int| 0 <= k < parts.len() && has_part(lower(#[trigger] parts[k]), word) {
            let k = choose|k: int|
                0 <= k < parts.len() && has_part(lower(#[trigger] parts[k]), word);
            if k < front.len() {
                assert(front[k] == parts[k]);
            }
        }
    }
}

proof fn lemma_mentions(m: OgView, word: Seq<char>)
    requires
        word.len() > 0,
        !word.contains(' '),
    ensures
        has_part(profile(m), word) <==> mentions(m, word),
{
    lemma_lower_space();
    let caps = joined(m.capabilities, " "@);
    lemma_lower_concat(m.id, " "@);
    lemma_lower_concat(m.id + " "@, m.name);
    lemma_lower_concat(m.id + " "@ + m.name, " "@);
    lemma_lower_concat(m.id + " "@ + m.name + " "@, caps);
    lemma_part_of_two(lower(m.id), lower(m.name), word);
    lemma_part_of_two(lower(m.id) + seq![' '] + lower(m.name), lower(caps), word);
    lemma_part_of_joined(m.capabilities, word);
}

proof fn lemma_any_mention(m: OgView, words: Seq<Seq<char>>)
    requires
        forall|i: int|
            0 <= i < words.len() ==> (#[trigger] words[i]).len() > 0 && !words[i].contains(' '),
    ensures
        has_any(profile(m), words) <==> exists|i: int|
            0 <= i < words.len() && mentions(m, #[trigger] words[i]),
{
    assert forall|i: int| 0 <= i < words.len() implies has_part(
        profile(m),
        #[trigger] words[i],
    ) == mentions(m, words[i]) by {
        lemma_mentions(m, words[i]);
    }
}

/// A model gains by fitting the task: 25 points for code, 20 for extraction, and 25 for agents
/// and tools, where it mentions any one of the words for that, and nothing else.
pub proof fn law_a_fitting_model_gains(m: OgView, task: Seq<char>)
    ensures
        ({
            let code = mentions(m, "code"@) || mentions(m, "reason"@) || mentions(m, "deepseek"@)
                || mentions(m, "qwen"@) || mentions(m, "glm"@);
            let data = mentions(m, "json"@) || mentions(m, "structured"@) || mentions(m, "qwen"@)
                || mentions(m, "glm"@);
            let tools = mentions(m, "tool"@);
            &&& task_bonus(m, "code-security"@) == if code { 25int } else { 0 }
            &&& task_bonus(m, "extraction"@) == if data { 20int } else { 0 }
            &&& task_bonus(m, "agent-tools"@) == if tools { 25int } else { 0 }
            &&& task != "code-security"@ && task != "extraction"@ && task != "agent-tools"@
                ==> task_bonus(m, task) == 0
        }),
{
    reveal_strlit("code-security");
    reveal_strlit("extraction");
    reveal_strlit("agent-tools");
    assert("code-security"@.len() == 13 && "extraction"@.len() == 10 && "agent-tools"@.len()
        == 11);
    reveal_strlit("code");
    reveal_strlit("reason");
    reveal_strlit("deepseek");
    reveal_strlit("qwen");
    reveal_strlit("glm");
    reveal_strlit("json");
    reveal_strlit("structured");
    reveal_strlit("tool");
    let a = seq!["code"@, "reason"@, "deepseek"@, "qwen"@, "glm"@];
    let b = seq!["json"@, "structured"@, "qwen"@, "glm"@];
    lemma_any_mention(m, a);
    lemma_any_mention(m, b);
    lemma_mentions(m, "tool"@);
    assert(mentions(m, a[0]) == mentions(m, "code"@));
    assert(mentions(m, a[1]) == mentions(m, "reason"@));
    assert(mentions(m, a[2]) == mentions(m, "deepseek"@));
    assert(mentions(m, a[3]) == mentions(m, "qwen"@));
    assert(mentions(m, a[4]) == mentions(m, "glm"@));
    assert(mentions(m, b[0]) == mentions(m, "json"@));
    assert(mentions(m, b[1]) == mentions(m, "structured"@));
    assert(mentions(m, b[2]) == mentions(m, "qwen"@));
    assert(mentions(m, b[3]) == mentions(m, "glm"@));
}

/// A model loses by its tier: 100 points under private trust unless it is TeeML, 60 under
/// verified trust where it is standard, and nothing under standard trust. The case of the tier
/// does not matter.
pub proof fn law_a_weaker_tier_loses(m: OgView)
    ensures
        ({
            let tier = lower(m.verifiability);
            &&& tier == "teeml"@ ==> trust_penalty(m, TrustMode::Private) == 0
            &&& tier != "teeml"@ ==> trust_penalty(m, TrustMode::Private) == 100
            &&& tier == "standard"@ ==> trust_penalty(m, TrustMode::Verified) == 60
            &&& tier != "standard"@ ==> trust_penalty(m, TrustMode::Verified) == 0
            &&& trust_penalty(m, TrustMode::Standard) == 0
        }),
{
}

/// How two models compare under an objective. Under quality, a point of fit or trust weighs as
/// much as 100,000 of context, and context counts up to 1,200,000; under speed, a provider
/// weighs two points; under cost, only the costs count. Every score starts at 50 points.
pub proof fn law_scores_compare(
    a: OgView,
    b: OgView,
    task: Seq<char>,
    trust: TrustMode,
    cost_a: i64,
    cost_b: i64,
)
    ensures
        ({
            let gain = task_bonus(a, task) - task_bonus(b, task);
            let loss = trust_penalty(a, trust) - trust_penalty(b, trust);
            let ahead = |objective: Objective|
                merit(a, task, objective, trust, cost_a) - merit(
                    b,
                    task,
                    objective,
                    trust,
                    cost_b,
                );
            &&& ahead(Objective::Quality) == 100_000 * (gain - loss) + vstd::math::min(
                a.context_length as int,
                1_200_000,
            ) - vstd::math::min(b.context_length as int, 1_200_000)
            &&& ahead(Objective::Speed) == gain - loss + 2 * (a.provider_count
                - b.provider_count)
            &&& ahead(Objective::Cost) == cost_a - cost_b
        }),
        merit(a, task, Objective::Speed, trust, cost_a) == 50 + task_bonus(a, task)
            - trust_penalty(a, trust) + 2 * a.provider_count,
        a.context_length == 0 ==> merit(a, task, Objective::Quality, trust, cost_a) == 100_000 * (
        50 + task_bonus(a, task) - trust_penalty(a, trust)),
{
}

proof fn lemma_merit_fits(
    m: OgView,
    task: Seq<char>,
    objective: Objective,
    trust: TrustMode,
    cost: i64,
)
    ensures
        i64::MIN <= merit(m, task, objective, trust, cost) <= i64::MAX,
{
}

/// A ranking puts the models in order of their scores, highest first, and models with the same
/// score in the order of the catalog.
pub proof fn law_ranked_models_descend(
    ranked: Seq<OgView>,
    prompt: Seq<char>,
    models: Seq<OgView>,
    objective: Objective,
    trust: TrustMode,
    costs: Seq<i64>,
)
    requires
        is_ranked(ranked, prompt, models, objective, trust, costs),
    ensures
        ({
            let pool = eligible_views(models, trust);
            let task = task_of(prompt);
            exists|place: Seq<int>|
                #![trigger place.len()]
                {
                    let score = |i: int|
                        merit(ranked[i], task, objective, trust, costs[place[i]]);
                    &&& place.len() == ranked.len()
                    &&& forall|i: int|
                        0 <= i < ranked.len() ==> 0 <= #[trigger] place[i] < pool.len()
                            && ranked[i] == pool[place[i]]
                    &&& forall|i: int, j: int|
                        #![trigger place[i], place[j]]
                        0 <= i < j < ranked.len() ==> score(i) > score(j) || (score(i) == score(j)
                            && place[i] < place[j])
                }
        }),
{
    let pool = eligible_views(models, trust);
    let task = task_of(prompt);
    let keys = merits(prompt, models, objective, trust, costs);
    let place = choose|order: Seq<int>| #[trigger]
        is_ranking(order, keys) && ranked == Seq::new(order.len(), |i: int| pool[order[i]]);
    let score = |i: int| merit(ranked[i], task, objective, trust, costs[place[i]]);
    assert forall|i: int| 0 <= i < ranked.len() implies 0 <= #[trigger] place[i] < pool.len()
        && ranked[i] == pool[place[i]] by {}
    assert forall|i: int, j: int|
        #![trigger place[i], place[j]]
        0 <= i < j < ranked.len() implies score(i) > score(j) || (score(i) == score(j) && place[i]
        < place[j]) by {
        assert(precedes(keys, place[i], place[j]));
        lemma_merit_fits(ranked[i], task, objective, trust, costs[place[i]]);
        lemma_merit_fits(ranked[j], task, objective, trust, costs[place[j]]);
    }
    assert(place.len() == ranked.len());
}

/// Which tiers satisfy a trust mode, whatever their case: TeeML and private ones do private
/// trust, all but standard ones do verified trust, and all do standard trust.
pub proof fn law_tiers_satisfy_trust(m: OgView)
    ensures
        ({
            let tier = lower(m.verifiability);
            &&& allows(m, TrustMode::Private) <==> tier == "teeml"@ || tier == "private"@
            &&& allows(m, TrustMode::Verified) <==> tier != "standard"@
            &&& allows(m, TrustMode::Standard)
        }),
{
}

/// The models that there are to choose from because they satisfy the trust mode.
pub open spec fn trusted(models: Seq<OgView>, trust: TrustMode) -> Seq<OgView> {
    if exists|i: int| 0 <= i < models.len() && allows(#[trigger] models[i], trust) {
        eligible_views(models, trust)
    } else {
        Seq::empty()
    }
}

proof fn lemma_trusted(models: Seq<OgView>, trust: TrustMode)
    ensures
        trusted(models, trust) == models.filter(|m: OgView| allows(m, trust)),
{
    let p = |m: OgView| allows(m, trust);
    broadcast use vstd::seq_lib::group_filter_ensures;

    if exists|i: int| 0 <= i < models.len() && allows(#[trigger] models[i], trust) {
        let i = choose|i: int| 0 <= i < models.len() && allows(#[trigger] models[i], trust);
        assert(p(models[i]));
        assert(models.filter(p).contains(models[i]));
    } else {
        lemma_filter_from(models, p);
        if models.filter(p).len() > 0 {
            assert(p(models.filter(p)[0]));
            assert(models.contains(models.filter(p)[0]));
        }
        assert(models.filter(p) =~= Seq::<OgView>::empty());
    }
}

/// Where any model of the catalog satisfies the trust mode, those that do are all there is to
/// choose from, every one of them once and in the order of the catalog: those of two catalogs
/// are those of the one and then those of the other, and a lone model is one exactly where it
/// satisfies the trust mode.
pub proof fn law_every_trusted_model_is_kept(
    a: Seq<OgView>,
    b: Seq<OgView>,
    m: OgView,
    trust: TrustMode,
)
    ensures
        trusted(a + b, trust) == trusted(a, trust) + trusted(b, trust),
        trusted(seq![m], trust) == if allows(m, trust) {
            seq![m]
        } else {
            Seq::empty()
        },
{
    let p = |m: OgView| allows(m, trust);
    lemma_trusted(a, trust);
    lemma_trusted(b, trust);
    lemma_trusted(a + b, trust);
    lemma_trusted(seq![m], trust);
    Seq::filter_distributes_over_add(a, b, p);
    reveal_with_fuel(Seq::filter, 2);
    assert(seq![m].drop_last() =~= Seq::<OgView>::empty());
    assert(seq![m].filter(p) =~= if allows(m, trust) {
        seq![m]
    } else {
        Seq::empty()
    });
}

/// What the environment says of the objective and the trust mode counts without the white space
/// around it; what it does not say, or says otherwise, is quality and standard trust.
pub proof fn law_the_environment_names_the_policy(value: Seq<char>)
    ensures
        ({
            let said = trimmed(value);
            &&& env_objective(Some(value)) == Objective::Cost <==> said == "cost"@
            &&& env_objective(Some(value)) == Objective::Speed <==> said == "speed"@
            &&& env_objective(None) == Objective::Quality
            &&& env_trust(Some(value)) == TrustMode::Private <==> said == "private"@
            &&& env_trust(Some(value)) == TrustMode::Verified <==> said == "verified"@
            &&& env_trust(None) == TrustMode::Standard
        }),
{
    reveal_strlit("cost");
    reveal_strlit("speed");
    reveal_strlit("private");
    reveal_strlit("verified");
    assert("cost"@.len() == 4 && "speed"@.len() == 5);
    assert("private"@.len() == 7 && "verified"@.len() == 8);
}

/// The router sorts by price for cost and by latency for speed, and is left its own order for
/// quality; the trust modes go by their names.
pub proof fn law_the_router_is_told_the_policy(objective: Objective, trust: TrustMode)
    ensures
        strategy(objective) == "price"@ <==> objective == Objective::Cost,
        strategy(objective) == "latency"@ <==> objective == Objective::Speed,
        strategy(objective) == "default"@ <==> objective == Objective::Quality,
        trust_name(trust) == "private"@ <==> trust == TrustMode::Private,
        trust_name(trust) == "verified"@ <==> trust == TrustMode::Verified,
        trust_name(trust) == "standard"@ <==> trust == TrustMode::Standard,
{
    reveal_strlit("price");
    reveal_strlit("latency");
    reveal_strlit("default");
    assert("price"@.len() == 5 && "latency"@.len() == 7 && "default"@.len() == 7);
    assert("latency"@[0] == 'l' && "default"@[0] == 'd');
    reveal_strlit("private");
    reveal_strlit("verified");
    reveal_strlit("standard");
    assert("private"@.len() == 7 && "verified"@.len() == 8 && "standard"@.len() == 8);
    assert("verified"@[0] == 'v' && "standard"@[0] == 's');
}

/// The router is where the environment says, without the slashes at the end, unless that is
/// blank or not said.
pub proof fn law_the_router_is_where_the_environment_says(value: Seq<char>)
    ensures
        trimmed(value).len() > 0 ==> router_address(Some(value)) == without_trailing(value, '/'),
        trimmed(value).len() == 0 ==> router_address(Some(value)) == router_address(None),
        router_address(None) == "https://router-api.0g.ai/v1"@,
{
    reveal_strlit("https://router-api.0g.ai/v1");
    assert("https://router-api.0g.ai/v1"@.last() == '1');
}

proof fn lemma_named_concat(a: Seq<JsonView>, b: Seq<JsonView>)
    ensures
        texts_of(a + b) == texts_of(a) + texts_of(b),
    decreases b.len(),
{
    if b.len() == 0 {
        assert(a + b =~= a);
        assert(texts_of(a) + texts_of(b) =~= texts_of(a));
    } else {
        lemma_named_concat(a, b.drop_last());
        assert((a + b).drop_last() =~= a + b.drop_last());
        assert(texts_of(a + b) =~= texts_of(a) + texts_of(b));
    }
}

/// A list of capabilities names its strings, each as it is and in order, and nothing else.
pub proof fn law_listed_capabilities_are_the_strings(
    a: Seq<JsonView>,
    b: Seq<JsonView>,
    item: JsonView,
    parameters: Option<Seq<Seq<char>>>,
)
    ensures
        ({
            let named = |items: Seq<JsonView>|
                raw_capabilities(Some(JsonView::Array(items)), parameters);
            &&& named(a + b) == named(a) + named(b)
            &&& item matches JsonView::Text(text) ==> named(seq![item]) == seq![text]
            &&& !(item is Text) ==> named(seq![item]).len() == 0
        }),
{
    lemma_named_concat(a, b);
    reveal_with_fuel(texts_of, 2);
    assert(seq![item].drop_last() =~= Seq::<JsonView>::empty());
    if let JsonView::Text(text) = item {
        assert(texts_of(seq![item]) =~= seq![text]);
    }
}

proof fn lemma_switched_concat(a: Seq<(Seq<char>, JsonView)>, b: Seq<(Seq<char>, JsonView)>)
    ensures
        switched_on(a + b) == switched_on(a) + switched_on(b),
    decreases b.len(),
{
    if b.len() == 0 {
        assert(a + b =~= a);
        assert(switched_on(a) + switched_on(b) =~= switched_on(a));
    } else {
        lemma_switched_concat(a, b.drop_last());
        assert((a + b).drop_last() =~= a + b.drop_last());
        assert(switched_on(a + b) =~= switched_on(a) + switched_on(b));
    }
}

/// An object of capabilities names the members that are `true`, in order, and nothing else.
pub proof fn law_switched_capabilities_are_the_true_ones(
    a: Seq<(Seq<char>, JsonView)>,
    b: Seq<(Seq<char>, JsonView)>,
    name: Seq<char>,
    value: JsonView,
    parameters: Option<Seq<Seq<char>>>,
)
    ensures
        ({
            let named = |members: Seq<(Seq<char>, JsonView)>|
                raw_capabilities(Some(JsonView::Object(members)), parameters);
            &&& named(a + b) == named(a) + named(b)
            &&& value == JsonView::Bool(true) ==> named(seq![(name, value)]) == seq![name]
            &&& value != JsonView::Bool(true) ==> named(seq![(name, value)]).len() == 0
        }),
{
    lemma_switched_concat(a, b);
    reveal_with_fuel(switched_on, 2);
    assert(seq![(name, value)].drop_last() =~= Seq::<(Seq<char>, JsonView)>::empty());
    if value == JsonView::Bool(true) {
        assert(switched_on(seq![(name, value)]) =~= seq![name]);
    }
}

/// Where the capabilities are neither a list nor an object, the supported parameters stand in
/// for them, where there are any.
pub proof fn law_parameters_stand_in_for_capabilities(
    capabilities: Option<JsonView>,
    parameters: Seq<Seq<char>>,
)
    requires
        capabilities matches Some(value) ==> !(value is Array) && !(value is Object),
    ensures
        raw_capabilities(capabilities, Some(parameters)) == parameters,
        raw_capabilities(capabilities, None).len() == 0,
{
}

/// A model of the service keeps what it says of itself; a name that is missing is its id, a
/// tier that is missing is standard, and a number that is missing is zero.
pub proof fn law_models_keep_what_they_say(
    raw: RawModel,
    prompt: Seq<char>,
    completion: Seq<char>,
)
    ensures
        ({
            let m = normalized(raw, prompt, completion);
            &&& m.id == raw.id@
            &&& raw.name matches Some(name) ==> m.name == name@
            &&& raw.name is None ==> m.name == raw.id@
            &&& raw.context_length matches Some(n) ==> m.context_length == n
            &&& raw.context_length is None ==> m.context_length == 0
            &&& raw.provider_count matches Some(n) ==> m.provider_count == n
            &&& raw.provider_count is None ==> m.provider_count == 0
            &&& raw.verifiability matches Some(tier) ==> m.verifiability == tier@
            &&& raw.verifiability is None ==> m.verifiability == "standard"@
            &&& m.prompt_price == prompt
            &&& m.completion_price == completion
        }),
{
}

/// The catalog has the models of the service that have an id, each with its own prices, in
/// order.
pub proof fn law_models_without_an_id_are_left_out(
    raws: Seq<RawModel>,
    raw: RawModel,
    prices: Seq<(String, String)>,
)
    ensures
        ({
            let price = prices[raws.len() as int];
            let more = if raw.id@.len() > 0 {
                seq![normalized(raw, price.0@, price.1@)]
            } else {
                Seq::empty()
            };
            catalog_views(raws.push(raw), prices) == catalog_views(raws, prices) + more
        }),
        catalog_views(Seq::empty(), prices).len() == 0,
{
    assert(raws.push(raw).drop_last() =~= raws);
    let price = prices[raws.len() as int];
    let before = catalog_views(raws, prices);
    if raw.id@.len() > 0 {
        assert(catalog_views(raws.push(raw), prices) =~= before + seq![
            normalized(raw, price.0@, price.1@),
        ]);
    } else {
        assert(before + Seq::<OgView>::empty() =~= before);
    }
}

/// What was fetched is the catalog, unless it is empty; where nothing could be fetched, the
/// cache is, where there is one; otherwise the stand-ins are. A cache is fresh for a minute.
pub proof fn law_the_catalog_is_the_freshest(fetched: Seq<OgView>, cached: Option<Seq<OgView>>)
    ensures
        fetched.len() > 0 ==> loaded(Some(fetched), cached) == fetched,
        fetched.len() == 0 ==> loaded(Some(fetched), cached) == fallback_catalog(),
        cached matches Some(models) ==> loaded(None, cached) == models,
        cached is None ==> loaded(None, cached) == fallback_catalog(),
        CACHE_TTL_SECS == 60,
{
}

/// The stand-ins are three models, one of each tier: a TeeML one for reasoning, and a TeeTLS and
/// a standard one for code.
pub proof fn law_the_stand_ins_are_of_every_tier()
    ensures
        ({
            let models = fallback_catalog();
            &&& models.len() == 3
            &&& models[0].id == "glm-5.2"@ && models[0].name == "GLM-5.2"@
            &&& models[0].context_length == 1_048_576 && models[0].provider_count == 3
            &&& models[0].capabilities == seq!["reasoning"@, "tools"@, "json"@]
            &&& models[0].verifiability == "TeeML"@
            &&& models[0].prompt_price == "0.00000483"@
            &&& models[0].completion_price == "0.00001612"@
            &&& models[1].id == "qwen-32b"@ && models[1].name == "Qwen 32B"@
            &&& models[1].context_length == 131_072 && models[1].provider_count == 4
            &&& models[1].capabilities == seq!["code"@, "tools"@, "json"@]
            &&& models[1].verifiability == "TeeTLS"@
            &&& models[1].prompt_price == "0.0000024"@
            &&& models[1].completion_price == "0.0000072"@
            &&& models[2].id == "deepseek-16b"@ && models[2].name == "DeepSeek 16B"@
            &&& models[2].context_length == 65_536 && models[2].provider_count == 5
            &&& models[2].capabilities == seq!["code"@, "json"@]
            &&& models[2].verifiability == "standard"@
            &&& models[2].prompt_price == "0.0000011"@
            &&& models[2].completion_price == "0.0000033"@
        }),
{
}

/// The capabilities are listed with commas; a model without any is general.
pub proof fn law_capabilities_are_listed(capabilities: Seq<Seq<char>>)
    ensures
        capabilities.len() == 0 ==> capability_list(capabilities) == "general"@,
        capabilities.len() > 0 ==> capability_list(capabilities) == joined(capabilities, ","@),
{
}

/// A model is described by its facts, each under its name, with semicolons between, and offered
/// under its id and name with medium effort alone.
pub proof fn law_models_are_described_by_their_facts(m: OgView)
    ensures
        description(m) == joined(
            seq![
                "capabilities="@ + capability_list(m.capabilities),
                "context="@ + decimal(m.context_length as int),
                "providers="@ + decimal(m.provider_count as int),
                "trust="@ + m.verifiability,
                "promptPrice="@ + m.prompt_price,
                "completionPrice="@ + m.completion_price,
            ],
            "; "@,
        ),
        offer(m).id == m.id,
        offer(m).label == m.name,
        offer(m).description == Some(description(m)),
        offer(m).reasoning_levels == seq![ReasoningLevel::Medium],
{
    let a = "capabilities="@ + capability_list(m.capabilities);
    let b = "context="@ + decimal(m.context_length as int);
    let c = "providers="@ + decimal(m.provider_count as int);
    let d = "trust="@ + m.verifiability;
    let e = "promptPrice="@ + m.prompt_price;
    let f = "completionPrice="@ + m.completion_price;
    lemma_semicolons();
    lemma_first_fact(a);
    let facts = seq![a];
    lemma_next_fact(facts, "context="@, decimal(m.context_length as int));
    let facts = facts.push(b);
    lemma_next_fact(facts, "providers="@, decimal(m.provider_count as int));
    let facts = facts.push(c);
    lemma_next_fact(facts, "trust="@, m.verifiability);
    let facts = facts.push(d);
    lemma_next_fact(facts, "promptPrice="@, m.prompt_price);
    let facts = facts.push(e);
    lemma_next_fact(facts, "completionPrice="@, m.completion_price);
    let facts = facts.push(f);
    assert(seq![a, b, c, d, e, f] =~= facts);
}

/// A fact alone is listed as it is.
pub proof fn lemma_first_fact(fact: Seq<char>)
    ensures
        joined(seq![fact], "; "@) == fact,
{
}

/// A fact more is listed behind a semicolon.
pub proof fn lemma_next_fact(facts: Seq<Seq<char>>, name: Seq<char>, value: Seq<char>)
    requires
        facts.len() > 0,
    ensures
        joined(facts.push(name + value), "; "@) == joined(facts, "; "@) + ("; "@ + name) + value,
{
    assert(facts.push(name + value).drop_last() =~= facts);
    assert(joined(facts, "; "@) + "; "@ + (name + value) =~= joined(facts, "; "@) + ("; "@ + name)
        + value);
}

/// The separator of the facts stands before each name but the first.
pub proof fn lemma_semicolons()
    ensures
        "; capabilities="@ == "; "@ + "capabilities="@,
        "; context="@ == "; "@ + "context="@,
        "; providers="@ == "; "@ + "providers="@,
        "; trust="@ == "; "@ + "trust="@,
        "; promptPrice="@ == "; "@ + "promptPrice="@,
        "; completionPrice="@ == "; "@ + "completionPrice="@,
{
    reveal_strlit("; ");
    reveal_strlit("; capabilities=");
    reveal_strlit("capabilities=");
    reveal_strlit("; context=");
    reveal_strlit("context=");
    reveal_strlit("; providers=");
    reveal_strlit("providers=");
    reveal_strlit("; trust=");
    reveal_strlit("trust=");
    reveal_strlit("; promptPrice=");
    reveal_strlit("promptPrice=");
    reveal_strlit("; completionPrice=");
    reveal_strlit("completionPrice=");
    assert("; capabilities="@ =~= "; "@ + "capabilities="@);
    assert("; context="@ =~= "; "@ + "context="@);
    assert("; providers="@ =~= "; "@ + "providers="@);
    assert("; trust="@ =~= "; "@ + "trust="@);
    assert("; promptPrice="@ =~= "; "@ + "promptPrice="@);
    assert("; completionPrice="@ =~= "; "@ + "completionPrice="@);
}

/// A list of words is in a text where one of them is: the first or one of the others, and an
/// empty list never is.
pub proof fn law_any_word_counts(value: Seq<char>, word: Seq<char>, others: Seq<Seq<char>>)
    ensures
        has_any(value, seq![word] + others) <==> has_part(value, word) || has_any(value, others),
        !has_any(value, Seq::empty()),
{
    let all = seq![word] + others;
    if has_any(value, all) {
        let i = choose|i: int| 0 <= i < all.len() && has_part(value, #[trigger] all[i]);
        if i > 0 {
            assert(others[i - 1] == all[i]);
        }
    }
    if has_part(value, word) {
        assert(all[0] == word);
    }
    if has_any(value, others) {
        let i = choose|i: int| 0 <= i < others.len() && has_part(value, #[trigger] others[i]);
        assert(all[i + 1] == others[i]);
    }
}

/// A ranking lists every place once, by falling keys, and places with the same key as they
/// stand.
pub proof fn law_rankings_descend(order: Seq<int>, keys: Seq<i64>)
    requires
        is_ranking(order, keys),
    ensures
        order.len() == keys.len(),
        order.no_duplicates(),
        forall|x: int| 0 <= x < keys.len() ==> #[trigger] order.contains(x),
        forall|i: int, j: int|
            #![trigger order[i], order[j]]
            0 <= i < j < order.len() ==> keys[order[i]] >= keys[order[j]] && (keys[order[i]]
                == keys[order[j]] ==> order[i] < order[j]),
{
    assert forall|i: int, j: int|
        #![trigger order[i], order[j]]
        0 <= i < j < order.len() implies keys[order[i]] >= keys[order[j]] && (keys[order[i]]
        == keys[order[j]] ==> order[i] < order[j]) by {
        assert(precedes(keys, order[i], order[j]));
    }
    assert forall|i: int, j: int|
        0 <= i < order.len() && 0 <= j < order.len() && i != j implies order[i] != order[j] by {
        if i < j {
            assert(precedes(keys, order[i], order[j]));
        } else {
            assert(precedes(keys, order[j], order[i]));
        }
    }
}

/// A model stands for what it says of itself.
pub proof fn law_models_stand_for_what_they_say(m: OgModel)
    ensures
        m@.id == m.id@,
        m@.name == m.name@,
        m@.context_length == m.context_length,
        m@.provider_count == m.provider_count,
        m@.capabilities == views(m.capabilities@),
        m@.verifiability == m.verifiability@,
        m@.prompt_price == m.prompt_price@,
        m@.completion_price == m.completion_price@,
{
}

/// Models are listed one for one.
pub proof fn law_og_views_are_one_for_one(s: Seq<OgModel>, i: int)
    ensures
        og_views(s).len() == s.len(),
        0 <= i < s.len() ==> og_views(s)[i] == s[i]@,
{
}

}
