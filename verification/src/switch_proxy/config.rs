//! What the proxy is configured with.
use std::sync::Arc;
use vstd::prelude::*;
use crate::handlers::admission::Targets;
use crate::load_balancer::ProviderPool;
use crate::names::NameMap;
use crate::span::Span;
use crate::switch_proxy::policy::FifoPolicy;
use crate::target;
use crate::target::{ConnectionTable, LoadBalanceStrategy, RoutingRule, Target, TargetUrl};
use crate::text;

verus! {

/// One model and the server that serves it.
#[derive(Debug)]
pub struct ModelConfig {
    /// The identifier or the path of the model.
    pub model_path: String,
    /// The port of its server.
    pub port: u16,
    /// The share of the memory that the server may use, as it is written on a command line.
    pub gpu_memory_utilization: String,
    /// The number of devices that the model is spread over.
    pub tensor_parallel_size: usize,
    /// The data type of the weights.
    pub dtype: String,
    /// More arguments for the server.
    pub extra_args: Vec<String>,
    /// How deeply the model sleeps.
    pub sleep_level: u8,
}

/// The number of devices where none is configured.
pub fn default_tensor_parallel_size() -> (size: usize)
    ensures
        size == 1,
{
    1
}

/// The data type where none is configured.
pub fn default_dtype() -> (dtype: String)
    ensures
        dtype@ == "auto"@,
{
    "auto".to_owned()
}

/// The sleep level where none is configured.
pub fn default_sleep_level() -> (level: u8)
    ensures
        level == 1,
{
    1
}

impl ModelConfig {
    /// The arguments that start the server.
    pub open spec fn arguments(self) -> Seq<Seq<char>> {
        seq![
            "serve"@,
            self.model_path@,
            "--port"@,
            text::numeral(self.port as nat),
            "--gpu-memory-utilization"@,
            self.gpu_memory_utilization@,
            "--tensor-parallel-size"@,
            text::numeral(self.tensor_parallel_size as nat),
            "--dtype"@,
            self.dtype@,
            "--enable-sleep-mode"@,
        ] + text::texts(self.extra_args@)
    }

    /// The arguments that start the server.
    pub fn vllm_args(&self) -> (args: Vec<String>)
        ensures
            text::texts(args@) == self.arguments(),
    {
        let mut args: Vec<String> = Vec::new();
        args.push("serve".to_owned());
        args.push(self.model_path.clone());
        args.push("--port".to_owned());
        args.push(text::decimal(self.port as u64));
        args.push("--gpu-memory-utilization".to_owned());
        args.push(self.gpu_memory_utilization.clone());
        args.push("--tensor-parallel-size".to_owned());
        args.push(text::decimal(self.tensor_parallel_size as u64));
        args.push("--dtype".to_owned());
        args.push(self.dtype.clone());
        args.push("--enable-sleep-mode".to_owned());
        let ghost fixed = args@;
        let mut i: usize = 0;
        assert(self.extra_args@.take(0) =~= Seq::empty());
        assert(text::texts(args@) =~= text::texts(fixed) + text::texts(self.extra_args@.take(0)));
        while i < self.extra_args.len()
            invariant
                i <= self.extra_args.len(),
                text::texts(args@) == text::texts(fixed) + text::texts(self.extra_args@.take(i as int)),
            decreases self.extra_args.len() - i,
        {
            let ghost before = args@;
            args.push(self.extra_args[i].clone());
            assert(text::texts(args@) =~= text::texts(before).push(self.extra_args@[i as int]@));
            assert(text::texts(self.extra_args@.take(i + 1)) =~= text::texts(
                self.extra_args@.take(i as int),
            ).push(self.extra_args@[i as int]@));
            i = i + 1;
        }
        proof {
            assert(self.extra_args@.take(self.extra_args@.len() as int) == self.extra_args@);
            assert(text::texts(args@) =~= self.arguments());
        }
        args
    }
}

/// When models are switched.
#[derive(Debug)]
pub struct PolicyConfig {
    /// The kind of policy; there is one, `fifo`.
    pub policy_type: String,
    /// Seconds that a request waits at most.
    pub request_timeout_secs: u64,
    /// Whether requests are finished before the switch.
    pub drain_before_switch: bool,
    /// How deeply models are put to sleep.
    pub sleep_level: u8,
}

impl Default for PolicyConfig {
    /// The policy where none is configured.
    fn default() -> (config: PolicyConfig)
        ensures
            config.policy_type@ == "fifo"@,
            config.request_timeout_secs == 60,
            config.drain_before_switch,
            config.sleep_level == 1,
    {
        PolicyConfig {
            policy_type: default_policy_type(),
            request_timeout_secs: default_request_timeout(),
            drain_before_switch: default_drain_before_switch(),
            sleep_level: default_sleep_level(),
        }
    }
}

/// The kind of policy where a policy is configured without one.
pub fn default_policy_type() -> (kind: String)
    ensures
        kind@ == "fifo"@,
{
    "fifo".to_owned()
}

/// The timeout where a policy is configured without one.
pub fn default_request_timeout() -> (secs: u64)
    ensures
        secs == 60,
{
    60
}

/// Whether requests are finished where a policy is configured that does not say.
pub fn default_drain_before_switch() -> (drain: bool)
    ensures
        drain,
{
    true
}

impl PolicyConfig {
    /// The policy that is configured. Every kind is `fifo`.
    pub fn build_policy(&self) -> (policy: FifoPolicy)
        ensures
            policy == (FifoPolicy {
                level: self.sleep_level,
                timeout: Span::secs(self.request_timeout_secs),
                drain: self.drain_before_switch,
            }),
    {
        FifoPolicy::new(
            self.sleep_level,
            Span::from_secs(self.request_timeout_secs),
            self.drain_before_switch,
        )
    }
}

/// What the proxy is configured with.
pub struct Config {
    pub models: NameMap<ModelConfig>,
    pub policy: PolicyConfig,
    /// The port that the proxy listens on.
    pub port: u16,
    /// The port that metrics are served on.
    pub metrics_port: u16,
    /// The command that starts a server.
    pub vllm_command: String,
}

/// The port that the proxy listens on where none is configured.
pub fn default_port() -> (port: u16)
    ensures
        port == 3000,
{
    3000
}

/// The port that metrics are served on where none is configured.
pub fn default_metrics_port() -> (port: u16)
    ensures
        port == 9090,
{
    9090
}

/// The command that starts a server where none is configured.
pub fn default_vllm_command() -> (command: String)
    ensures
        command@ == "vllm"@,
{
    "vllm".to_owned()
}

/// Where the server on a port of this machine is.
pub open spec fn local_address(port: u16) -> Seq<char> {
    "http://localhost:"@ + text::numeral(port as nat)
}

/// Whether a pool holds the server on a port of this machine, and nothing else.
pub open spec fn serves_locally(pool: ProviderPool, port: u16) -> bool {
    &&& pool.all().len() == 1
    &&& pool.all()[0].target.url.source_text() == local_address(port)
    &&& target::parsed_url(local_address(port)) == Some(
        (pool.all()[0].target.url.text(), pool.all()[0].target.url.path_text()),
    )
    &&& pool.all()[0].target.onwards_key is None
    &&& pool.all()[0].target.onwards_model is None
    &&& pool.all()[0].target.limiter is None
    &&& pool.all()[0].target.upstream_auth_header_name is None
    &&& pool.all()[0].target.upstream_auth_header_prefix is None
    &&& pool.all()[0].target.response_headers is None
    &&& !pool.all()[0].target.sanitize_response
    &&& pool.all()[0].weight == 1
    &&& pool.all()[0].limiter.limit_set() is None
    &&& pool.key_set() is None
    &&& pool.rate_limit() is None
    &&& pool.concurrency_limit() is None
    &&& pool.retry_rules() is None
    &&& pool.chosen_by() == LoadBalanceStrategy::WeightedRandom
    &&& pool.rules() == Seq::<RoutingRule>::empty()
}

/// Whether the counts in a table are kept, and others have joined them.
pub open spec fn extends(before: Seq<usize>, after: Seq<usize>) -> bool {
    &&& before.len() <= after.len()
    &&& forall|i: int| 0 <= i < before.len() ==> after[i] == before[i]
}

impl Config {
    /// The pools behind the proxy: one for each model, which holds its server.
    pub fn build_onwards_targets(&self, table: &mut ConnectionTable) -> (targets: Result<Targets, String>)
        ensures
            extends(old(table)@, final(table)@),
            match targets {
                Ok(t) => {
                    &&& t.targets@.dom() == self.models@.dom()
                    &&& forall|n: Seq<char>| #[trigger]
                        t.targets@.dom().contains(n) ==> serves_locally(
                            *t.targets@[n],
                            self.models@[n].port,
                        ) && t.targets@[n].counted_in(*final(table))
                    &&& t.key_labels@.dom() == Set::<Seq<char>>::empty()
                    &&& t.key_rate_limiters@.dom() == Set::<Seq<char>>::empty()
                    &&& t.key_concurrency_limiters@.dom() == Set::<Seq<char>>::empty()
                    &&& !t.strict_mode
                },
                Err(message) => exists|n: Seq<char>|
                    {
                        &&& #[trigger] self.models@.dom().contains(n)
                        &&& target::parsed_url(local_address(self.models@[n].port)) is None
                        &&& message@ == "Invalid URL for model "@ + n
                    },
            },
    {
        let names = self.models.names();
        let mut pools: NameMap<Arc<ProviderPool>> = NameMap::new();
        let mut i: usize = 0;
        while i < names.len()
            invariant
                i <= names.len(),
                extends(old(table)@, table@),
                forall|n: Seq<char>|
                    self.models@.dom().contains(n) <==> exists|j: int|
                        0 <= j < names.len() && (#[trigger] names@[j])@ == n,
                forall|n: Seq<char>|
                    pools@.dom().contains(n) <==> exists|j: int|
                        0 <= j < i && (#[trigger] names@[j])@ == n,
                forall|n: Seq<char>| #[trigger]
                    pools@.dom().contains(n) ==> serves_locally(*pools@[n], self.models@[n].port)
                        && pools@[n].counted_in(*table),
            decreases names.len() - i,
        {
            let name = names[i].as_str();
            assert(names@[i as int]@ == name@);
            assert(self.models@.dom().contains(name@));
            if let Some(config) = self.models.get(name) {
                let address = "http://localhost:".to_owned().concat(
                    text::decimal(config.port as u64).as_str(),
                );
                match TargetUrl::parse(address.as_str()) {
                    Some(url) => {
                        let pool = ProviderPool::single(table, Target::new(url), 1);
                        pools.insert(name, Arc::new(pool));
                    },
                    None => {
                        return Err("Invalid URL for model ".to_owned().concat(name));
                    },
                }
            }
            i = i + 1;
        }
        assert(pools@.dom() =~= self.models@.dom());
        Ok(
            Targets {
                targets: pools,
                key_labels: NameMap::new(),
                key_rate_limiters: NameMap::new(),
                key_concurrency_limiters: NameMap::new(),
                strict_mode: false,
            },
        )
    }
}

/// A server is started with its model and told the port, its share of the memory, how many devices it
/// spreads over and the number format, each behind its own option, and that it may sleep; what else is
/// configured follows as it is.
pub proof fn law_arguments_of_a_server(config: ModelConfig, i: int)
    ensures
        ({
            let all = config.arguments();
            let extra = config.extra_args@;
            &&& all.len() == 11 + extra.len()
            &&& all[0] == "serve"@
            &&& all[1] == config.model_path@
            &&& exists|k: int|
                0 <= k < 10 && #[trigger] all[k] == "--port"@ && all[k + 1] == text::numeral(
                    config.port as nat,
                )
            &&& exists|k: int|
                0 <= k < 10 && #[trigger] all[k] == "--gpu-memory-utilization"@ && all[k + 1]
                    == config.gpu_memory_utilization@
            &&& exists|k: int|
                0 <= k < 10 && #[trigger] all[k] == "--tensor-parallel-size"@ && all[k + 1]
                    == text::numeral(config.tensor_parallel_size as nat)
            &&& exists|k: int|
                0 <= k < 10 && #[trigger] all[k] == "--dtype"@ && all[k + 1] == config.dtype@
            &&& exists|k: int| 0 <= k < 11 && #[trigger] all[k] == "--enable-sleep-mode"@
            &&& 0 <= i < extra.len() ==> all[11 + i] == extra[i]@
        }),
{
    let all = config.arguments();
    assert(all[2] == "--port"@ && all[3] == text::numeral(config.port as nat));
    assert(all[4] == "--gpu-memory-utilization"@ && all[5] == config.gpu_memory_utilization@);
    assert(all[6] == "--tensor-parallel-size"@ && all[7] == text::numeral(
        config.tensor_parallel_size as nat,
    ));
    assert(all[8] == "--dtype"@ && all[9] == config.dtype@);
    assert(all[10] == "--enable-sleep-mode"@);
}

/// A server on this machine is found at its port, and a pool that stands for it has it as its only
/// upstream, asks for no key, and limits nothing.
pub proof fn law_local_servers(pool: ProviderPool, port: u16, other: u16)
    ensures
        text::begins_with(local_address(port), "http://localhost:"@),
        text::after_prefix(local_address(port), "http://localhost:"@) == Some(
            text::numeral(port as nat),
        ),
        local_address(port) == local_address(other) ==> port == other,
        serves_locally(pool, port) ==> {
            &&& pool.all().len() == 1
            &&& pool.all()[0].target.url.source_text() == local_address(port)
            &&& pool.key_set() is None
            &&& pool.rate_limit() is None
            &&& pool.concurrency_limit() is None
            &&& pool.all()[0].target.onwards_model is None
            &&& pool.all()[0].target.onwards_key is None
        },
{
    text::law_prefix_and_suffix(
        local_address(port),
        "http://localhost:"@,
        text::numeral(port as nat),
    );
    text::law_prefix_and_suffix(
        local_address(other),
        "http://localhost:"@,
        text::numeral(other as nat),
    );
    text::law_numeral_spells_number(port as nat);
    text::law_numeral_spells_number(other as nat);
}

/// Counts that are there stay as they are when others are added.
pub proof fn law_counts_are_kept(before: Seq<usize>, more: Seq<usize>, after: Seq<usize>, i: int)
    ensures
        extends(before, before + more),
        extends(before, after) && 0 <= i < before.len() ==> i < after.len() && after[i] == before[i],
{
}

} // verus!
