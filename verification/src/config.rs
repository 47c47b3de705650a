//! Service configuration: the closed set of networks with their explorer
//! endpoints, and the typed configuration assembled from environment values.
//!
//! Reading the environment itself is left to the caller; every decision on
//! what the values mean is made, and specified, here.

use vstd::prelude::*;
use crate::text::chars_of;
use crate::text::dec_val;
use crate::text::is_dec_string;
use crate::text::lower_chars;
use crate::text::lower_text;
use crate::text::parse_usize_digits;
use crate::text::push_all;
use crate::text::string_of;
use crate::text::trim_chars;
use crate::text::trim_leading;
use crate::text::trim_leading_chars;
use crate::text::trim_trailing;
use crate::text::trim_trailing_chars;
use crate::text::trimmed;
use crate::text::matches_lit;

verus! {

/// The networks the service can serve.
#[derive(Clone, Copy, PartialEq, Eq, Debug, Structural)]
pub enum Network {
    Mainnet,
    Testnet,
    Canary,
}

impl Network {
    /// The explorer API base for this network.
    pub open spec fn base_url_text(self) -> Seq<char> {
        match self {
            Network::Mainnet => "https://api.explorer.provable.com/v2/mainnet"@,
            Network::Testnet => "https://api.explorer.provable.com/v2/testnet"@,
            Network::Canary => "https://api.explorer.provable.com/v2/canary"@,
        }
    }

    /// The lowercase name of this network, as responses report it.
    pub open spec fn name_text(self) -> Seq<char> {
        match self {
            Network::Mainnet => "mainnet"@,
            Network::Testnet => "testnet"@,
            Network::Canary => "canary"@,
        }
    }

    /// An endpoint under the API base: the base without its trailing
    /// slashes, one slash, and the path without its leading slashes.
    pub open spec fn endpoint_text(self, path: Seq<char>) -> Seq<char> {
        trim_trailing(self.base_url_text(), '/') + seq!['/'] + trim_leading(path, '/')
    }

    /// Where transactions for this network are broadcast.
    pub open spec fn broadcast_endpoint_text(self) -> Seq<char> {
        self.endpoint_text("transaction/broadcast"@)
    }

    /// The REST root shared by all explorer environments.
    pub open spec fn rest_base_text(self) -> Seq<char> {
        "https://api.explorer.provable.com"@
    }

    pub fn base_url(self) -> (r: &'static str)
        ensures
            r@ == self.base_url_text(),
    {
        match self {
            Network::Mainnet => "https://api.explorer.provable.com/v2/mainnet",
            Network::Testnet => "https://api.explorer.provable.com/v2/testnet",
            Network::Canary => "https://api.explorer.provable.com/v2/canary",
        }
    }

    /// The lowercase name of this network.
    pub fn name(self) -> (r: &'static str)
        ensures
            r@ == self.name_text(),
    {
        match self {
            Network::Mainnet => "mainnet",
            Network::Testnet => "testnet",
            Network::Canary => "canary",
        }
    }

    pub fn endpoint(self, path: &str) -> (r: String)
        ensures
            r@ == self.endpoint_text(path@),
    {
        let base = chars_of(self.base_url());
        let mut out = trim_trailing_chars(&base, '/');
        out.push('/');
        let p = chars_of(path);
        let tail = trim_leading_chars(&p, '/');
        push_all(&mut out, &tail);
        proof {
            assert(out@ =~= self.endpoint_text(path@));
        }
        string_of(&out)
    }

    /// Whether a `check_transaction=true` query parameter is attached here
    /// is a deployment decision; this build broadcasts without it.
    pub fn broadcast_endpoint(self) -> (r: String)
        ensures
            r@ == self.broadcast_endpoint_text(),
    {
        self.endpoint("transaction/broadcast")
    }

    /// All explorer environments currently share the same REST root; adjust
    /// this match alongside `base_url` if that ever changes.
    pub fn rest_base_url(self) -> (r: String)
        ensures
            r@ == self.rest_base_text(),
    {
        match self {
            Network::Mainnet | Network::Testnet | Network::Canary => {
                "https://api.explorer.provable.com".to_owned()
            },
        }
    }
}

/// The network a lowercase token names, if any.
pub open spec fn network_token(s: Seq<char>) -> Option<Network> {
    if s == "mainnet"@ {
        Some(Network::Mainnet)
    } else if s == "testnet"@ {
        Some(Network::Testnet)
    } else if s == "canary"@ {
        Some(Network::Canary)
    } else {
        None
    }
}

/// How a network name is read: surrounding whitespace is ignored and case
/// does not matter.
pub open spec fn parse_network_spec(s: Seq<char>) -> Option<Network> {
    network_token(lower_text(trimmed(s)))
}

/// Reads a network name; `None` on anything but the three known names.
pub fn parse_network(s: &str) -> (r: Option<Network>)
    ensures
        r == parse_network_spec(s@),
{
    let cs = chars_of(s);
    let t = trim_chars(&cs);
    let l = lower_chars(&t);
    if matches_lit(&l, "mainnet") {
        Some(Network::Mainnet)
    } else if matches_lit(&l, "testnet") {
        Some(Network::Testnet)
    } else if matches_lit(&l, "canary") {
        Some(Network::Canary)
    } else {
        None
    }
}

/// The boolean a lowercase token names, if any.
pub open spec fn bool_token(s: Seq<char>) -> Option<bool> {
    if s == "1"@ || s == "true"@ || s == "yes"@ || s == "on"@ {
        Some(true)
    } else if s == "0"@ || s == "false"@ || s == "no"@ || s == "off"@ {
        Some(false)
    } else {
        None
    }
}

/// How a flag is read: surrounding whitespace is ignored and case does not
/// matter.
pub open spec fn parse_bool_spec(s: Seq<char>) -> Option<bool> {
    bool_token(lower_text(trimmed(s)))
}

/// Reads a flag; `None` on anything but the eight known tokens.
pub fn parse_bool(input: &str) -> (r: Option<bool>)
    ensures
        r == parse_bool_spec(input@),
{
    let cs = chars_of(input);
    let t = trim_chars(&cs);
    let l = lower_chars(&t);
    if matches_lit(&l, "1") || matches_lit(&l, "true") || matches_lit(&l, "yes")
        || matches_lit(&l, "on") {
        Some(true)
    } else if matches_lit(&l, "0") || matches_lit(&l, "false") || matches_lit(&l, "no")
        || matches_lit(&l, "off") {
        Some(false)
    } else {
        None
    }
}

/// The configuration the service runs under.
pub struct ProverConfig {
    listen_addr: String,
    max_concurrent_proofs: usize,
    network: Network,
    enforce_program_editions: bool,
    rest_endpoint_override: Option<String>,
}

/// The mathematical content of a configuration.
pub struct ConfigView {
    pub listen_addr: Seq<char>,
    pub max_concurrent_proofs: int,
    pub network: Network,
    pub enforce_program_editions: bool,
    pub rest_endpoint_override: Option<Seq<char>>,
}

impl View for ProverConfig {
    type V = ConfigView;

    closed spec fn view(&self) -> ConfigView {
        ConfigView {
            listen_addr: self.listen_addr@,
            max_concurrent_proofs: self.max_concurrent_proofs as int,
            network: self.network,
            enforce_program_editions: self.enforce_program_editions,
            rest_endpoint_override: match self.rest_endpoint_override {
                Some(s) => Some(s@),
                None => None,
            },
        }
    }
}

/// The address the service listens on when the environment names none.
pub open spec fn default_listen_addr() -> Seq<char> {
    "0.0.0.0:3030"@
}

/// The concurrency cap when the environment names none: the host's
/// parallelism, floored at one worker.
pub open spec fn default_concurrency(parallelism: usize) -> int {
    if parallelism == 0 {
        1
    } else {
        parallelism as int
    }
}

/// The configuration before any environment value is applied.
pub open spec fn default_config_view(parallelism: usize) -> ConfigView {
    ConfigView {
        listen_addr: default_listen_addr(),
        max_concurrent_proofs: default_concurrency(parallelism),
        network: Network::Testnet,
        enforce_program_editions: true,
        rest_endpoint_override: None,
    }
}

/// The environment values the configuration is read from. The caller reads
/// each variable and, for the listen address, says whether the host's
/// socket-address parser accepts it.
pub struct EnvSettings {
    /// `PROVER_LISTEN_ADDR`, when set.
    pub listen_addr: Option<String>,
    /// Whether the given listen address parses as a socket address.
    pub listen_addr_valid: bool,
    /// `MAX_CONCURRENT_PROOFS`, when set.
    pub max_concurrent_proofs: Option<String>,
    /// `NETWORK`, when set.
    pub network: Option<String>,
    /// `ENFORCE_PROGRAM_EDITIONS`, when set.
    pub enforce_program_editions: Option<String>,
    /// `REST_ENDPOINT_OVERRIDE`, when set.
    pub rest_endpoint_override: Option<String>,
}

/// What a full set of environment values means: each recognized value
/// overrides its default; an unrecognized one leaves the default standing.
pub open spec fn env_config_view(env: EnvSettings, parallelism: usize) -> ConfigView {
    ConfigView {
        listen_addr: match env.listen_addr {
            Some(a) => if env.listen_addr_valid {
                a@
            } else {
                default_listen_addr()
            },
            None => default_listen_addr(),
        },
        max_concurrent_proofs: match env.max_concurrent_proofs {
            Some(s) => if is_dec_string(s@) && dec_val(s@) >= 1 && dec_val(s@) <= usize::MAX {
                dec_val(s@) as int
            } else {
                default_concurrency(parallelism)
            },
            None => default_concurrency(parallelism),
        },
        network: match env.network {
            Some(s) => match parse_network_spec(s@) {
                Some(n) => n,
                None => Network::Testnet,
            },
            None => Network::Testnet,
        },
        enforce_program_editions: match env.enforce_program_editions {
            Some(s) => match parse_bool_spec(s@) {
                Some(b) => b,
                None => true,
            },
            None => true,
        },
        rest_endpoint_override: match env.rest_endpoint_override {
            Some(s) => if trimmed(s@).len() > 0 {
                Some(s@)
            } else {
                None
            },
            None => None,
        },
    }
}

impl ProverConfig {
    /// A usable configuration never admits zero concurrent proofs.
    pub open spec fn wf(&self) -> bool {
        self@.max_concurrent_proofs >= 1
    }

    /// The configuration with every default, sized to the host's
    /// parallelism.
    pub fn new_default(parallelism: usize) -> (r: ProverConfig)
        ensures
            r@ == default_config_view(parallelism),
            r.wf(),
    {
        ProverConfig {
            listen_addr: "0.0.0.0:3030".to_owned(),
            max_concurrent_proofs: if parallelism == 0 { 1 } else { parallelism },
            network: Network::Testnet,
            enforce_program_editions: true,
            rest_endpoint_override: None,
        }
    }

    /// Applies the environment to the defaults. An unset or unrecognized
    /// value never aborts startup; the default stands.
    pub fn from_env_values(env: EnvSettings, parallelism: usize) -> (r: ProverConfig)
        ensures
            r@ == env_config_view(env, parallelism),
            r.wf(),
    {
        let mut config = Self::new_default(parallelism);
        match &env.listen_addr {
            Some(addr) => {
                if env.listen_addr_valid {
                    config.listen_addr = addr.clone();
                }
            },
            None => {},
        }
        match &env.max_concurrent_proofs {
            Some(limit) => {
                match parse_usize_digits(limit.as_str()) {
                    Some(value) => {
                        if value > 0 {
                            config.max_concurrent_proofs = value;
                        }
                    },
                    None => {},
                }
            },
            None => {},
        }
        match &env.network {
            Some(name) => {
                match parse_network(name.as_str()) {
                    Some(target) => {
                        config.network = target;
                    },
                    None => {},
                }
            },
            None => {},
        }
        match &env.enforce_program_editions {
            Some(flag) => {
                match parse_bool(flag.as_str()) {
                    Some(value) => {
                        config.enforce_program_editions = value;
                    },
                    None => {},
                }
            },
            None => {},
        }
        match &env.rest_endpoint_override {
            Some(endpoint) => {
                let cs = chars_of(endpoint.as_str());
                let t = trim_chars(&cs);
                if t.len() > 0 {
                    config.rest_endpoint_override = Some(endpoint.clone());
                }
            },
            None => {},
        }
        config
    }

    pub fn listen_addr(&self) -> (r: &str)
        ensures
            r@ == self@.listen_addr,
    {
        self.listen_addr.as_str()
    }

    pub fn max_concurrent_proofs(&self) -> (r: usize)
        ensures
            r as int == self@.max_concurrent_proofs,
    {
        self.max_concurrent_proofs
    }

    pub fn broadcast_endpoint(&self) -> (r: String)
        ensures
            r@ == self@.network.broadcast_endpoint_text(),
    {
        self.network.broadcast_endpoint()
    }

    pub fn network(&self) -> (r: Network)
        ensures
            r == self@.network,
    {
        self.network
    }

    pub fn api_base(&self) -> (r: &'static str)
        ensures
            r@ == self@.network.base_url_text(),
    {
        self.network.base_url()
    }

    pub fn enforce_program_editions(&self) -> (r: bool)
        ensures
            r == self@.enforce_program_editions,
    {
        self.enforce_program_editions
    }

    pub fn with_enforce_program_editions(self, enforce: bool) -> (r: ProverConfig)
        ensures
            r@ == (ConfigView { enforce_program_editions: enforce, ..self@ }),
    {
        ProverConfig { enforce_program_editions: enforce, ..self }
    }

    /// The REST endpoint proving queries go to: the override when one is
    /// set, else the network's REST root.
    pub fn rest_endpoint_for(&self, network: Network) -> (r: String)
        ensures
            r@ == match self@.rest_endpoint_override {
                Some(o) => o,
                None => network.rest_base_text(),
            },
    {
        match &self.rest_endpoint_override {
            Some(endpoint) => endpoint.clone(),
            None => network.rest_base_url(),
        }
    }

    pub fn with_rest_endpoint_override(self, endpoint: String) -> (r: ProverConfig)
        ensures
            r@ == (ConfigView { rest_endpoint_override: Some(endpoint@), ..self@ }),
    {
        ProverConfig { rest_endpoint_override: Some(endpoint), ..self }
    }
}

} // verus!
