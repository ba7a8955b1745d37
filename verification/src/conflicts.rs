//! Commit-Boost configuration checks: unique module identifiers, no
//! incompatible module pairs, and no port used twice.

use vstd::prelude::*;
use crate::text::{decimal, str_eq, u64_to_decimal};

verus! {

/// A module of the configuration, by identifier.
#[derive(Debug)]
pub struct StaticModuleConfig {
    pub id: String,
}

/// PBS service settings the checks read.
#[derive(Debug, Clone, Copy)]
pub struct PbsConfig {
    pub port: u16,
}

/// PBS module settings.
#[derive(Debug, Clone, Copy)]
pub struct StaticPbsConfig {
    pub pbs_config: PbsConfig,
}

/// Signer service settings the checks read.
#[derive(Debug, Clone, Copy)]
pub struct SignerConfig {
    pub port: u16,
}

/// Metrics service settings the checks read.
#[derive(Debug, Clone, Copy)]
pub struct MetricsConfig {
    pub start_port: u16,
}

/// The parts of a Commit-Boost configuration that can conflict.
#[derive(Debug)]
pub struct CommitBoostConfig {
    pub modules: Option<Vec<StaticModuleConfig>>,
    pub pbs: StaticPbsConfig,
    pub signer: Option<SignerConfig>,
    pub metrics: Option<MetricsConfig>,
}

/// The known incompatible pairs, in either order.
pub open spec fn incompatible_spec(a: Seq<char>, b: Seq<char>) -> bool {
    ||| (a == "pbs_relay_a"@ && b == "pbs_relay_b"@) || (a == "pbs_relay_b"@ && b == "pbs_relay_a"@)
    ||| (a == "custom_pbs"@ && b == "pbs"@) || (a == "pbs"@ && b == "custom_pbs"@)
    ||| (a == "duplicate_signer"@ && b == "signer"@) || (a == "signer"@ && b == "duplicate_signer"@)
}

/// Whether two modules are known not to work together.
pub fn is_incompatible(module_a: &str, module_b: &str) -> (incompatible: bool)
    ensures
        incompatible == incompatible_spec(module_a@, module_b@),
{
    (str_eq(module_a, "pbs_relay_a") && str_eq(module_b, "pbs_relay_b"))
        || (str_eq(module_a, "pbs_relay_b") && str_eq(module_b, "pbs_relay_a"))
        || (str_eq(module_a, "custom_pbs") && str_eq(module_b, "pbs"))
        || (str_eq(module_a, "pbs") && str_eq(module_b, "custom_pbs"))
        || (str_eq(module_a, "duplicate_signer") && str_eq(module_b, "signer"))
        || (str_eq(module_a, "signer") && str_eq(module_b, "duplicate_signer"))
}

/// Incompatibility does not depend on the order of the two modules.
pub proof fn law_incompatibility_symmetric(a: Seq<char>, b: Seq<char>)
    ensures
        incompatible_spec(a, b) == incompatible_spec(b, a),
{
}

/// The documented incompatible pairs are `pbs_relay_a` with `pbs_relay_b`,
/// `custom_pbs` with `pbs`, and `duplicate_signer` with `signer`: each of
/// them is incompatible in either order.
pub proof fn law_documented_incompatible_pairs()
    ensures
        incompatible_spec("pbs_relay_a"@, "pbs_relay_b"@),
        incompatible_spec("pbs_relay_b"@, "pbs_relay_a"@),
        incompatible_spec("custom_pbs"@, "pbs"@),
        incompatible_spec("pbs"@, "custom_pbs"@),
        incompatible_spec("duplicate_signer"@, "signer"@),
        incompatible_spec("signer"@, "duplicate_signer"@),
{
}

/// No module is incompatible with itself, so a pair is only ever two
/// different modules.
pub proof fn law_incompatible_modules_differ(a: Seq<char>)
    ensures
        !incompatible_spec(a, a),
{
    reveal_strlit("pbs_relay_a");
    reveal_strlit("pbs_relay_b");
    reveal_strlit("custom_pbs");
    reveal_strlit("pbs");
    reveal_strlit("duplicate_signer");
    reveal_strlit("signer");
    if a == "pbs_relay_a"@ {
        assert("pbs_relay_a"@[10] != "pbs_relay_b"@[10]);
    }
    if a == "custom_pbs"@ {
        assert("custom_pbs"@.len() != "pbs"@.len());
    }
    if a == "duplicate_signer"@ {
        assert("duplicate_signer"@.len() != "signer"@.len());
    }
}

/// The identifiers of the modules.
pub open spec fn module_ids(modules: Seq<StaticModuleConfig>) -> Seq<Seq<char>> {
    modules.map_values(|m: StaticModuleConfig| m.id@)
}

/// The module identifiers of a configuration.
pub open spec fn config_ids(config: CommitBoostConfig) -> Seq<Seq<char>> {
    match config.modules {
        Some(m) => module_ids(m@),
        None => Seq::<Seq<char>>::empty(),
    }
}

/// Position of the first identifier that occurred earlier in `ids`.
pub open spec fn is_first_duplicate(ids: Seq<Seq<char>>, j: int) -> bool {
    &&& 0 <= j < ids.len()
    &&& exists|i: int| 0 <= i < j && ids[i] == ids[j]
    &&& forall|k: int, i: int| 0 <= i < k < j ==> ids[i] != ids[k]
}

/// No identifier occurs twice.
pub open spec fn ids_distinct(ids: Seq<Seq<char>>) -> bool {
    forall|i: int, k: int| 0 <= i < k < ids.len() ==> ids[i] != ids[k]
}

/// The first incompatible pair in the order the checks visit them.
pub open spec fn is_first_incompatible(ids: Seq<Seq<char>>, i: int, j: int) -> bool {
    &&& 0 <= i < j < ids.len()
    &&& incompatible_spec(ids[i], ids[j])
    &&& forall|a: int, b: int| 0 <= a < b < ids.len() && (a < i || (a == i && b < j)) ==> !incompatible_spec(ids[a], ids[b])
}

/// The outcome of the port checks: the signer port must differ from the
/// PBS port, and the metrics port from both.
pub open spec fn ports_check(config: CommitBoostConfig) -> Result<(), Seq<char>> {
    let pbs = config.pbs.pbs_config.port;
    match config.signer {
        Some(s) if s.port == pbs => Err("Port conflict: Signer port "@ + decimal(s.port as nat) + " already in use"@),
        _ => match config.metrics {
            Some(m) if m.start_port == pbs || (config.signer matches Some(s) && s.port == m.start_port) =>
                Err("Port conflict: Metrics port "@ + decimal(m.start_port as nat) + " already in use"@),
            _ => Ok(()),
        },
    }
}

/// Checks a configuration for duplicate module identifiers, incompatible
/// modules and port conflicts, reporting the first problem found.
pub fn validate_no_conflicts(config: &CommitBoostConfig) -> (result: Result<(), String>)
    ensures
        (exists|j: int| is_first_duplicate(config_ids(*config), j)) ==> (result matches Err(m) && exists|j: int|
            is_first_duplicate(config_ids(*config), j) && m@ == "Duplicate module ID: "@ + config_ids(*config)[j]),
        ids_distinct(config_ids(*config)) && (exists|i: int, j: int| is_first_incompatible(config_ids(*config), i, j))
            ==> (result matches Err(m) && exists|i: int, j: int| is_first_incompatible(config_ids(*config), i, j)
                && m@ == "Incompatible modules: '"@ + config_ids(*config)[i] + "' and '"@ + config_ids(*config)[j] + "'"@),
        ids_distinct(config_ids(*config)) && (forall|a: int, b: int| 0 <= a < b < config_ids(*config).len() ==> !incompatible_spec(
            config_ids(*config)[a],
            config_ids(*config)[b],
        )) ==> match result {
            Ok(()) => ports_check(*config) is Ok,
            Err(m) => ports_check(*config) == Err::<(), Seq<char>>(m@),
        },
{
    match &config.modules {
        None => {},
        Some(modules) => {
            let ghost ids = module_ids(modules@);
            let mut j: usize = 0;
            while j < modules.len()
                invariant
                    j <= modules@.len(),
                    config.modules == Some(*modules),
                    ids == module_ids(modules@),
                    forall|k: int, i: int| 0 <= i < k < j ==> ids[i] != ids[k],
                decreases modules@.len() - j,
            {
                let mut i: usize = 0;
                while i < j
                    invariant
                        i <= j < modules@.len(),
                        config.modules == Some(*modules),
                        ids == module_ids(modules@),
                        forall|k: int, a: int| 0 <= a < k < j ==> ids[a] != ids[k],
                        forall|a: int| 0 <= a < i ==> ids[a] != ids[j as int],
                    decreases j - i,
                {
                    proof {
                        assert(ids[i as int] == modules@[i as int].id@);
                        assert(ids[j as int] == modules@[j as int].id@);
                    }
                    if str_eq(modules[i].id.as_str(), modules[j].id.as_str()) {
                        let mut m = String::from_str("Duplicate module ID: ");
                        m.append(modules[j].id.as_str());
                        assert(ids[i as int] == modules@[i as int].id@);
                        assert(ids[j as int] == modules@[j as int].id@);
                        assert(is_first_duplicate(ids, j as int));
                        assert(!ids_distinct(ids));
                        return Err(m);
                    }
                    i = i + 1;
                }
                j = j + 1;
            }
            let mut i: usize = 0;
            while i < modules.len()
                invariant
                    i <= modules@.len(),
                    config.modules == Some(*modules),
                    ids == module_ids(modules@),
                    ids_distinct(ids),
                    forall|a: int, b: int| 0 <= a < b < ids.len() && a < i ==> !incompatible_spec(ids[a], ids[b]),
                decreases modules@.len() - i,
            {
                let mut j: usize = i + 1;
                while j < modules.len()
                    invariant
                        i < modules@.len(),
                        i + 1 <= j <= modules@.len(),
                        config.modules == Some(*modules),
                        ids == module_ids(modules@),
                        ids_distinct(ids),
                        forall|a: int, b: int| 0 <= a < b < ids.len() && a < i ==> !incompatible_spec(ids[a], ids[b]),
                        forall|b: int| i < b < j ==> !incompatible_spec(ids[i as int], ids[b]),
                    decreases modules@.len() - j,
                {
                    proof {
                        assert(ids[i as int] == modules@[i as int].id@);
                        assert(ids[j as int] == modules@[j as int].id@);
                    }
                    if is_incompatible(modules[i].id.as_str(), modules[j].id.as_str()) {
                        let mut m = String::from_str("Incompatible modules: '");
                        m.append(modules[i].id.as_str());
                        m.append("' and '");
                        m.append(modules[j].id.as_str());
                        m.append("'");
                        assert(ids[i as int] == modules@[i as int].id@);
                        assert(ids[j as int] == modules@[j as int].id@);
                        assert(is_first_incompatible(ids, i as int, j as int));
                        assert(!(forall|a: int, b: int| 0 <= a < b < ids.len() ==> !incompatible_spec(ids[a], ids[b])));
                        assert(!(exists|d: int| is_first_duplicate(ids, d))) by {
                            if exists|d: int| is_first_duplicate(ids, d) {
                                let d = choose|d: int| is_first_duplicate(ids, d);
                                let w = choose|w: int| 0 <= w < d && ids[w] == ids[d];
                                assert(ids[w] != ids[d]);
                            }
                        }
                        return Err(m);
                    }
                    j = j + 1;
                }
                i = i + 1;
            }
        },
    }
    let pbs_port = config.pbs.pbs_config.port;
    match config.signer {
        Some(signer) => {
            if signer.port == pbs_port {
                let mut m = String::from_str("Port conflict: Signer port ");
                m.append(u64_to_decimal(signer.port as u64).as_str());
                m.append(" already in use");
                return Err(m);
            }
        },
        None => {},
    }
    match config.metrics {
        Some(metrics) => {
            let taken_by_signer = match config.signer {
                Some(signer) => signer.port == metrics.start_port,
                None => false,
            };
            if metrics.start_port == pbs_port || taken_by_signer {
                let mut m = String::from_str("Port conflict: Metrics port ");
                m.append(u64_to_decimal(metrics.start_port as u64).as_str());
                m.append(" already in use");
                return Err(m);
            }
        },
        None => {},
    }
    Ok(())
}

/// A response tagged with the fork it belongs to.
#[derive(Debug)]
pub enum VersionedResponse<E> {
    Electra(E),
}

impl<E> VersionedResponse<E> {
    /// The fork name of the response.
    pub fn version(&self) -> (name: &str)
        ensures
            name@ == "electra"@,
    {
        match self {
            VersionedResponse::Electra(_) => "electra",
        }
    }
}

} // verus!
