//! Configuration for chain commands and runtime artifact paths, used by
//! the tooling that spins up a test topology around deployed contracts.

use vstd::prelude::*;

verus! {

/// The commands and runtime paths of each chain in a test topology.
#[derive(Debug, Clone)]
pub struct ChainConfig {
    pub relay_chain_command: String,
    pub relay_chain_runtime_path: String,
    pub parachain_command: String,
    pub bulletin_command: String,
    pub bridge_hub_command: String,
    pub asset_hub_runtime_path: String,
    pub people_runtime_path: String,
    pub yap_runtime_path: String,
    pub template_runtime_path: String,
    pub bridge_hub_runtime_path: String,
}

impl Default for ChainConfig {
    /// The stock configuration: the released commands and the runtime
    /// artifacts at their conventional paths.
    fn default() -> (c: ChainConfig)
        ensures
            c.relay_chain_command@ == "polkadot"@,
            c.relay_chain_runtime_path@
                == "./runtime/polkadot_runtime-v2000004.compact.compressed.wasm "@,
            c.parachain_command@ == "polkadot-parachain"@,
            c.bulletin_command@ == "polkadot-bulletin-chain"@,
            c.bridge_hub_command@ == "polkadot-parachain"@,
            c.asset_hub_runtime_path@
                == "./runtime/asset-hub-polkadot_runtime-v2000004.compact.compressed.wasm "@,
            c.people_runtime_path@ == "./runtime/people_rococo_runtime.compact.compressed.wasm"@,
            c.yap_runtime_path@ == "/tmp/yet_another_parachain_runtime.compact.compressed.wasm"@,
            c.template_runtime_path@ == "./runtime/parachain_template_runtime.compact.compressed"@,
            c.bridge_hub_runtime_path@
                == "/tmp/bridge_hub_polkadot_runtime.compact.compressed.wasm"@,
    {
        ChainConfig {
            relay_chain_command: "polkadot".to_owned(),
            relay_chain_runtime_path:
                "./runtime/polkadot_runtime-v2000004.compact.compressed.wasm ".to_owned(),
            parachain_command: "polkadot-parachain".to_owned(),
            bulletin_command: "polkadot-bulletin-chain".to_owned(),
            bridge_hub_command: "polkadot-parachain".to_owned(),
            asset_hub_runtime_path:
                "./runtime/asset-hub-polkadot_runtime-v2000004.compact.compressed.wasm ".to_owned(),
            people_runtime_path:
                "./runtime/people_rococo_runtime.compact.compressed.wasm".to_owned(),
            yap_runtime_path:
                "/tmp/yet_another_parachain_runtime.compact.compressed.wasm".to_owned(),
            template_runtime_path:
                "./runtime/parachain_template_runtime.compact.compressed".to_owned(),
            bridge_hub_runtime_path:
                "/tmp/bridge_hub_polkadot_runtime.compact.compressed.wasm".to_owned(),
        }
    }
}

impl ChainConfig {
    /// The stock configuration, ready for the `with_` builders.
    pub fn new() -> (c: ChainConfig)
        ensures
            c.relay_chain_command@ == "polkadot"@,
            c.parachain_command@ == "polkadot-parachain"@,
            c.bulletin_command@ == "polkadot-bulletin-chain"@,
    {
        ChainConfig::default()
    }

    /// Replace the relay chain command.
    pub fn with_relay_chain_command(self, command: String) -> (c: ChainConfig)
        ensures
            c.relay_chain_command@ == command@,
            c == (ChainConfig { relay_chain_command: c.relay_chain_command, ..self }),
    {
        ChainConfig { relay_chain_command: command, ..self }
    }

    /// Replace the relay chain runtime path.
    pub fn with_relay_chain_runtime(self, path: String) -> (c: ChainConfig)
        ensures
            c.relay_chain_runtime_path@ == path@,
            c == (ChainConfig { relay_chain_runtime_path: c.relay_chain_runtime_path, ..self }),
    {
        ChainConfig { relay_chain_runtime_path: path, ..self }
    }

    /// Replace the parachain command.
    pub fn with_parachain_command(self, command: String) -> (c: ChainConfig)
        ensures
            c.parachain_command@ == command@,
            c == (ChainConfig { parachain_command: c.parachain_command, ..self }),
    {
        ChainConfig { parachain_command: command, ..self }
    }

    /// Replace the Asset Hub runtime path.
    pub fn with_asset_hub_runtime(self, path: String) -> (c: ChainConfig)
        ensures
            c.asset_hub_runtime_path@ == path@,
            c == (ChainConfig { asset_hub_runtime_path: c.asset_hub_runtime_path, ..self }),
    {
        ChainConfig { asset_hub_runtime_path: path, ..self }
    }

    /// Replace the People chain runtime path.
    pub fn with_people_runtime(self, path: String) -> (c: ChainConfig)
        ensures
            c.people_runtime_path@ == path@,
            c == (ChainConfig { people_runtime_path: c.people_runtime_path, ..self }),
    {
        ChainConfig { people_runtime_path: path, ..self }
    }

    /// Replace the Bridge Hub runtime path.
    pub fn with_bridge_hub_runtime(self, path: String) -> (c: ChainConfig)
        ensures
            c.bridge_hub_runtime_path@ == path@,
            c == (ChainConfig { bridge_hub_runtime_path: c.bridge_hub_runtime_path, ..self }),
    {
        ChainConfig { bridge_hub_runtime_path: path, ..self }
    }

    /// Replace the YAP chain runtime path.
    pub fn with_yap_runtime(self, path: String) -> (c: ChainConfig)
        ensures
            c.yap_runtime_path@ == path@,
            c == (ChainConfig { yap_runtime_path: c.yap_runtime_path, ..self }),
    {
        ChainConfig { yap_runtime_path: path, ..self }
    }

    /// Replace the template chain runtime path.
    pub fn with_template_runtime(self, path: String) -> (c: ChainConfig)
        ensures
            c.template_runtime_path@ == path@,
            c == (ChainConfig { template_runtime_path: c.template_runtime_path, ..self }),
    {
        ChainConfig { template_runtime_path: path, ..self }
    }

    /// Replace the bulletin chain command.
    pub fn with_bulletin_command(self, command: String) -> (c: ChainConfig)
        ensures
            c.bulletin_command@ == command@,
            c == (ChainConfig { bulletin_command: c.bulletin_command, ..self }),
    {
        ChainConfig { bulletin_command: command, ..self }
    }
}

} // verus!
