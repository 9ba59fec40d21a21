//! Configuration of the master process.
//!
//! A `MasterArgs` is loaded externally (a config file) and merged with the
//! process arguments; explicit process arguments override configured
//! defaults. The merged result is frozen into a `MasterConfig`, read-only for
//! the life of the process. Identities are carried as their textual key
//! material: the library never looks inside them, it only hands one out to
//! each worker.

use vstd::prelude::*;
use vstd::string::StringExecFns;

verus! {

/// The process arguments that can override configured defaults.
#[derive(Debug)]
pub struct Args {
    pub address: Option<String>,
    pub local: bool,
    pub master_channel: Option<String>,
    pub verbose: u8,
}

/// The externally loaded configuration of the master, before the merge with
/// the process arguments.
#[derive(Debug)]
pub struct MasterArgs {
    pub master_name: String,
    pub local: bool,
    pub address: String,
    pub channel: Option<String>,
    pub verbose: u8,
    pub domain: String,
    pub bind_address: String,
    pub names: Vec<String>,
    pub id: Option<String>,
    pub ids: Option<Vec<String>>,
}

/// The immutable configuration owned by the dispatcher.
#[derive(Debug)]
pub struct MasterConfig {
    pub master_name: String,
    pub address: String,
    pub names: Vec<String>,
    pub ids: Vec<String>,
    pub local: bool,
    pub verbose: u8,
}

/// The display name used when the configuration names none.
pub fn default_name() -> (r: String)
    ensures
        r@ == "PokeBot"@,
{
    String::from_str("PokeBot")
}

/// Local mode is off unless the configuration switches it on.
pub fn default_local() -> (r: bool)
    ensures
        r == false,
{
    false
}

/// Protocol tracing is silent unless the configuration raises it.
pub fn default_verbose() -> (r: u8)
    ensures
        r == 0,
{
    0
}

impl MasterArgs {
    /// Merges the loaded configuration with the process arguments.
    ///
    /// An explicit argument wins over the configured value: a given address
    /// or channel replaces the configured one, local mode is on if either
    /// side asks for it, and a nonzero verbosity argument overrides the
    /// configured level.
    pub fn merge(self, args: Args) -> (r: MasterArgs)
        ensures
            r.master_name == self.master_name,
            r.names == self.names,
            r.ids == self.ids,
            r.id == self.id,
            r.domain == self.domain,
            r.bind_address == self.bind_address,
            r.local == (args.local || self.local),
            args.address matches Some(a) ==> r.address == a,
            args.address is None ==> r.address == self.address,
            args.master_channel matches Some(c) ==> r.channel == Some(c),
            args.master_channel is None ==> r.channel == self.channel,
            r.verbose == (if args.verbose > 0 {
                args.verbose
            } else {
                self.verbose
            }),
    {
        let address = match args.address {
            Some(a) => a,
            None => self.address,
        };
        let local = args.local || self.local;
        let channel = match args.master_channel {
            Some(c) => Some(c),
            None => self.channel,
        };
        let verbose = if args.verbose > 0 {
            args.verbose
        } else {
            self.verbose
        };

        MasterArgs {
            master_name: self.master_name,
            names: self.names,
            ids: self.ids,
            local,
            address,
            domain: self.domain,
            bind_address: self.bind_address,
            id: self.id,
            channel,
            verbose,
        }
    }
}

} // verus!
