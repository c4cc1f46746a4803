//! The settings of one run, as the command line gives them.

use vstd::prelude::*;

verus! {

/// The compression level used when none is asked for.
pub const DEFAULT_LEVEL: u32 = 6;

/// The settings of one run.
#[derive(Debug)]
pub struct Args {
    /// Open a container instead of sealing one.
    pub decompress: bool,
    /// Path to read from; standard input when absent.
    pub input: Option<String>,
    /// Path to write to; standard output when absent.
    pub output: Option<String>,
    /// Compression level asked for.
    pub level: u32,
    /// Number of compression threads asked for.
    pub threads: Option<u32>,
}

/// One and a half threads per physical core, rounded down, as far as `u32` reaches.
pub open spec fn default_thread_count(physical_cores: nat) -> nat {
    if physical_cores * 3 / 2 <= u32::MAX {
        physical_cores * 3 / 2
    } else {
        u32::MAX as nat
    }
}

/// The number of compression threads to use when none is asked for.
pub fn default_threads(physical_cores: usize) -> (threads: u32)
    ensures
        threads == default_thread_count(physical_cores as nat),
{
    if physical_cores > 0xAAAA_AAAA {
        u32::MAX
    } else {
        let cores: u64 = physical_cores as u64;
        (cores * 3 / 2) as u32
    }
}

impl Args {
    /// The settings of a run for which nothing was asked: seal, from standard
    /// input to standard output, at the default level.
    pub fn new() -> (args: Args)
        ensures
            !args.decompress,
            args.input is None,
            args.output is None,
            args.level == DEFAULT_LEVEL,
            args.threads is None,
    {
        Args { decompress: false, input: None, output: None, level: DEFAULT_LEVEL, threads: None }
    }

    /// The number of compression threads of this run: the number asked for,
    /// or else the default for the machine's physical cores.
    pub open spec fn spec_thread_count(self, physical_cores: nat) -> nat {
        match self.threads {
            Some(threads) => threads as nat,
            None => default_thread_count(physical_cores),
        }
    }

    /// The number of compression threads of this run.
    pub fn thread_count(&self, physical_cores: usize) -> (threads: u32)
        ensures
            threads == self.spec_thread_count(physical_cores as nat),
    {
        match self.threads {
            Some(threads) => threads,
            None => default_threads(physical_cores),
        }
    }
}

} // verus!
