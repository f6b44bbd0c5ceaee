//! The option record: every tunable of the compiler, with its default.

use crate::jit_list::IseqSet;
use vstd::prelude::*;

verus! {

/// How much of the high-level IR a dump shows.
#[derive(Clone, Copy, Debug, PartialEq, Eq, Structural)]
pub enum DumpHIR {
    /// Dump High-level IR without Snapshot
    WithoutSnapshot,
    /// Dump High-level IR with Snapshot
    All,
    /// Pretty-print bare High-level IR structs
    Debug,
}

/// The option record.
#[derive(Debug)]
pub struct Options {
    /// Number of times YARV instructions should be profiled.
    pub num_profiles: u8,
    /// Enable statistics
    pub stats: bool,
    /// Enable debug logging
    pub debug: bool,
    /// Dump initial High-level IR before optimization
    pub dump_hir_init: Option<DumpHIR>,
    /// Dump High-level IR after optimization, right before codegen.
    pub dump_hir_opt: Option<DumpHIR>,
    /// Dump low-level IR
    pub dump_lir: bool,
    /// Dump all compiled machine code.
    pub dump_disasm: bool,
    /// Dump code map to /tmp for performance profilers.
    pub perf: bool,
    /// List of ISEQs that can be compiled, identified by their location
    pub allowed_iseqs: Option<IseqSet>,
    /// Path to a file where compiled ISEQs will be saved.
    pub log_compiled_iseqs: Option<String>,
}

/// What an option record says: its flags and counts as they are, the list of
/// ISEQs as a set of names, the log path as its characters.
pub struct OptionsView {
    pub num_profiles: u8,
    pub stats: bool,
    pub debug: bool,
    pub dump_hir_init: Option<DumpHIR>,
    pub dump_hir_opt: Option<DumpHIR>,
    pub dump_lir: bool,
    pub dump_disasm: bool,
    pub perf: bool,
    pub allowed_iseqs: Option<Set<Seq<char>>>,
    pub log_compiled_iseqs: Option<Seq<char>>,
}

impl View for Options {
    type V = OptionsView;

    open spec fn view(&self) -> OptionsView {
        OptionsView {
            num_profiles: self.num_profiles,
            stats: self.stats,
            debug: self.debug,
            dump_hir_init: self.dump_hir_init,
            dump_hir_opt: self.dump_hir_opt,
            dump_lir: self.dump_lir,
            dump_disasm: self.dump_disasm,
            perf: self.perf,
            allowed_iseqs: match self.allowed_iseqs {
                Some(list) => Some(list@),
                None => None,
            },
            log_compiled_iseqs: match self.log_compiled_iseqs {
                Some(path) => Some(path@),
                None => None,
            },
        }
    }
}

impl Clone for Options {
    fn clone(&self) -> (copy: Self)
        ensures
            copy@ == self@,
    {
        Options {
            num_profiles: self.num_profiles,
            stats: self.stats,
            debug: self.debug,
            dump_hir_init: self.dump_hir_init,
            dump_hir_opt: self.dump_hir_opt,
            dump_lir: self.dump_lir,
            dump_disasm: self.dump_disasm,
            perf: self.perf,
            allowed_iseqs: match &self.allowed_iseqs {
                Some(list) => Some(list.clone()),
                None => None,
            },
            log_compiled_iseqs: match &self.log_compiled_iseqs {
                Some(path) => Some(path.clone()),
                None => None,
            },
        }
    }
}

/// What the record says before any option is parsed: one profiled call,
/// everything else off or absent.
pub open spec fn default_options() -> OptionsView {
    OptionsView {
        num_profiles: 1,
        stats: false,
        debug: false,
        dump_hir_init: None,
        dump_hir_opt: None,
        dump_lir: false,
        dump_disasm: false,
        perf: false,
        allowed_iseqs: None,
        log_compiled_iseqs: None,
    }
}

/// Return an Options with default values
pub fn init_options() -> (options: Options)
    ensures
        options@ == default_options(),
{
    Options {
        num_profiles: 1,
        stats: false,
        debug: false,
        dump_hir_init: None,
        dump_hir_opt: None,
        dump_lir: false,
        dump_disasm: false,
        perf: false,
        allowed_iseqs: None,
        log_compiled_iseqs: None,
    }
}

} // verus!
