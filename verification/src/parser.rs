//! The option parser: one token, `name` or `name=value`, changes the option
//! record and the published state, or is rejected and changes nothing.
//!
//! The parser touches no file. Where an option needs one read or truncated,
//! it says so in the [`HostAction`] it returns, and the host does the work.

use crate::decimal::{decimal_up_to, parse_decimal};
use crate::jit_list::{listed_names, parse_jit_list, IseqSet};
use crate::options::{DumpHIR, Options, OptionsView};
use crate::published::{
    derived_profile_threshold, lemma_profile_threshold_bounds, update_profile_threshold,
    PublishedState,
};
use crate::substring::{cut, width_between};
use crate::text::{chars_of, spells};
use vstd::prelude::*;
use vstd::slice::slice_subrange;
use vstd::string::{StringExecFns, StringSliceAdditionalSpecFns};

verus! {

/// What a token asks for.
#[derive(Clone, Copy, Debug, PartialEq, Eq, Structural)]
pub enum Directive {
    /// The empty token, from a bare `--zjit`: nothing to change.
    Bare,
    /// `call-threshold=num`
    CallThreshold(u64),
    /// `num-profiles=num`
    NumProfiles(u8),
    /// `stats`
    Stats,
    /// `debug`
    Debug,
    /// `dump-hir`, `dump-hir-opt`, alone or with `=all` or `=debug`
    DumpHirOpt(DumpHIR),
    /// `dump-hir-init`, alone or with `=all` or `=debug`
    DumpHirInit(DumpHIR),
    /// `dump-lir`
    DumpLir,
    /// `dump-disasm`
    DumpDisasm,
    /// `perf`
    Perf,
    /// `allowed-iseqs=path`; the path is the token's value
    AllowedIseqs,
    /// `log-compiled-iseqs=path`; the path is the token's value
    LogCompiledIseqs,
}

/// What the host owes after a token was accepted.
#[derive(Clone, Debug)]
pub enum HostAction {
    /// Nothing.
    Nothing,
    /// Read the JIT list file at this path and hand its text, or the failure
    /// to read it, to [`store_jit_list`].
    ReadJitList(String),
    /// Create the log file at this path, or empty it if it exists.
    TruncateLog(String),
}

/// A [`HostAction`] with its path as characters.
pub enum HostActionView {
    Nothing,
    ReadJitList(Seq<char>),
    TruncateLog(Seq<char>),
}

impl View for HostAction {
    type V = HostActionView;

    open spec fn view(&self) -> HostActionView {
        match self {
            HostAction::Nothing => HostActionView::Nothing,
            HostAction::ReadJitList(path) => HostActionView::ReadJitList(path@),
            HostAction::TruncateLog(path) => HostActionView::TruncateLog(path@),
        }
    }
}

/// The number of characters of `token` before its first `=`; its length if
/// it holds none.
pub open spec fn name_len(token: Seq<char>) -> nat
    decreases token.len(),
{
    if token.len() == 0 || token.first() == '=' {
        0
    } else {
        1 + name_len(token.drop_first())
    }
}

/// The name of the option in `token`: what stands before the first `=`.
pub open spec fn option_name(token: Seq<char>) -> Seq<char> {
    token.take(name_len(token) as int)
}

/// The value of the option in `token`: what follows the first `=`, and
/// nothing where there is none.
pub open spec fn option_value(token: Seq<char>) -> Seq<char> {
    if name_len(token) < token.len() {
        token.skip(name_len(token) as int + 1)
    } else {
        Seq::empty()
    }
}

/// What a flag means: it takes no value.
pub open spec fn flag(value: Seq<char>, directive: Directive) -> Option<Directive> {
    if value.len() == 0 {
        Some(directive)
    } else {
        None
    }
}

/// What the value of a dump option selects.
pub open spec fn dump_mode(value: Seq<char>) -> Option<DumpHIR> {
    if value.len() == 0 {
        Some(DumpHIR::WithoutSnapshot)
    } else if value == "all"@ {
        Some(DumpHIR::All)
    } else if value == "debug"@ {
        Some(DumpHIR::Debug)
    } else {
        None
    }
}

/// The grammar of options: what the pair of `name` and `value` asks for, and
/// `None` where it is no option.
pub open spec fn directive_of(name: Seq<char>, value: Seq<char>) -> Option<Directive> {
    if name.len() == 0 && value.len() == 0 {
        Some(Directive::Bare)
    } else if name == "call-threshold"@ {
        match decimal_up_to(value, u64::MAX as nat) {
            Some(n) => Some(Directive::CallThreshold(n as u64)),
            None => None,
        }
    } else if name == "num-profiles"@ {
        match decimal_up_to(value, u8::MAX as nat) {
            Some(n) => Some(Directive::NumProfiles(n as u8)),
            None => None,
        }
    } else if name == "stats"@ {
        flag(value, Directive::Stats)
    } else if name == "debug"@ {
        flag(value, Directive::Debug)
    } else if name == "dump-hir"@ || name == "dump-hir-opt"@ {
        match dump_mode(value) {
            Some(mode) => Some(Directive::DumpHirOpt(mode)),
            None => None,
        }
    } else if name == "dump-hir-init"@ {
        match dump_mode(value) {
            Some(mode) => Some(Directive::DumpHirInit(mode)),
            None => None,
        }
    } else if name == "dump-lir"@ {
        flag(value, Directive::DumpLir)
    } else if name == "dump-disasm"@ {
        flag(value, Directive::DumpDisasm)
    } else if name == "perf"@ {
        flag(value, Directive::Perf)
    } else if name == "allowed-iseqs"@ && value.len() > 0 {
        Some(Directive::AllowedIseqs)
    } else if name == "log-compiled-iseqs"@ && value.len() > 0 {
        Some(Directive::LogCompiledIseqs)
    } else {
        None
    }
}

/// What `token` asks for, and `None` where it is to be rejected.
pub open spec fn token_directive(token: Seq<char>) -> Option<Directive> {
    directive_of(option_name(token), option_value(token))
}

/// What the record says after `directive` was applied. `value` is the value
/// of the token that `directive` came from.
pub open spec fn options_after(
    options: OptionsView,
    directive: Directive,
    value: Seq<char>,
) -> OptionsView {
    match directive {
        Directive::Bare => options,
        Directive::CallThreshold(_) => options,
        Directive::NumProfiles(n) => OptionsView { num_profiles: n, ..options },
        Directive::Stats => OptionsView { stats: true, ..options },
        Directive::Debug => OptionsView { debug: true, ..options },
        Directive::DumpHirOpt(mode) => OptionsView { dump_hir_opt: Some(mode), ..options },
        Directive::DumpHirInit(mode) => OptionsView { dump_hir_init: Some(mode), ..options },
        Directive::DumpLir => OptionsView { dump_lir: true, ..options },
        Directive::DumpDisasm => OptionsView { dump_disasm: true, ..options },
        Directive::Perf => OptionsView { perf: true, ..options },
        Directive::AllowedIseqs => options,
        Directive::LogCompiledIseqs => OptionsView { log_compiled_iseqs: Some(value), ..options },
    }
}

/// The published state after `directive` was applied to it and to a record
/// that held `num_profiles` before.
pub open spec fn published_after(
    published: PublishedState,
    num_profiles: u8,
    directive: Directive,
) -> PublishedState {
    match directive {
        Directive::CallThreshold(n) => PublishedState {
            call_threshold: n,
            profile_threshold: derived_profile_threshold(n, num_profiles) as u64,
            ..published
        },
        Directive::NumProfiles(n) => PublishedState {
            profile_threshold: derived_profile_threshold(published.call_threshold, n) as u64,
            ..published
        },
        Directive::Stats => PublishedState { stats_enabled: true, ..published },
        _ => published,
    }
}

/// What the host owes after `directive` was applied.
pub open spec fn action_for(directive: Directive, value: Seq<char>) -> HostActionView {
    match directive {
        Directive::AllowedIseqs => HostActionView::ReadJitList(value),
        Directive::LogCompiledIseqs => HostActionView::TruncateLog(value),
        _ => HostActionView::Nothing,
    }
}

/// The profile threshold is never set on its own: once a token has set the
/// call threshold or the number of profiles, the published profile threshold
/// is the one derived from the two as they then stand, whatever it was before.
/// Any other token leaves the three as they were.
pub proof fn lemma_threshold_rederived(
    published: PublishedState,
    options: OptionsView,
    directive: Directive,
    value: Seq<char>,
)
    ensures
        ({
            let after = published_after(published, options.num_profiles, directive);
            let record = options_after(options, directive, value);
            if directive is CallThreshold || directive is NumProfiles {
                after.profile_threshold == derived_profile_threshold(
                    after.call_threshold,
                    record.num_profiles,
                )
            } else {
                &&& after.profile_threshold == published.profile_threshold
                &&& after.call_threshold == published.call_threshold
                &&& record.num_profiles == options.num_profiles
            }
        }),
{
    match directive {
        Directive::CallThreshold(n) => lemma_profile_threshold_bounds(n, options.num_profiles),
        Directive::NumProfiles(n) => lemma_profile_threshold_bounds(published.call_threshold, n),
        _ => {},
    }
}

/// What [`name_len`] counts: the characters before the first `=`.
pub proof fn lemma_name_len_counts(token: Seq<char>)
    ensures
        name_len(token) <= token.len(),
        forall|i: int| 0 <= i < name_len(token) ==> token[i] != '=',
        name_len(token) < token.len() ==> token[name_len(token) as int] == '=',
    decreases token.len(),
{
    if token.len() > 0 && token.first() != '=' {
        let rest = token.drop_first();
        lemma_name_len_counts(rest);
        assert forall|i: int| 0 <= i < name_len(token) implies token[i] != '=' by {
            if i > 0 {
                assert(token[i] == rest[i - 1]);
            }
        }
        if name_len(token) < token.len() {
            assert(token[name_len(token) as int] == rest[name_len(rest) as int]);
        }
    }
}

/// A token is split at its first `=`: the name holds no `=`, and the token is
/// its name, then `=` and its value if it holds a `=`, and its name alone if
/// it holds none.
pub proof fn lemma_token_split(token: Seq<char>)
    ensures
        !option_name(token).contains('='),
        token.contains('=') ==> token == option_name(token) + seq!['='] + option_value(token),
        !token.contains('=') ==> token == option_name(token) && option_value(token).len() == 0,
{
    lemma_name_len_counts(token);
    let k = name_len(token) as int;
    if k < token.len() {
        assert(token.contains('='));
        assert(token =~= option_name(token) + seq!['='] + option_value(token));
    } else {
        assert(option_name(token) == token);
    }
}

/// The name of a token ends at `k` when no `=` stands before `k` and one
/// stands at `k`, or the token ends there.
proof fn lemma_name_len(token: Seq<char>, k: int)
    requires
        0 <= k <= token.len(),
        forall|i: int| 0 <= i < k ==> token[i] != '=',
        k < token.len() ==> token[k] == '=',
    ensures
        name_len(token) == k,
    decreases k,
{
    if k > 0 {
        let rest = token.drop_first();
        assert forall|i: int| 0 <= i < k - 1 implies rest[i] != '=' by {
            assert(rest[i] == token[i + 1]);
        }
        lemma_name_len(rest, k - 1);
    }
}

/// Where the name of the option ends in `token`.
fn find_name_end(token: &[char]) -> (end: usize)
    ensures
        end == name_len(token@),
        end <= token@.len(),
{
    let n = token.len();
    let mut end: usize = 0;
    while end < n && token[end] != '='
        invariant
            end <= n == token@.len(),
            forall|i: int| 0 <= i < end ==> token@[i] != '=',
        decreases n - end,
    {
        end += 1;
    }
    proof {
        lemma_name_len(token@, end as int);
    }
    end
}

/// Reads the value of a dump option.
fn parse_dump_mode(value: &[char]) -> (mode: Option<DumpHIR>)
    ensures
        mode == dump_mode(value@),
{
    if value.len() == 0 {
        Some(DumpHIR::WithoutSnapshot)
    } else if spells(value, "all") {
        Some(DumpHIR::All)
    } else if spells(value, "debug") {
        Some(DumpHIR::Debug)
    } else {
        None
    }
}

/// Reads a flag: `directive` if no value came with it.
fn parse_flag(value: &[char], directive: Directive) -> (found: Option<Directive>)
    ensures
        found == flag(value@, directive),
{
    if value.len() == 0 {
        Some(directive)
    } else {
        None
    }
}

/// Looks the pair of `name` and `value` up in the grammar of options.
pub fn recognize(name: &[char], value: &[char]) -> (directive: Option<Directive>)
    ensures
        directive == directive_of(name@, value@),
{
    if name.len() == 0 && value.len() == 0 {
        Some(Directive::Bare)
    } else if spells(name, "call-threshold") {
        match parse_decimal(value, u64::MAX) {
            Some(n) => Some(Directive::CallThreshold(n)),
            None => None,
        }
    } else if spells(name, "num-profiles") {
        match parse_decimal(value, 255) {
            Some(n) => Some(Directive::NumProfiles(n as u8)),
            None => None,
        }
    } else if spells(name, "stats") {
        parse_flag(value, Directive::Stats)
    } else if spells(name, "debug") {
        parse_flag(value, Directive::Debug)
    } else if spells(name, "dump-hir") || spells(name, "dump-hir-opt") {
        match parse_dump_mode(value) {
            Some(mode) => Some(Directive::DumpHirOpt(mode)),
            None => None,
        }
    } else if spells(name, "dump-hir-init") {
        match parse_dump_mode(value) {
            Some(mode) => Some(Directive::DumpHirInit(mode)),
            None => None,
        }
    } else if spells(name, "dump-lir") {
        parse_flag(value, Directive::DumpLir)
    } else if spells(name, "dump-disasm") {
        parse_flag(value, Directive::DumpDisasm)
    } else if spells(name, "perf") {
        parse_flag(value, Directive::Perf)
    } else if spells(name, "allowed-iseqs") && value.len() > 0 {
        Some(Directive::AllowedIseqs)
    } else if spells(name, "log-compiled-iseqs") && value.len() > 0 {
        Some(Directive::LogCompiledIseqs)
    } else {
        None
    }
}

/// Reads one token: what it asks for, and `None` where it is no option.
pub fn parse_directive(opt_str: &str) -> (directive: Option<Directive>)
    ensures
        directive == token_directive(opt_str@),
{
    let chars = chars_of(opt_str);
    let n = chars.len();
    let end = find_name_end(chars.as_slice());
    let value_start = if end < n {
        end + 1
    } else {
        n
    };
    let name = slice_subrange(chars.as_slice(), 0, end);
    let value = slice_subrange(chars.as_slice(), value_start, n);
    recognize(name, value)
}

/// The value of the option in `opt_str` as a string of its own. `chars` holds
/// the characters of `opt_str`, and the value begins at `value_start`.
fn value_string(opt_str: &str, chars: &[char], value_start: usize) -> (value: String)
    requires
        chars@ == opt_str@,
        value_start <= chars@.len(),
    ensures
        value@ == opt_str@.skip(value_start as int),
{
    let n = chars.len();
    let byte_len = opt_str.as_bytes().len();
    proof {
        assert(opt_str@.take(n as int) == opt_str@);
        assert(chars@.subrange(0, value_start as int) == opt_str@.take(value_start as int));
    }
    let byte_start = width_between(chars, 0, value_start);
    String::from_str(cut(opt_str, Ghost(value_start as int), Ghost(n as int), byte_start, byte_len))
}

/// Parse a `--zjit*` command-line flag.
///
/// Expects what comes after the third dash in `--zjit-*`; the empty string
/// means the user passed only `--zjit`. An accepted token changes the record
/// and the published state as its directive says and returns what is left for
/// the host to do. A rejected one returns `None` and changes nothing.
pub fn parse_option(
    options: &mut Options,
    published: &mut PublishedState,
    opt_str: &str,
) -> (action: Option<HostAction>)
    ensures
        match token_directive(opt_str@) {
            Some(directive) => {
                &&& action matches Some(owed)
                &&& owed@ == action_for(directive, option_value(opt_str@))
                &&& final(options)@ == options_after(
                    old(options)@,
                    directive,
                    option_value(opt_str@),
                )
                &&& *final(published) == published_after(
                    *old(published),
                    old(options).num_profiles,
                    directive,
                )
            },
            None => {
                &&& action is None
                &&& *final(options) == *old(options)
                &&& *final(published) == *old(published)
            },
        },
        old(published).agrees_with(old(options)@) ==> final(published).agrees_with(
            final(options)@,
        ),
{
    // Split the option name and value strings
    // Note that some options do not contain an assignment
    let chars = chars_of(opt_str);
    let n = chars.len();
    let end = find_name_end(chars.as_slice());
    let value_start = if end < n {
        end + 1
    } else {
        n
    };
    let name = slice_subrange(chars.as_slice(), 0, end);
    let value = slice_subrange(chars.as_slice(), value_start, n);

    let directive = match recognize(name, value) {
        Some(directive) => directive,
        None => {
            return None;  // Option name not recognized
        },
    };
    match directive {
        Directive::Bare => {},
        Directive::CallThreshold(n) => {
            published.call_threshold = n;
            update_profile_threshold(published, options);
        },
        Directive::NumProfiles(n) => {
            options.num_profiles = n;
            update_profile_threshold(published, options);
        },
        Directive::Stats => {
            published.stats_enabled = true;
            options.stats = true;
        },
        Directive::Debug => {
            options.debug = true;
        },
        Directive::DumpHirOpt(mode) => {
            options.dump_hir_opt = Some(mode);
        },
        Directive::DumpHirInit(mode) => {
            options.dump_hir_init = Some(mode);
        },
        Directive::DumpLir => {
            options.dump_lir = true;
        },
        Directive::DumpDisasm => {
            options.dump_disasm = true;
        },
        Directive::Perf => {
            options.perf = true;
        },
        Directive::AllowedIseqs => {
            let path = value_string(opt_str, chars.as_slice(), value_start);
            return Some(HostAction::ReadJitList(path));
        },
        Directive::LogCompiledIseqs => {
            let path = value_string(opt_str, chars.as_slice(), value_start);
            options.log_compiled_iseqs = Some(path.clone());
            return Some(HostAction::TruncateLog(path));
        },
    }
    // Option successfully parsed
    Some(HostAction::Nothing)
}

/// Finishes `allowed-iseqs`: stores the names listed in the text that the host
/// read from the JIT list file, or no name at all where it could not read it.
/// Either way the record then restricts compilation to the names stored.
pub fn store_jit_list(options: &mut Options, text: Option<&str>)
    ensures
        final(options)@ == (OptionsView {
            allowed_iseqs: Some(
                match text {
                    Some(text) => listed_names(text@),
                    None => Set::<Seq<char>>::empty(),
                },
            ),
            ..old(options)@
        }),
{
    let list = match text {
        Some(text) => parse_jit_list(text),
        None => IseqSet::new(),
    };
    options.allowed_iseqs = Some(list);
}

} // verus!
