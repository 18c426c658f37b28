//! General facts about the host: its processor, its names, its shell, its
//! load and its uptime.

use crate::error::{text_result, value_result, ErrorModel, ReadoutError};
use crate::path::{base_name, file_name};
use crate::product::{
    lookup, property_of, AndroidProductReadout, PropertyStore, FAMILY_KEY, PRODUCT_KEY, VENDOR_KEY,
};
use crate::split::{lines, split_lines, split_words, words};
use crate::sysinfo::{SysInfo, LOAD_SCALE};
use crate::table::{
    field_value, first_labelled, last_labelled, lemma_first_labelled_at,
    lemma_first_labelled_none, lemma_first_labelled_prefix, read_labelled,
};
use crate::text::{chars_of, opt_row, opt_text, rows, string_of, texts};
use crate::tokens::{first_occurrences, join, joined, unique};
use vstd::prelude::*;

verus! {

/// Where the kernel prints its table of processor facts.
pub const CPUINFO_PATH: &'static str = "/proc/cpuinfo";

/// The model name that a table of processor facts gives. A line labelled
/// `Hardware` decides as soon as it is met; without one, the first line
/// labelled `model name` decides, and without that the last line labelled
/// `Processor`.
pub open spec fn cpu_model(table: Seq<Seq<char>>) -> Option<Seq<char>> {
    match first_labelled(table, "Hardware"@) {
        Some(hardware) => Some(hardware),
        None => match first_labelled(table, "model name"@) {
            Some(model) => Some(model),
            None => last_labelled(table, "Processor"@),
        },
    }
}

/// What `cpu_model_name` returns for the text of the processor table, or
/// for `None` where the table could not be read.
pub open spec fn cpu_model_name_of(cpuinfo: Option<Seq<char>>) -> Result<Seq<char>, ErrorModel> {
    let table = match cpuinfo {
        Some(text) => lines(text),
        None => Seq::empty(),
    };
    match cpu_model(table) {
        Some(name) => Ok(name),
        None => Err(ErrorModel::Other("Failed to get processor model name"@)),
    }
}

/// The first line labelled `Hardware` decides the model name, whatever
/// stands before or after it.
pub proof fn lemma_hardware_decides(table: Seq<Seq<char>>, k: int)
    requires
        0 <= k < table.len(),
        "Hardware"@.is_prefix_of(table[k]),
        forall|j: int| 0 <= j < k ==> !"Hardware"@.is_prefix_of(#[trigger] table[j]),
    ensures
        cpu_model(table) == Some(field_value(table[k], "Hardware"@)),
{
    lemma_first_labelled_at(table, "Hardware"@, k);
}

/// Without a line labelled `Hardware`, the first line labelled
/// `model name` decides the model name.
pub proof fn lemma_model_name_decides(table: Seq<Seq<char>>, k: int)
    requires
        0 <= k < table.len(),
        forall|j: int| 0 <= j < table.len() ==> !"Hardware"@.is_prefix_of(#[trigger] table[j]),
        "model name"@.is_prefix_of(table[k]),
        forall|j: int| 0 <= j < k ==> !"model name"@.is_prefix_of(#[trigger] table[j]),
    ensures
        cpu_model(table) == Some(field_value(table[k], "model name"@)),
{
    lemma_first_labelled_none(table, "Hardware"@);
    lemma_first_labelled_at(table, "model name"@, k);
}

/// The longest description of the machine, in characters, that is freed
/// of repeated words.
pub const MACHINE_COMPACT_LIMIT: usize = 15;

/// The description of the machine as it is assembled: vendor and family,
/// then the product in parentheses.
pub open spec fn machine_line(vendor: Seq<char>, family: Seq<char>, product: Seq<char>) -> Seq<
    char,
> {
    vendor + seq![' '] + family + seq![' ', '('] + product + seq![')']
}

/// The description of the machine as it is reported. An assembled line of
/// at most `MACHINE_COMPACT_LIMIT` characters is split into words, each
/// word is kept where it first occurs, and the words are joined by single
/// spaces; a longer line is reported as it is.
pub open spec fn machine_text(vendor: Seq<char>, family: Seq<char>, product: Seq<char>) -> Seq<
    char,
> {
    let line = machine_line(vendor, family, product);
    if line.len() <= MACHINE_COMPACT_LIMIT {
        joined(first_occurrences(words(line)), seq![' '])
    } else {
        line
    }
}

/// What `machine` returns for a property store: the failure of the first
/// query that fails, in the order vendor, family, product, else the
/// description.
pub open spec fn machine_of(store: Map<Seq<char>, Seq<char>>) -> Result<Seq<char>, ErrorModel> {
    match (
        property_of(lookup(store, VENDOR_KEY@)),
        property_of(lookup(store, FAMILY_KEY@)),
        property_of(lookup(store, PRODUCT_KEY@)),
    ) {
        (Err(e), _, _) => Err(e),
        (_, Err(e), _) => Err(e),
        (_, _, Err(e)) => Err(e),
        (Ok(vendor), Ok(family), Ok(product)) => Ok(machine_text(vendor, family, product)),
    }
}

/// The load of `load`, a fixed-point load average, spread over `cores`
/// cores, in percent and rounded to the nearest whole number, halves
/// upwards.
pub open spec fn usage_percent(load: u64, cores: usize) -> int {
    (2 * 100 * load + LOAD_SCALE * cores) / (2 * (LOAD_SCALE * cores))
}

/// `usage_percent`, held to the range of `usize`.
pub open spec fn usage_saturated(load: u64, cores: usize) -> usize {
    if usage_percent(load, cores) <= usize::MAX {
        usage_percent(load, cores) as usize
    } else {
        usize::MAX
    }
}

/// What `cpu_usage` returns for a snapshot of the system statistics, or
/// for `None` where the call that takes the snapshot failed, on a host
/// with `cores` logical cores. A usage of zero is an error.
pub open spec fn cpu_usage_of(stats: Option<SysInfo>, cores: usize) -> Result<usize, ErrorModel> {
    match stats {
        None => Err(ErrorModel::SyscallFailure),
        Some(info) => if usage_saturated(info.loads[0], cores) == 0 {
            Err(ErrorModel::Other("Processor usage is null."@))
        } else {
            Ok(usage_saturated(info.loads[0], cores))
        },
    }
}

/// What `uptime` returns.
pub open spec fn uptime_of(stats: Option<SysInfo>) -> Result<usize, ErrorModel> {
    match stats {
        None => Err(ErrorModel::SyscallFailure),
        Some(info) => Ok(info.uptime),
    }
}

/// A usage is never reported as zero: the readout fails exactly when no
/// snapshot was taken or the load is less than half a percent of what the
/// cores can take.
pub proof fn lemma_zero_usage_is_error(stats: Option<SysInfo>, cores: usize)
    requires
        cores >= 1,
    ensures
        cpu_usage_of(stats, cores) is Ok ==> cpu_usage_of(stats, cores)->Ok_0 > 0,
        cpu_usage_of(stats, cores) is Err <==> (stats is None || 2 * 100 * stats->Some_0.loads[0]
            < LOAD_SCALE * cores),
{
    if let Some(info) = stats {
        let load = info.loads[0];
        let d = LOAD_SCALE * cores;
        let a = 2 * 100 * load;
        assert(((a + d) / (2 * d) == 0) <==> a < d) by (nonlinear_arith)
            requires
                d > 0,
                a >= 0,
        ;
        assert((a + d) / (2 * d) >= 0) by (nonlinear_arith)
            requires
                d > 0,
                a >= 0,
        ;
    }
}

/// How a path or a bare name of a shell is to be reported.
#[derive(Clone, Copy, Debug, PartialEq, Eq, Structural)]
pub enum ShellFormat {
    /// The name of the executable alone.
    Relative,
    /// The full path of the executable.
    Absolute,
}

/// Which shell is asked for.
#[derive(Clone, Copy, Debug, PartialEq, Eq, Structural)]
pub enum ShellKind {
    /// The shell that runs now.
    Current,
    /// The user's login shell.
    Default,
}

/// Where the name of the shell comes from.
#[derive(Debug, PartialEq, Eq)]
pub enum ShellSource {
    /// The override variable names the shell: this is its file name.
    Named(String),
    /// The override decides nothing: the shell is to be detected, in this
    /// format and of this kind.
    Detect(ShellFormat, ShellKind),
}

/// The file name that the override variable gives, if it is set and its
/// value has one.
pub open spec fn shell_override(shell_var: Option<Seq<char>>) -> Option<Seq<char>> {
    match shell_var {
        Some(path) => file_name(path),
        None => None,
    }
}

/// One network interface with one of its addresses, both as text.
pub struct NetworkInterface {
    pub name: String,
    pub address: String,
}

/// Whether an interface called `name` is asked for: any is where no name
/// is given.
pub open spec fn selects(interface: Option<Seq<char>>, name: Seq<char>) -> bool {
    match interface {
        Some(wanted) => wanted == name,
        None => true,
    }
}

/// The address of the first interface of `list` that is asked for.
pub open spec fn first_address(list: Seq<NetworkInterface>, interface: Option<Seq<char>>) -> Option<
    Seq<char>,
>
    decreases list.len(),
{
    if list.len() == 0 {
        None
    } else if selects(interface, list[0].name@) {
        Some(list[0].address@)
    } else {
        first_address(list.skip(1), interface)
    }
}

/// What `local_ip` returns.
pub open spec fn local_ip_of(interface: Option<Seq<char>>, list: Seq<NetworkInterface>) -> Result<
    Seq<char>,
    ErrorModel,
> {
    match first_address(list, interface) {
        Some(address) => Ok(address),
        None => Err(ErrorModel::Other("Unable to get local IP address"@)),
    }
}

/// What `hostname` returns for the name that the host gave, or for `None`
/// where the call failed.
pub open spec fn hostname_of(name: Option<Seq<char>>) -> Result<Seq<char>, ErrorModel> {
    match name {
        Some(text) => Ok(text),
        None => Err(ErrorModel::SyscallFailure),
    }
}

/// What `username` returns for the name that was found, or for `None`
/// where none was.
pub open spec fn username_of(name: Option<Seq<char>>) -> Result<Seq<char>, ErrorModel> {
    match name {
        Some(text) => Ok(text),
        None => Err(ErrorModel::Other("Unable to get username"@)),
    }
}

/// The number of logical cores of the host.
///
/// Trusted: `num_cpus::get` of the crate `num_cpus`, which is documented to
/// return at least 1. The number depends on the machine, so nothing more
/// is claimed of it.
#[verifier::external_body]
fn logical_cores() -> (n: usize)
    ensures
        n >= 1,
{
    num_cpus::get()
}

/// The number of physical cores of the host.
///
/// Trusted: `num_cpus::get_physical` of the crate `num_cpus`, which is
/// documented to return at least 1. The number depends on the machine, so
/// nothing more is claimed of it.
#[verifier::external_body]
fn physical_cores() -> (n: usize)
    ensures
        n >= 1,
{
    num_cpus::get_physical()
}

/// Computes the usage in percent of a load average on `cores` cores.
pub fn load_percent(load: u64, cores: usize) -> (r: usize)
    requires
        cores >= 1,
    ensures
        r == usage_saturated(load, cores),
{
    let scaled: u128 = LOAD_SCALE as u128 * cores as u128;
    let rounded: u128 = (2 * 100 * load as u128 + scaled) / (2 * scaled);
    proof {
        assert(scaled == LOAD_SCALE * cores);
        assert(2 * scaled == 2 * (LOAD_SCALE * cores));
        assert(2 * 100 * load as u128 + scaled == 2 * 100 * load + LOAD_SCALE * cores);
        assert(rounded == usage_percent(load, cores));
    }
    if rounded <= usize::MAX as u128 {
        rounded as usize
    } else {
        usize::MAX
    }
}

/// Reads general facts about the host.
pub struct AndroidGeneralReadout;

impl AndroidGeneralReadout {
    pub fn new() -> Self {
        AndroidGeneralReadout
    }

    /// The processor's model name, from the text of the processor table.
    /// A table that could not be read counts as an empty one.
    pub fn cpu_model_name(&self, cpuinfo: Option<&str>) -> (r: Result<String, ReadoutError>)
        ensures
            text_result(r) == cpu_model_name_of(opt_text(cpuinfo)),
    {
        let table: Vec<Vec<char>> = match cpuinfo {
            Some(text) => split_lines(&chars_of(text)),
            None => Vec::new(),
        };
        let hardware_label = chars_of("Hardware");
        let processor_label = chars_of("Processor");
        let model_label = chars_of("model name");
        let mut hardware: Option<Vec<char>> = None;
        let mut processor: Option<Vec<char>> = None;
        let mut model: Option<Vec<char>> = None;
        let ghost all = rows(table@);
        proof {
            match cpuinfo {
                Some(text) => {},
                None => {
                    assert(all =~= Seq::empty());
                },
            }
        }
        let mut i: usize = 0;
        while i < table.len()
            invariant_except_break
                i <= table.len(),
                hardware is None,
                first_labelled(all.take(i as int), "Hardware"@) is None,
            invariant
                all == rows(table@),
                hardware_label@ == "Hardware"@,
                processor_label@ == "Processor"@,
                model_label@ == "model name"@,
                opt_row(model) == first_labelled(all.take(i as int), "model name"@),
                opt_row(processor) == last_labelled(all.take(i as int), "Processor"@),
            ensures
                hardware is Some ==> opt_row(hardware) == first_labelled(all, "Hardware"@),
                hardware is None ==> i == table.len() && first_labelled(
                    all.take(i as int),
                    "Hardware"@,
                ) is None,
            decreases table.len() - i,
        {
            let line = &table[i];
            proof {
                assert(all.take(i + 1).drop_last() =~= all.take(i as int));
                assert(all.take(i + 1).last() == line@);
            }
            let as_hardware = read_labelled(line, &hardware_label);
            if as_hardware.is_some() {
                hardware = as_hardware;
                proof {
                    lemma_first_labelled_prefix(all, "Hardware"@, i + 1);
                }
                break;
            }
            let as_processor = read_labelled(line, &processor_label);
            if as_processor.is_some() {
                processor = as_processor;
            }
            if model.is_none() {
                model = read_labelled(line, &model_label);
            }
            i += 1;
        }
        proof {
            if hardware is None {
                assert(all.take(table.len() as int) =~= all);
            }
        }
        match (hardware, model, processor) {
            (Some(hardware), _, _) => Ok(string_of(&hardware)),
            (_, Some(model), _) => Ok(string_of(&model)),
            (_, _, Some(processor)) => Ok(string_of(&processor)),
            (_, _, _) => Err(ReadoutError::other("Failed to get processor model name")),
        }
    }

    /// The description of the machine, from the vendor, the family and the
    /// product that the property store names.
    pub fn machine(&self, store: &PropertyStore) -> (r: Result<String, ReadoutError>)
        ensures
            text_result(r) == machine_of(store@),
    {
        let product_readout = AndroidProductReadout::new();
        let vendor = match product_readout.vendor(store) {
            Ok(v) => v,
            Err(e) => { return Err(e); },
        };
        let family = match product_readout.family(store) {
            Ok(v) => v,
            Err(e) => { return Err(e); },
        };
        let product = match product_readout.product(store) {
            Ok(v) => v,
            Err(e) => { return Err(e); },
        };
        let mut line = chars_of(vendor.as_str());
        let mut family_chars = chars_of(family.as_str());
        let mut product_chars = chars_of(product.as_str());
        line.push(' ');
        line.append(&mut family_chars);
        line.push(' ');
        line.push('(');
        line.append(&mut product_chars);
        line.push(')');
        proof {
            assert(line@ =~= machine_line(vendor@, family@, product@));
        }
        if line.len() <= MACHINE_COMPACT_LIMIT {
            let parts = split_words(&line);
            let mut tokens: Vec<String> = Vec::new();
            let mut i: usize = 0;
            while i < parts.len()
                invariant
                    i <= parts.len(),
                    tokens.len() == i,
                    texts(tokens@) == rows(parts@).take(i as int),
                decreases parts.len() - i,
            {
                let ghost before = tokens@;
                let token = string_of(&parts[i]);
                tokens.push(token);
                proof {
                    assert forall|j: int| 0 <= j < i + 1 implies texts(tokens@)[j] == rows(
                        parts@,
                    ).take(i + 1)[j] by {
                        if j < i {
                            assert(tokens@[j] == before[j]);
                            assert(texts(before)[j] == rows(parts@).take(i as int)[j]);
                        }
                    }
                    assert(texts(tokens@) =~= rows(parts@).take(i + 1));
                }
                i += 1;
            }
            proof {
                assert(rows(parts@).take(parts.len() as int) =~= rows(parts@));
                reveal_strlit(" ");
                assert(" "@ =~= seq![' ']);
            }
            let kept = unique(tokens);
            Ok(join(&kept, " "))
        } else {
            Ok(string_of(&line))
        }
    }

    /// The address of the first of the host's interfaces, or of the first
    /// one called `interface` where a name is given.
    pub fn local_ip(&self, interface: Option<&str>, interfaces: &Vec<NetworkInterface>) -> (r:
        Result<String, ReadoutError>)
        ensures
            text_result(r) == local_ip_of(opt_text(interface), interfaces@),
    {
        let wanted: Option<String> = match interface {
            Some(name) => Some(name.to_owned()),
            None => None,
        };
        let mut i: usize = 0;
        proof {
            assert(interfaces@.skip(0) =~= interfaces@);
        }
        while i < interfaces.len()
            invariant
                i <= interfaces.len(),
                match wanted {
                    Some(name) => opt_text(interface) == Some(name@),
                    None => opt_text(interface) is None,
                },
                first_address(interfaces@, opt_text(interface)) == first_address(
                    interfaces@.skip(i as int),
                    opt_text(interface),
                ),
            decreases interfaces.len() - i,
        {
            let chosen = match &wanted {
                Some(name) => interfaces[i].name == *name,
                None => true,
            };
            proof {
                assert(interfaces@.skip(i as int)[0] == interfaces@[i as int]);
                assert(interfaces@.skip(i as int).skip(1) =~= interfaces@.skip(i + 1));
            }
            if chosen {
                return Ok(interfaces[i].address.clone());
            }
            i += 1;
        }
        Err(ReadoutError::other("Unable to get local IP address"))
    }

    /// The name of the user, from what the lookup of the user gave.
    pub fn username(&self, name: Option<&str>) -> (r: Result<String, ReadoutError>)
        ensures
            text_result(r) == username_of(opt_text(name)),
    {
        match name {
            Some(text) => Ok(text.to_owned()),
            None => Err(ReadoutError::other("Unable to get username")),
        }
    }

    /// The name of the host, from what the host-name call gave.
    pub fn hostname(&self, name: Option<&str>) -> (r: Result<String, ReadoutError>)
        ensures
            text_result(r) == hostname_of(opt_text(name)),
    {
        match name {
            Some(text) => Ok(text.to_owned()),
            None => Err(ReadoutError::SyscallFailure),
        }
    }

    /// Where the name of the shell comes from: the file name of the path
    /// in the override variable where it has one, else a detection with
    /// the format and the kind that were asked for.
    pub fn shell(&self, shell_var: Option<&str>, format: ShellFormat, kind: ShellKind) -> (r:
        ShellSource)
        ensures
            match shell_override(opt_text(shell_var)) {
                Some(name) => r matches ShellSource::Named(text) && text@ == name,
                None => r == ShellSource::Detect(format, kind),
            },
    {
        if let Some(path) = shell_var {
            if let Some(name) = base_name(&chars_of(path)) {
                return ShellSource::Named(string_of(&name));
            }
        }
        ShellSource::Detect(format, kind)
    }

    /// The number of physical cores.
    pub fn cpu_physical_cores(&self) -> (r: Result<usize, ReadoutError>)
        ensures
            r matches Ok(n) && n >= 1,
    {
        Ok(physical_cores())
    }

    /// The number of logical cores.
    pub fn cpu_cores(&self) -> (r: Result<usize, ReadoutError>)
        ensures
            r matches Ok(n) && n >= 1,
    {
        Ok(logical_cores())
    }

    /// The usage of the processor in percent, from a snapshot of the
    /// system statistics, on a host with `cores` logical cores.
    pub fn cpu_usage_on(&self, stats: Option<SysInfo>, cores: usize) -> (r: Result<
        usize,
        ReadoutError,
    >)
        requires
            cores >= 1,
        ensures
            value_result(r) == cpu_usage_of(stats, cores),
    {
        match stats {
            None => Err(ReadoutError::SyscallFailure),
            Some(info) => {
                let usage = load_percent(info.loads[0], cores);
                if usage != 0 {
                    Ok(usage)
                } else {
                    Err(ReadoutError::other("Processor usage is null."))
                }
            },
        }
    }

    /// The usage of the processor in percent, from a snapshot of the
    /// system statistics, on this host.
    pub fn cpu_usage(&self, stats: Option<SysInfo>) -> (r: Result<usize, ReadoutError>)
        ensures
            stats is None ==> value_result(r) == Err::<usize, ErrorModel>(
                ErrorModel::SyscallFailure,
            ),
            exists|cores: usize| cores >= 1 && value_result(r) == cpu_usage_of(stats, cores),
            r matches Ok(usage) ==> usage > 0,
    {
        match stats {
            None => {
                proof {
                    assert(value_result(Err::<usize, ReadoutError>(ReadoutError::SyscallFailure))
                        == cpu_usage_of(stats, 1));
                }
                Err(ReadoutError::SyscallFailure)
            },
            Some(_) => {
                let cores = logical_cores();
                self.cpu_usage_on(stats, cores)
            },
        }
    }

    /// The time since boot in seconds, from a snapshot of the system
    /// statistics.
    pub fn uptime(&self, stats: Option<SysInfo>) -> (r: Result<usize, ReadoutError>)
        ensures
            value_result(r) == uptime_of(stats),
    {
        match stats {
            None => Err(ReadoutError::SyscallFailure),
            Some(info) => Ok(info.uptime),
        }
    }
}

} // verus!
