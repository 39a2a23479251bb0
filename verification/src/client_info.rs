//! What a client reports about itself: its settings and the machine it
//! runs on.
//!
//! Reading the machine is the caller's part. It hands over what it read as
//! a [`HostProbe`]; the number of CPU cores comes as the text that the
//! system gives and is parsed here.

use vstd::prelude::*;
use vstd::string::*;
use crate::config::Args;

verus! {

/// The parallelism that the client runs with.
#[derive(Clone, Copy, Debug, PartialEq, Eq, Structural)]
pub struct Params {
    /// The number of puzzle solvers.
    pub threads: usize,
    /// The number of threads of each puzzle solver.
    pub threads_in_pool: usize,
}

/// One CPU of the machine.
#[derive(Clone, Debug, PartialEq, Eq)]
pub struct Cpu {
    /// Model name.
    pub model: String,
    /// Number of cores.
    pub cores: usize,
}

/// One GPU of the machine.
#[derive(Clone, Debug, PartialEq, Eq)]
pub struct Gpu {
    /// Model name.
    pub model: String,
}

/// The processors of the machine.
#[derive(Clone, Debug, PartialEq, Eq)]
pub struct Hardware {
    /// The CPUs.
    pub cpu: Vec<Cpu>,
    /// The GPUs.
    pub gpu: Vec<Gpu>,
}

/// What the client reports about itself.
#[derive(Clone, Debug, PartialEq, Eq)]
pub struct ClientInfo {
    /// The parallelism that the client runs with.
    pub params: Params,
    /// Name of the machine.
    pub hostname: String,
    /// The processors of the machine.
    pub hardware: Hardware,
    /// Optional comment given on the command line.
    pub caption: Option<String>,
    /// Identifier derived from the hardware.
    pub hwid: String,
}

/// What was read from the machine.
#[derive(Clone, Debug, PartialEq, Eq)]
pub struct HostProbe {
    /// Model name of the CPU; empty where the system gives none.
    pub cpu_model: String,
    /// Number of CPU cores, as the text that the system gives; empty where
    /// it gives none.
    pub cpu_cores: String,
    /// Model name of each GPU.
    pub gpu_models: Vec<String>,
    /// Name of the machine.
    pub hostname: String,
    /// Identifier derived from the hardware.
    pub hwid: String,
}

/// The mathematical value of a [`Cpu`].
pub struct CpuView {
    pub model: Seq<char>,
    pub cores: usize,
}

impl View for Cpu {
    type V = CpuView;

    open spec fn view(&self) -> CpuView {
        CpuView { model: self.model@, cores: self.cores }
    }
}

/// The mathematical value of a [`Gpu`].
pub struct GpuView {
    pub model: Seq<char>,
}

impl View for Gpu {
    type V = GpuView;

    open spec fn view(&self) -> GpuView {
        GpuView { model: self.model@ }
    }
}

/// The mathematical value of a [`Hardware`].
pub struct HardwareView {
    pub cpu: Seq<CpuView>,
    pub gpu: Seq<GpuView>,
}

impl View for Hardware {
    type V = HardwareView;

    open spec fn view(&self) -> HardwareView {
        HardwareView {
            cpu: Seq::new(self.cpu@.len(), |i: int| self.cpu@[i]@),
            gpu: Seq::new(self.gpu@.len(), |i: int| self.gpu@[i]@),
        }
    }
}

/// The mathematical value of a [`ClientInfo`].
pub struct ClientInfoView {
    pub params: Params,
    pub hostname: Seq<char>,
    pub hardware: HardwareView,
    pub caption: Option<Seq<char>>,
    pub hwid: Seq<char>,
}

impl View for ClientInfo {
    type V = ClientInfoView;

    open spec fn view(&self) -> ClientInfoView {
        ClientInfoView {
            params: self.params,
            hostname: self.hostname@,
            hardware: self.hardware@,
            caption: match self.caption {
                Some(text) => Some(text@),
                None => None,
            },
            hwid: self.hwid@,
        }
    }
}

/// The information of a client with the given settings on a machine that
/// gave the given readings and has `cores` CPU cores: one CPU with the model
/// read and that many cores, and one GPU for each model read, in the order
/// in which they were read.
pub open spec fn client_info_of(args: Args, probe: HostProbe, cores: usize) -> ClientInfoView {
    ClientInfoView {
        params: Params { threads: args.parallel_num, threads_in_pool: args.threads_num as usize },
        hostname: probe.hostname@,
        hardware: HardwareView {
            cpu: seq![CpuView { model: probe.cpu_model@, cores }],
            gpu: Seq::new(
                probe.gpu_models@.len(),
                |i: int| GpuView { model: probe.gpu_models@[i]@ },
            ),
        },
        caption: match args.caption {
            Some(text) => Some(text@),
            None => None,
        },
        hwid: probe.hwid@,
    }
}

/// Why the client information cannot be put together.
#[derive(Clone, Copy, Debug, PartialEq, Eq, Structural)]
pub enum ClientInfoError {
    /// The number of CPU cores is not a decimal number that fits a `usize`.
    InvalidCpuCores,
}

/// The value of a decimal digit.
pub open spec fn digit_value(c: char) -> Option<nat> {
    if '0' <= c <= '9' {
        Some((c as u32 - '0' as u32) as nat)
    } else {
        None
    }
}

/// The value of a run of decimal digits: `None` where the run is empty or
/// holds anything but digits.
pub open spec fn digits_value(s: Seq<char>) -> Option<nat>
    decreases s.len(),
{
    if s.len() == 0 {
        None
    } else if s.len() == 1 {
        digit_value(s[0])
    } else {
        match (digits_value(s.drop_last()), digit_value(s.last())) {
            (Some(high), Some(low)) => Some(high * 10 + low),
            _ => None,
        }
    }
}

/// The text without the plus sign that may stand in front of a number.
pub open spec fn without_plus(s: Seq<char>) -> Seq<char> {
    if s.len() > 0 && s[0] == '+' {
        s.drop_first()
    } else {
        s
    }
}

/// The number that a text stands for: an optional plus sign, then one or
/// more decimal digits and nothing else, with a value that fits a `usize`.
pub open spec fn parsed_count(s: Seq<char>) -> Option<usize> {
    match digits_value(without_plus(s)) {
        Some(value) => if value <= usize::MAX {
            Some(value as usize)
        } else {
            None
        },
        None => None,
    }
}

/// Every run of digits that a run of digits starts with has a value, which
/// is no larger than that of the whole.
pub proof fn lemma_prefix_value(s: Seq<char>, n: int)
    requires
        1 <= n <= s.len(),
        digits_value(s) is Some,
    ensures
        digits_value(s.take(n)) is Some,
        digits_value(s.take(n))->Some_0 <= digits_value(s)->Some_0,
    decreases s.len(),
{
    if n == s.len() {
        assert(s.take(n) =~= s);
    } else {
        lemma_prefix_value(s.drop_last(), n);
        assert(s.drop_last().take(n) =~= s.take(n));
    }
}

/// Reads a count as the system writes it.
pub fn parse_count(text: &str) -> (r: Option<usize>)
    ensures
        r == parsed_count(text@),
{
    let len = text.unicode_len();
    let start: usize = if len > 0 && text.get_char(0) == '+' {
        1
    } else {
        0
    };
    let ghost digits = without_plus(text@);
    assert(digits =~= text@.skip(start as int));
    if start == len {
        return None;
    }
    let mut value: usize = 0;
    let mut i: usize = start;
    while i < len
        invariant
            start <= i <= len,
            start < len,
            len == text@.len(),
            digits == text@.skip(start as int),
            digits == without_plus(text@),
            i > start ==> digits_value(digits.take(i - start)) == Some(value as nat),
            i == start ==> value == 0,
        decreases len - i,
    {
        let c = text.get_char(i);
        let ghost seen = digits.take(i - start + 1);
        proof {
            assert(seen.last() == c);
            assert(seen.drop_last() =~= digits.take(i - start));
            if digits_value(digits) is Some {
                lemma_prefix_value(digits, i - start + 1);
            }
        }
        if c < '0' || c > '9' {
            assert(digit_value(c) is None);
            assert(digits_value(seen) is None);
            return None;
        }
        let low: usize = (c as u32 - '0' as u32) as usize;
        assert(digit_value(c) == Some(low as nat));
        assert(digits_value(seen) == Some((value * 10 + low) as nat));
        let tenfold = match value.checked_mul(10) {
            Some(tenfold) => tenfold,
            None => {
                return None;
            },
        };
        value = match tenfold.checked_add(low) {
            Some(sum) => sum,
            None => {
                return None;
            },
        };
        i = i + 1;
    }
    assert(digits.take(len - start) =~= digits);
    Some(value)
}

impl ClientInfo {
    /// The information of a client put together from its settings and from
    /// what was read from the machine. It fails exactly when the number of
    /// CPU cores cannot be read.
    pub fn new(args: &Args, probe: HostProbe) -> (r: Result<ClientInfo, ClientInfoError>)
        ensures
            match parsed_count(probe.cpu_cores@) {
                Some(cores) => r matches Ok(info) && info@ == client_info_of(*args, probe, cores),
                None => r matches Err(e) && e == ClientInfoError::InvalidCpuCores,
            },
    {
        let cores = match parse_count(probe.cpu_cores.as_str()) {
            Some(cores) => cores,
            None => {
                return Err(ClientInfoError::InvalidCpuCores);
            },
        };
        let mut gpu: Vec<Gpu> = Vec::new();
        let mut i: usize = 0;
        while i < probe.gpu_models.len()
            invariant
                i <= probe.gpu_models@.len(),
                gpu@.len() == i,
                forall|j: int| 0 <= j < i ==> (#[trigger] gpu@[j]).model@ == probe.gpu_models@[j]@,
            decreases probe.gpu_models@.len() - i,
        {
            gpu.push(Gpu { model: probe.gpu_models[i].clone() });
            i = i + 1;
        }
        let caption = match &args.caption {
            Some(text) => Some(text.clone()),
            None => None,
        };
        let mut cpu: Vec<Cpu> = Vec::new();
        cpu.push(Cpu { model: probe.cpu_model, cores });
        let hardware = Hardware { cpu, gpu };
        assert(hardware@.cpu =~= client_info_of(*args, probe, cores).hardware.cpu);
        assert(hardware@.gpu =~= client_info_of(*args, probe, cores).hardware.gpu);
        Ok(
            ClientInfo {
                params: Params {
                    threads: args.parallel_num,
                    threads_in_pool: args.threads_num as usize,
                },
                hostname: probe.hostname,
                hardware,
                caption,
                hwid: probe.hwid,
            },
        )
    }
}

} // verus!
