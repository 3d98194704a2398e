use vstd::prelude::*;
use crate::band::TargetBand;
use crate::cpu::CpuRegulator;
use crate::ram::{one_percent_of, usage_of, Ram, RamState};

verus! {

/// CPU utilisation, in percent, below which a core is given work.
pub const TARGET_CPU_USAGE: u64 = 55;

/// Lower end of the memory band, in percent.
pub const TARGET_RAM_LOW: u64 = 45;

/// Upper end of the memory band, in percent.
pub const TARGET_RAM_HIGH: u64 = 55;

/// Ceiling of one memory block, in bytes: 1 GiB.
pub const MAX_BLOCK_BYTES: u64 = 1073741824;

/// The shortest interval, in milliseconds, between two CPU samples that
/// `sysinfo` can tell apart: its constant `MINIMUM_CPU_UPDATE_INTERVAL`.
///
/// Trusted, not proved: the constant is fixed per platform, and on every
/// platform that `sysinfo` knows it is 200 ms, 100 ms or, where CPU usage is
/// not supported, zero.
#[verifier::external_body]
fn minimum_cpu_update_interval_millis() -> (millis: u64)
    ensures
        millis == 0 || millis == 100 || millis == 200,
{
    sysinfo::MINIMUM_CPU_UPDATE_INTERVAL.as_millis() as u64
}

/// The settings of both controllers.
#[derive(Clone, Debug)]
pub struct Config {
    /// Scalar CPU target, in percent.
    pub cpu_threshold: u64,
    /// Band that the memory usage is held in.
    pub ram_band: TargetBand,
    /// Logical cores that get no controller.
    pub excluded_cores: Vec<usize>,
    /// Ceiling of one memory block, in bytes.
    pub max_block_bytes: u64,
    /// Length of a core's busy phase, in milliseconds.
    pub work_millis: u64,
    /// Length of a core's sleep phase and of the pause between two memory
    /// cycles, in milliseconds.
    pub sleep_millis: u64,
}

impl Config {
    /// The settings are usable when the memory band is an interval of
    /// percentages.
    pub open spec fn wf(&self) -> bool {
        self.ram_band.wf()
    }

    /// The standard profile: every core regulated towards 55 %, memory held
    /// in [45 %, 55 %], blocks of at most 1 GiB. Work and sleep both last for
    /// the shortest interval over which the host's CPU samples are reliable;
    /// sampling more often would read stale figures.
    pub fn standard() -> (c: Config)
        ensures
            c.wf(),
            c.cpu_threshold == TARGET_CPU_USAGE,
            c.ram_band == (TargetBand { low: TARGET_RAM_LOW, high: TARGET_RAM_HIGH }),
            c.excluded_cores@ == Seq::<usize>::empty(),
            c.max_block_bytes == MAX_BLOCK_BYTES,
            c.work_millis == c.sleep_millis,
            c.work_millis <= 200,
    {
        let interval: u64 = minimum_cpu_update_interval_millis();
        Config {
            cpu_threshold: TARGET_CPU_USAGE,
            ram_band: TargetBand { low: TARGET_RAM_LOW, high: TARGET_RAM_HIGH },
            excluded_cores: Vec::new(),
            max_block_bytes: MAX_BLOCK_BYTES,
            work_millis: interval,
            sleep_millis: interval,
        }
    }

    /// Whether `core` gets a controller: it does unless it is excluded.
    pub fn regulates(&self, core: usize) -> (yes: bool)
        ensures
            yes == !self.excluded_cores@.contains(core),
    {
        let mut i: usize = 0;
        while i < self.excluded_cores.len()
            invariant
                i <= self.excluded_cores.len(),
                forall|j: int| 0 <= j < i ==> self.excluded_cores@[j] != core,
            decreases self.excluded_cores.len() - i,
        {
            if self.excluded_cores[i] == core {
                return false;
            }
            i = i + 1;
        }
        true
    }

    /// The controller of `core` with the configured threshold and phase
    /// lengths, or nothing where the core is excluded.
    pub fn cpu_regulator(&self, core: usize) -> (r: Option<CpuRegulator>)
        ensures
            r == if self.excluded_cores@.contains(core) {
                None
            } else {
                Some(
                    CpuRegulator {
                        core,
                        threshold: self.cpu_threshold,
                        work_millis: self.work_millis,
                        sleep_millis: self.sleep_millis,
                    },
                )
            },
    {
        if self.regulates(core) {
            Some(CpuRegulator::new(core, self.cpu_threshold, self.work_millis, self.sleep_millis))
        } else {
            None
        }
    }

    /// The memory controller with the configured band and block ceiling, for a
    /// host that reports `used` out of `total` bytes in use.
    pub fn ram_regulator(&self, total: u64, used: u64) -> (ram: Ram)
        requires
            self.wf(),
            total > 0,
            used * 100 <= u64::MAX,
        ensures
            ram.wf(),
            ram@ == (RamState {
                pool: Seq::empty(),
                band: self.ram_band,
                usage_percent: usage_of(total, used),
                memory_one_percent: one_percent_of(total, self.max_block_bytes),
            }),
    {
        Ram::new(self.ram_band, self.max_block_bytes, total, used)
    }
}

} // verus!
