//! The closed set of configured sources, their raw samples, and the
//! dispatch that renders one sample into one status-line section.

use vstd::prelude::*;

use crate::components::battery::Battery;
use crate::components::cpu::Cpu;
use crate::components::date::Date;
use crate::components::disk::Disk;
use crate::components::memory::Memory;
use crate::components::network::Network;
use crate::components::script::RunOutput;
use crate::components::script::Script;
use crate::components::temperature::Temperature;
use crate::components::volume::Volume;
use crate::components::volume::VolumeLevel;
use crate::components::weather::Weather;
use crate::section::{section_matches, Component, SectionSpec};

verus! {

/// Why one sampling pass of a source produced no rendered value.
///
/// Such an error is local to one pass: the worker reports it and keeps the
/// slot's previous value.
#[derive(Clone, Copy, Debug, PartialEq, Eq, Structural)]
pub enum SourceError {
    /// The underlying read or call could not be made.
    Unavailable,
    /// What was read could not be interpreted.
    Malformed,
    /// The underlying call was made and reported failure.
    Failed,
}

/// The outcome of a sampling pass agrees with its mathematical image:
/// success with exactly the image's fields, or exactly the image's error.
pub open spec fn outcome_matches<'a>(
    r: Result<Component<'a>, SourceError>,
    s: Result<SectionSpec, SourceError>,
) -> bool {
    match (r, s) {
        (Ok(c), Ok(image)) => section_matches(c, image),
        (Err(e1), Err(e2)) => e1 == e2,
        _ => false,
    }
}

/// One raw sample handed to a source: the plain values that its external
/// collaborator read for it on one pass, or nothing where the read could
/// not be made.
pub enum Sample {
    /// Contents of the battery capacity file.
    Battery(Option<String>),
    /// Two takes of the kernel's stat summary line, a moment apart.
    Cpu(Option<(String, String)>),
    /// The date source reads the clock itself.
    Date,
    /// Total and available bytes of the watched file system.
    Disk(Option<(u64, u64)>),
    /// Contents of the kernel's meminfo file.
    Memory(Option<String>),
    /// Whether a probe of a well-known address got through.
    Network(Option<bool>),
    /// What running the configured script produced.
    Script(Option<RunOutput>),
    /// Contents of the thermal zone file.
    Temperature(Option<String>),
    /// The mixer's playback state.
    Volume(Option<VolumeLevel>),
    /// Whether the temperature fetch succeeded, and its text.
    Weather(Option<(bool, String)>),
}

/// One configured source, as a closed set of variants.
pub enum Device {
    Battery(Battery),
    Cpu(Cpu),
    Date(Date),
    Disk(Disk),
    Memory(Memory),
    Network(Network),
    Script(Script),
    Temperature(Temperature),
    Volume(Volume),
    Weather(Weather),
}

impl Sample {
    /// The sample carries the kind of values this device reads.
    pub open spec fn fits(&self, dev: &Device) -> bool {
        match (self, dev) {
            (Sample::Battery(_), Device::Battery(_)) => true,
            (Sample::Cpu(_), Device::Cpu(_)) => true,
            (Sample::Date, Device::Date(_)) => true,
            (Sample::Disk(_), Device::Disk(_)) => true,
            (Sample::Memory(_), Device::Memory(_)) => true,
            (Sample::Network(_), Device::Network(_)) => true,
            (Sample::Script(_), Device::Script(_)) => true,
            (Sample::Temperature(_), Device::Temperature(_)) => true,
            (Sample::Volume(_), Device::Volume(_)) => true,
            (Sample::Weather(_), Device::Weather(_)) => true,
            _ => false,
        }
    }
}

impl Device {
    /// The configured poll interval of the source, in milliseconds.
    pub open spec fn spec_time(&self) -> u64 {
        match self {
            Device::Battery(d) => d.spec_time(),
            Device::Cpu(d) => d.spec_time(),
            Device::Date(d) => d.spec_time(),
            Device::Disk(d) => d.spec_time(),
            Device::Memory(d) => d.spec_time(),
            Device::Network(d) => d.spec_time(),
            Device::Script(d) => d.spec_time(),
            Device::Temperature(d) => d.spec_time(),
            Device::Volume(d) => d.spec_time(),
            Device::Weather(d) => d.spec_time(),
        }
    }

    /// What rendering the sample with this source's configuration returns:
    /// each variant's own conversion, applied to the sample's values.
    pub open spec fn spec_sampled<'a>(
        &self,
        sample: Sample,
        r: Result<Component<'a>, SourceError>,
    ) -> bool {
        match self {
            Device::Battery(d) => sample matches Sample::Battery(c) && outcome_matches(
                r,
                d.spec_convert(c),
            ),
            Device::Cpu(d) => sample matches Sample::Cpu(c) && outcome_matches(
                r,
                d.spec_convert(c),
            ),
            Device::Date(d) => d.spec_outcome(r),
            Device::Disk(d) => sample matches Sample::Disk(c) && outcome_matches(
                r,
                d.spec_convert(c),
            ),
            Device::Memory(d) => sample matches Sample::Memory(c) && outcome_matches(
                r,
                d.spec_convert(c),
            ),
            Device::Network(d) => sample matches Sample::Network(c) && outcome_matches(
                r,
                d.spec_convert(c),
            ),
            Device::Script(d) => sample matches Sample::Script(c) && outcome_matches(
                r,
                d.spec_convert(c),
            ),
            Device::Temperature(d) => sample matches Sample::Temperature(c) && outcome_matches(
                r,
                d.spec_convert(c),
            ),
            Device::Volume(d) => sample matches Sample::Volume(c) && outcome_matches(
                r,
                d.spec_convert(c),
            ),
            Device::Weather(d) => sample matches Sample::Weather(c) && outcome_matches(
                r,
                d.spec_convert(c),
            ),
        }
    }

    /// Renders one sample into this source's status-line section.
    pub fn get(&self, sample: Sample) -> (r: Result<Component<'_>, SourceError>)
        requires
            sample.fits(self),
        ensures
            self.spec_sampled(sample, r),
    {
        match (self, sample) {
            (Device::Battery(d), Sample::Battery(c)) => d.convert(c),
            (Device::Cpu(d), Sample::Cpu(c)) => d.convert(c),
            (Device::Date(d), Sample::Date) => d.convert(),
            (Device::Disk(d), Sample::Disk(c)) => d.convert(c),
            (Device::Memory(d), Sample::Memory(c)) => d.convert(c),
            (Device::Network(d), Sample::Network(c)) => d.convert(c),
            (Device::Script(d), Sample::Script(c)) => d.convert(c),
            (Device::Temperature(d), Sample::Temperature(c)) => d.convert(c),
            (Device::Volume(d), Sample::Volume(c)) => d.convert(c),
            (Device::Weather(d), Sample::Weather(c)) => d.convert(c),
            _ => {
                proof {
                    assert(false);
                }
                Err(SourceError::Unavailable)
            },
        }
    }

    /// The poll interval of the source, read once when it is grouped.
    pub fn time(&self) -> (t: u64)
        ensures
            t == self.spec_time(),
    {
        match self {
            Device::Battery(d) => d.time(),
            Device::Cpu(d) => d.time(),
            Device::Date(d) => d.time(),
            Device::Disk(d) => d.time(),
            Device::Memory(d) => d.time(),
            Device::Network(d) => d.time(),
            Device::Script(d) => d.time(),
            Device::Temperature(d) => d.time(),
            Device::Volume(d) => d.time(),
            Device::Weather(d) => d.time(),
        }
    }
}

} // verus!
