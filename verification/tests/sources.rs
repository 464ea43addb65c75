//! Tests of the individual sources: defaults, poll intervals, and the
//! rendering of raw samples into sections.

use rstatusbar::components::battery::Battery;
use rstatusbar::components::cpu::Cpu;
use rstatusbar::components::date::Date;
use rstatusbar::components::disk::Disk;
use rstatusbar::components::memory::Memory;
use rstatusbar::components::network::Network;
use rstatusbar::components::script::RunOutput;
use rstatusbar::components::script::Script;
use rstatusbar::components::temperature::Temperature;
use rstatusbar::components::volume::Volume;
use rstatusbar::components::volume::VolumeLevel;
use rstatusbar::components::weather::Weather;
use rstatusbar::device::SourceError;

const BAT_NAME: &str = "BAT";
const BAT_ICON_FULL: &str = "\u{f0079}";
const BAT_ICON_MEDIUM: &str = "\u{f007f}";
const BAT_ICON_LOW: &str = "\u{f007a}";
const CPU_NAME: &str = "CPU";
const CPU_ICON: &str = "\u{ef}\u{2019}\u{bc} ";
const DATE_ICON: &str = "\u{f133} ";
const DISK_NAME: &str = "DISK";
const DISK_ICON: &str = "\u{f02ca} ";
const MEM_NAME: &str = "RAM";
const MEM_ICON: &str = "\u{ee}\u{bf}\u{2026} ";
const NET_ICON_UP: &str = "\u{f0002} ";
const SCR_ICON: &str = "\u{f0bc1} ";
const TEMP_ICON: &str = "\u{f03c8} ";
const VOL_NAME: &str = "VOL";
const VOL_ICON_ACTIVE: &str = "\u{f028} ";
const VOL_ICON_MUTED: &str = "\u{f0581} ";
const WEA_NAME: &str = "WEA";
const WEA_ICON: &str = "\u{d3}\u{e0}\u{f9} ";

const CPU_LINE_1: &str = "cpu  100 0 100 300 0 0 0 0 0 0";
const CPU_LINE_2: &str = "cpu  200 0 200 500 0 0 0 0 0 0";

const MEMINFO: &str = "MemTotal:       16000000 kB\nMemFree:         8000000 kB\nBuffers:          500000 kB\nCached:          1500000 kB\n";

#[test]
fn test_convert_full_battery() {
    let battery = Battery { path: Some(String::from("/tmp/capacity")), ..Default::default() };

    let component = battery.convert(Some(String::from("90\n"))).unwrap();
    assert_eq!(component.name, BAT_NAME);
    assert_eq!(component.icon, BAT_ICON_FULL);
    assert_eq!(component.value, "90%");
}

#[test]
fn test_convert_medium_battery() {
    let battery = Battery { path: Some(String::from("/tmp/capacity")), ..Default::default() };

    let component = battery.convert(Some(String::from("50\n"))).unwrap();
    assert_eq!(component.name, BAT_NAME);
    assert_eq!(component.icon, BAT_ICON_MEDIUM);
    assert_eq!(component.value, "50%");
}

#[test]
fn test_convert_low_battery() {
    let battery = Battery { path: Some(String::from("/tmp/capacity")), ..Default::default() };

    let component = battery.convert(Some(String::from("20\n"))).unwrap();
    assert_eq!(component.name, BAT_NAME);
    assert_eq!(component.icon, BAT_ICON_LOW);
    assert_eq!(component.value, "20%");
}

#[test]
fn test_convert_invalid_capacity() {
    let battery = Battery { path: Some(String::from("/tmp/capacity")), ..Default::default() };

    let result = battery.convert(Some(String::from("invalid\n")));
    assert!(result.is_err());
}

#[test]
fn test_cpu_get_time() {
    let cpu = Cpu { time: Some(2000), name: None, icon: None };
    assert_eq!(cpu.time(), 2000);

    let cpu_default = Cpu::default();
    assert_eq!(cpu_default.time(), 1000);
}

#[test]
fn test_cpu_convert() {
    let cpu = Cpu {
        time: Some(1000),
        name: Some(String::from("Custom CPU")),
        icon: Some(String::from(CPU_ICON)),
    };

    let readings = Some((String::from(CPU_LINE_1), String::from(CPU_LINE_2)));
    let component = cpu.convert(readings).unwrap();

    assert_eq!(component.name, "Custom CPU");
    assert_eq!(component.icon, CPU_ICON);
    assert!(component.value.ends_with("%"));
}

#[test]
fn test_cpu_convert_with_default_values() {
    let cpu = Cpu::default();

    let readings = Some((String::from(CPU_LINE_1), String::from(CPU_LINE_2)));
    let component = cpu.convert(readings).unwrap();

    assert_eq!(component.name, CPU_NAME);
    assert_eq!(component.icon, CPU_ICON);
    assert!(component.value.ends_with("%"));
}

#[test]
fn test_date_get_time() {
    let date = Date { time: Some(2000), format: None, icon: None };
    assert_eq!(date.time(), 2000);

    let date_default = Date::default();
    assert_eq!(date_default.time(), 1000);
}

#[test]
fn test_date_convert() {
    let date = Date {
        time: Some(1000),
        format: Some(String::from("%Y-%m-%d")),
        icon: Some(String::from(DATE_ICON)),
    };

    let component = date.convert().unwrap();

    assert_eq!(component.icon, DATE_ICON);
    assert_eq!(component.value.len(), 10);
}

#[test]
fn test_date_convert_with_default_values() {
    let date = Date::default();

    let component = date.convert().unwrap();

    assert_eq!(component.icon, DATE_ICON);
}

#[test]
fn test_date_convert_with_invalid_format() {
    let date = Date {
        time: Some(1000),
        format: Some(String::from("invalid_format")),
        icon: Some(String::from(DATE_ICON)),
    };

    let component = date.convert().unwrap();

    assert_eq!(component.icon, DATE_ICON);
    assert!(!component.value.is_empty());
}

#[test]
fn test_date_convert_with_bad_specifier() {
    let date = Date {
        time: Some(1000),
        format: Some(String::from("%!")),
        icon: Some(String::from(DATE_ICON)),
    };

    assert!(date.convert().is_err());
}

#[test]
fn test_disk_get_time() {
    let disk = Disk { time: Some(3000), name: None, icon: None, unit: None };
    assert_eq!(disk.time(), 3000);

    let disk_default = Disk::default();
    assert_eq!(disk_default.time(), 2000);
}

#[test]
fn test_disk_convert() {
    let disk = Disk {
        time: Some(2000),
        name: Some(String::from("Custom Disk")),
        icon: Some(String::from(DISK_ICON)),
        unit: Some(String::from("/")),
    };

    let component = disk.convert(Some((1_000_000, 400_000))).unwrap();

    assert_eq!(component.name, "Custom Disk");
    assert_eq!(component.icon, DISK_ICON);
    assert!(component.value.ends_with("%"));
}

#[test]
fn test_disk_convert_with_default_values() {
    let disk = Disk::default();

    let component = disk.convert(Some((1_000_000, 400_000))).unwrap();

    assert_eq!(component.name, DISK_NAME);
    assert_eq!(component.icon, DISK_ICON);
    assert!(component.value.ends_with("%"));
}

#[test]
fn test_disk_convert_with_invalid_unit() {
    let disk = Disk {
        time: Some(2000),
        name: Some(String::from("Invalid Disk")),
        icon: Some(String::from(DISK_ICON)),
        unit: Some(String::from("invalid_unit")),
    };

    let result = disk.convert(None);

    assert!(result.is_err());
}

#[test]
fn disk_convert_exact_percentage() {
    let disk = Disk::default();
    // 600000 of 1000000 bytes used: 60 percent, rounded down
    let component = disk.convert(Some((1_000_000, 400_000))).unwrap();
    assert_eq!(component.value, "60%");
}

#[test]
fn disk_convert_zero_total_is_rejected() {
    let disk = Disk::default();
    assert!(disk.convert(Some((0, 0))).is_err());
}

#[test]
fn test_memory_get_time() {
    let memory = Memory { time: Some(2000), name: None, icon: None };
    assert_eq!(memory.time(), 2000);

    let memory_default = Memory::default();
    assert_eq!(memory_default.time(), 1000);
}

#[test]
fn test_memory_convert() {
    let memory = Memory {
        time: Some(1000),
        name: Some(String::from("Custom RAM")),
        icon: Some(String::from(MEM_ICON)),
    };

    let component = memory.convert(Some(String::from(MEMINFO))).unwrap();

    assert_eq!(component.name, "Custom RAM");
    assert_eq!(component.icon, MEM_ICON);
    assert!(component.value.ends_with("%"));
}

#[test]
fn test_memory_convert_with_default_values() {
    let memory = Memory::default();

    let component = memory.convert(Some(String::from(MEMINFO))).unwrap();

    assert_eq!(component.name, MEM_NAME);
    assert_eq!(component.icon, MEM_ICON);
    assert!(component.value.ends_with("%"));
}

#[test]
fn memory_convert_exact_percentage() {
    let memory = Memory::default();
    // used = 16000000 - 8000000 - 500000 - 1500000 = 6000000 of 16000000:
    // 37.5 percent, rounded up to 38
    let component = memory.convert(Some(String::from(MEMINFO))).unwrap();
    assert_eq!(component.value, "38%");
}

#[test]
fn memory_convert_missing_totals_is_rejected() {
    let memory = Memory::default();
    let result = memory.convert(Some(String::from("Buffers: 10 kB\nCached: 10 kB\n")));
    assert!(result.is_err());
}

#[test]
fn test_network_get_time() {
    let network = Network { time: Some(2000), name: None, icon_up: None, icon_down: None };
    assert_eq!(network.time(), 2000);

    let network_default = Network::default();
    assert_eq!(network_default.time(), 1000);
}

#[test]
fn test_network_convert_success() {
    let network = Network {
        time: Some(1000),
        name: Some(String::from("Custom Network")),
        icon_up: Some(String::from(NET_ICON_UP)),
        icon_down: Some(String::from("\u{f0be1} ")),
    };

    let component = network.convert(Some(true)).unwrap();

    assert_eq!(component.name, "Custom Network");
    assert_eq!(component.icon, NET_ICON_UP);
    assert_eq!(component.value, "");
}

#[test]
fn test_convert_success() {
    let script = Script {
        time: Some(1000),
        name: Some(String::from("Test Script")),
        icon: Some(String::from(SCR_ICON)),
        path: String::from("/tmp/script.sh"),
    };

    let run = RunOutput { success: true, stdout: String::from("Hello, World!\n") };
    let component = script.convert(Some(run)).unwrap();

    assert_eq!(component.name, "Test Script");
    assert_eq!(component.icon, SCR_ICON);
    assert_eq!(component.value, "Hello, World!\n");
}

#[test]
fn test_convert_failure() {
    let script = Script {
        time: Some(1000),
        name: Some(String::from("Nonexistent Script")),
        icon: Some(String::from("\u{274c}")),
        path: String::from("/nonexistent/path"),
    };

    // a run that exits with a non-zero status is a sample failure
    let run = RunOutput { success: false, stdout: String::new() };
    let result = script.convert(Some(run));

    assert!(matches!(result, Err(SourceError::Failed)));
}

#[test]
fn script_convert_unavailable() {
    let script = Script::default();
    assert!(matches!(script.convert(None), Err(SourceError::Unavailable)));
}

#[test]
fn test_temperature_get_time() {
    let temperature = Temperature { time: Some(2000), name: None, icon: None, zone: None };
    assert_eq!(temperature.time(), 2000);

    let temperature_default = Temperature::default();
    assert_eq!(temperature_default.time(), 1000);
}

#[test]
fn test_temperature_convert() {
    let temperature = Temperature {
        time: Some(1000),
        name: Some(String::from("Current Temperature")),
        icon: Some(String::from(TEMP_ICON)),
        zone: Some(2),
    };

    let component = temperature.convert(Some(String::from("45000\n"))).unwrap();

    assert_eq!(component.name, "Current Temperature");
    assert_eq!(component.icon, TEMP_ICON);
}

#[test]
fn temperature_convert_rounds_to_degrees() {
    let temperature = Temperature::default();
    let component = temperature.convert(Some(String::from("45678\n"))).unwrap();
    assert_eq!(component.value, "46\u{b0}C");

    let below_zero = temperature.convert(Some(String::from("-8200\n"))).unwrap();
    assert_eq!(below_zero.value, "-8\u{b0}C");
}

#[test]
fn temperature_convert_rejects_garbage() {
    let temperature = Temperature::default();
    assert!(temperature.convert(Some(String::from("hot\n"))).is_err());
}

#[test]
fn test_volume_get_time() {
    let volume = Volume { time: Some(200), name: None, icon_active: None, icon_muted: None };
    assert_eq!(volume.time(), 200);

    let volume_default = Volume::default();
    assert_eq!(volume_default.time(), 100);
}

#[test]
fn test_volume_convert() {
    let volume = Volume::default();
    let level = VolumeLevel::Active { volume: 50, min: 0, max: 100 };
    let component = volume.convert(Some(level)).unwrap();

    assert_eq!(component.name, VOL_NAME);
    assert!(component.icon == VOL_ICON_ACTIVE || component.icon == VOL_ICON_MUTED);
    assert!(component.value.ends_with("%") || component.value == "MUTED");
}

#[test]
fn volume_convert_muted() {
    let volume = Volume::default();
    let component = volume.convert(Some(VolumeLevel::Muted)).unwrap();
    assert_eq!(component.icon, VOL_ICON_MUTED);
    assert_eq!(component.value, "MUTED");
}

#[test]
fn volume_convert_exact_percentage() {
    let volume = Volume::default();
    let level = VolumeLevel::Active { volume: 25, min: 0, max: 200 };
    let component = volume.convert(Some(level)).unwrap();
    // 25 of 200 is 12.5 percent, rounded up
    assert_eq!(component.value, "13%");
}

#[test]
fn volume_convert_empty_range_is_rejected() {
    let volume = Volume::default();
    let level = VolumeLevel::Active { volume: 5, min: 7, max: 7 };
    assert!(volume.convert(Some(level)).is_err());
}

#[test]
fn weather_test_convert_success() {
    let weather = Weather {
        time: Some(1800000),
        name: Some(String::from(WEA_NAME)),
        icon: Some(String::from(WEA_ICON)),
        location: String::from("Buenos+Aires"),
    };

    let component = weather.convert(Some((true, String::from("+23\u{b0}C")))).unwrap();

    assert_eq!(component.name, WEA_NAME);
    assert_eq!(component.icon, WEA_ICON);
    assert!(!component.value.is_empty());
    assert!(component.value.len() > 4);
}

#[test]
fn weather_test_convert_failure() {
    let weather = Weather::default();

    // a fetch that reported failure is a sample failure
    let result = weather.convert(Some((false, String::new())));

    assert!(matches!(result, Err(SourceError::Failed)));
}

#[test]
fn weather_convert_drops_plus_and_truncates() {
    let weather = Weather::default();
    let component = weather.convert(Some((true, String::from("+12.34\u{b0}C")))).unwrap();
    assert_eq!(component.value, "12.34");
}

#[test]
fn weather_convert_unavailable() {
    let weather = Weather::default();
    assert!(matches!(weather.convert(None), Err(SourceError::Unavailable)));
}
