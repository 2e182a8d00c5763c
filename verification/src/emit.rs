//! The readings of one poll and the parameter messages that carry them.

use crate::clock::{time_code_of, weekday_code_of, LocalTime};
use crate::config::Config;
use crate::reading::{memory_percent, option_view, percent_of, Ratio, Reading};
use crate::tree::{
    find_numeric, find_temperature, find_wifi_speed, interface_reading, resolve,
    resolve_temperature, SensorNode, SensorTree,
};
use vstd::prelude::*;

verus! {

/// A parameter of the receiving side.
#[derive(Clone, Copy, Debug, PartialEq, Eq, Structural)]
pub enum Parameter {
    CpuTemp,
    CpuUsage,
    GpuTemp,
    GpuUsage,
    GpuMemoryUsed,
    GpuMemoryPercent,
    WifiUp,
    WifiDown,
    TimeString,
    Weekday,
}

impl Parameter {
    /// The address of the parameter.
    pub open spec fn path_of(self) -> Seq<char> {
        match self {
            Parameter::CpuTemp => "/avatar/parameters/CPU_Temp"@,
            Parameter::CpuUsage => "/avatar/parameters/CPU_Usage"@,
            Parameter::GpuTemp => "/avatar/parameters/GPU_Temp"@,
            Parameter::GpuUsage => "/avatar/parameters/GPU_Usage"@,
            Parameter::GpuMemoryUsed => "/avatar/parameters/GPU_Memory_Used"@,
            Parameter::GpuMemoryPercent => "/avatar/parameters/GPU_Memory_Percent"@,
            Parameter::WifiUp => "/avatar/parameters/Wifi_Up"@,
            Parameter::WifiDown => "/avatar/parameters/Wifi_Down"@,
            Parameter::TimeString => "/avatar/parameters/TimeString"@,
            Parameter::Weekday => "/avatar/parameters/Weekday"@,
        }
    }

    /// The address of the parameter.
    pub fn path(self) -> (p: &'static str)
        ensures
            p@ == self.path_of(),
    {
        match self {
            Parameter::CpuTemp => "/avatar/parameters/CPU_Temp",
            Parameter::CpuUsage => "/avatar/parameters/CPU_Usage",
            Parameter::GpuTemp => "/avatar/parameters/GPU_Temp",
            Parameter::GpuUsage => "/avatar/parameters/GPU_Usage",
            Parameter::GpuMemoryUsed => "/avatar/parameters/GPU_Memory_Used",
            Parameter::GpuMemoryPercent => "/avatar/parameters/GPU_Memory_Percent",
            Parameter::WifiUp => "/avatar/parameters/Wifi_Up",
            Parameter::WifiDown => "/avatar/parameters/Wifi_Down",
            Parameter::TimeString => "/avatar/parameters/TimeString",
            Parameter::Weekday => "/avatar/parameters/Weekday",
        }
    }
}

/// One parameter message: a parameter and the value it is set to.
pub ghost struct Message {
    pub parameter: Parameter,
    pub value: Ratio,
}

/// One parameter message to send.
#[derive(Clone, Copy, Debug)]
pub struct Emission {
    pub parameter: Parameter,
    pub value: Reading,
}

impl View for Emission {
    type V = Message;

    open spec fn view(&self) -> Message {
        Message { parameter: self.parameter, value: self.value@ }
    }
}

/// The readings of the sensor roles as ratios.
pub ghost struct ReadingsView {
    pub cpu_temp: Ratio,
    pub cpu_usage: Ratio,
    pub gpu_temp: Ratio,
    pub gpu_usage: Ratio,
    pub gpu_mem_used: Ratio,
    pub gpu_mem_total: Ratio,
    pub gpu_mem_percent: Ratio,
    pub wifi_up: Ratio,
    pub wifi_down: Ratio,
}

/// The whole number `n` as a ratio.
pub open spec fn whole(n: int) -> Ratio {
    Ratio { num: n, den: 1, exp10: 0 }
}

/// The reading found, or the whole number `fallback` where none was.
pub open spec fn found_or(found: Option<Ratio>, fallback: int) -> Ratio {
    match found {
        Some(r) => r,
        None => whole(fallback),
    }
}

/// The readings before any poll: -1 for what is not available, 0 for the
/// network speeds.
pub open spec fn initial_readings() -> ReadingsView {
    ReadingsView {
        cpu_temp: whole(-1),
        cpu_usage: whole(-1),
        gpu_temp: whole(-1),
        gpu_usage: whole(-1),
        gpu_mem_used: whole(-1),
        gpu_mem_total: whole(-1),
        gpu_mem_percent: whole(-1),
        wifi_up: whole(0),
        wifi_down: whole(0),
    }
}

/// The readings after a poll that fetched `tree`. Each role is looked up
/// under its configured label; a role that is not found gets -1, a network
/// speed 0. The share of memory in use is computed anew where the memory used
/// and the memory in all are both greater than zero, and stays as it was in
/// `previous` where they are not.
pub open spec fn refreshed(previous: ReadingsView, tree: SensorTree, config: Config)
    -> ReadingsView {
    let used = found_or(resolve(tree, config.gpu_mem_used_name@), -1);
    let total = found_or(resolve(tree, config.gpu_mem_total_name@), -1);
    ReadingsView {
        cpu_temp: found_or(resolve_temperature(tree, config.cpu_temp_name@), -1),
        cpu_usage: found_or(resolve(tree, config.cpu_usage_name@), -1),
        gpu_temp: found_or(resolve_temperature(tree, config.gpu_temp_name@), -1),
        gpu_usage: found_or(resolve(tree, config.gpu_usage_name@), -1),
        gpu_mem_used: used,
        gpu_mem_total: total,
        gpu_mem_percent: percent_of(used, total, previous.gpu_mem_percent),
        wifi_up: found_or(interface_reading(tree, config.wifi_up_name@), 0),
        wifi_down: found_or(interface_reading(tree, config.wifi_down_name@), 0),
    }
}

/// The messages of one successful poll, in the order in which they are sent:
/// the eight sensor parameters, then the time of day and the day of the week.
/// The memory in all has no parameter of its own.
pub open spec fn messages(r: ReadingsView, time: LocalTime) -> Seq<Message> {
    seq![
        Message { parameter: Parameter::CpuTemp, value: r.cpu_temp },
        Message { parameter: Parameter::CpuUsage, value: r.cpu_usage },
        Message { parameter: Parameter::GpuTemp, value: r.gpu_temp },
        Message { parameter: Parameter::GpuUsage, value: r.gpu_usage },
        Message { parameter: Parameter::GpuMemoryUsed, value: r.gpu_mem_used },
        Message { parameter: Parameter::GpuMemoryPercent, value: r.gpu_mem_percent },
        Message { parameter: Parameter::WifiUp, value: r.wifi_up },
        Message { parameter: Parameter::WifiDown, value: r.wifi_down },
        Message {
            parameter: Parameter::TimeString,
            value: whole(time_code_of(time.hour as int, time.minute as int, time.second as int)),
        },
        Message { parameter: Parameter::Weekday, value: whole(weekday_code_of(time.weekday)) },
    ]
}

/// The views of the emissions in `v`, in their order.
pub open spec fn views_of(v: Seq<Emission>) -> Seq<Message> {
    Seq::new(v.len(), |i: int| v[i]@)
}

/// The readings of the sensor roles, as the last successful poll left them.
#[derive(Clone, Copy, Debug)]
pub struct Readings {
    pub cpu_temp: Reading,
    pub cpu_usage: Reading,
    pub gpu_temp: Reading,
    pub gpu_usage: Reading,
    pub gpu_mem_used: Reading,
    pub gpu_mem_total: Reading,
    pub gpu_mem_percent: Reading,
    pub wifi_up: Reading,
    pub wifi_down: Reading,
}

impl View for Readings {
    type V = ReadingsView;

    open spec fn view(&self) -> ReadingsView {
        ReadingsView {
            cpu_temp: self.cpu_temp@,
            cpu_usage: self.cpu_usage@,
            gpu_temp: self.gpu_temp@,
            gpu_usage: self.gpu_usage@,
            gpu_mem_used: self.gpu_mem_used@,
            gpu_mem_total: self.gpu_mem_total@,
            gpu_mem_percent: self.gpu_mem_percent@,
            wifi_up: self.wifi_up@,
            wifi_down: self.wifi_down@,
        }
    }
}

/// The reading found, or the whole number `fallback` where none was.
fn reading_or(found: Option<Reading>, fallback: i32) -> (r: Reading)
    requires
        found is Some ==> found->0@.sensor_sized(),
    ensures
        r@ == found_or(option_view(found), fallback as int),
        r@.sensor_sized(),
{
    match found {
        Some(r) => r,
        None => Reading::from_integer(fallback),
    }
}

impl Readings {
    /// The readings before any poll.
    pub fn new() -> (r: Readings)
        ensures
            r@ == initial_readings(),
    {
        let unavailable: Reading = Reading::from_integer(-1);
        let none: Reading = Reading::from_integer(0);
        Readings {
            cpu_temp: unavailable,
            cpu_usage: unavailable,
            gpu_temp: unavailable,
            gpu_usage: unavailable,
            gpu_mem_used: unavailable,
            gpu_mem_total: unavailable,
            gpu_mem_percent: unavailable,
            wifi_up: none,
            wifi_down: none,
        }
    }

    /// Takes the readings of every role from the tree that a poll fetched.
    pub fn refresh(&mut self, tree: &SensorNode, config: &Config)
        ensures
            final(self)@ == refreshed(old(self)@, tree@, *config),
    {
        let used: Reading = reading_or(find_numeric(tree, config.gpu_mem_used_name.as_str()), -1);
        let total: Reading = reading_or(
            find_numeric(tree, config.gpu_mem_total_name.as_str()),
            -1,
        );
        self.cpu_temp = reading_or(find_temperature(tree, config.cpu_temp_name.as_str()), -1);
        self.cpu_usage = reading_or(find_numeric(tree, config.cpu_usage_name.as_str()), -1);
        self.gpu_temp = reading_or(find_temperature(tree, config.gpu_temp_name.as_str()), -1);
        self.gpu_usage = reading_or(find_numeric(tree, config.gpu_usage_name.as_str()), -1);
        self.gpu_mem_used = used;
        self.gpu_mem_total = total;
        self.gpu_mem_percent = memory_percent(used, total, self.gpu_mem_percent);
        self.wifi_up = reading_or(find_wifi_speed(tree, config.wifi_up_name.as_str()), 0);
        self.wifi_down = reading_or(find_wifi_speed(tree, config.wifi_down_name.as_str()), 0);
    }

    /// The messages that carry these readings and the time `time`.
    pub fn emissions(&self, time: &LocalTime) -> (out: Vec<Emission>)
        ensures
            views_of(out@) == messages(self@, *time),
    {
        let out: Vec<Emission> = vec![
            Emission { parameter: Parameter::CpuTemp, value: self.cpu_temp },
            Emission { parameter: Parameter::CpuUsage, value: self.cpu_usage },
            Emission { parameter: Parameter::GpuTemp, value: self.gpu_temp },
            Emission { parameter: Parameter::GpuUsage, value: self.gpu_usage },
            Emission { parameter: Parameter::GpuMemoryUsed, value: self.gpu_mem_used },
            Emission { parameter: Parameter::GpuMemoryPercent, value: self.gpu_mem_percent },
            Emission { parameter: Parameter::WifiUp, value: self.wifi_up },
            Emission { parameter: Parameter::WifiDown, value: self.wifi_down },
            Emission {
                parameter: Parameter::TimeString,
                value: Reading::from_integer(time.time_code() as i32),
            },
            Emission {
                parameter: Parameter::Weekday,
                value: Reading::from_integer(time.weekday_code() as i32),
            },
        ];
        assert(views_of(out@) =~= messages(self@, *time));
        out
    }
}

} // verus!
