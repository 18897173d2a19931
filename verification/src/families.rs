//! Metric family definitions: names, types and HELP text, in exposition order.
//!
//! `Family` names every family the collector emits. The first fifty-nine, in
//! declaration order, are the families that reach the exposition; the last
//! four (CPU quota and CFS throttling) are collected but never exposed, as in
//! a default-flag cAdvisor.

use vstd::prelude::*;

use crate::text::{chars_of, range_eq};

verus! {

#[derive(Debug, Clone, Copy, PartialEq, Eq, Structural)]
pub enum Kind {
    Counter,
    Gauge,
}

impl Kind {
    pub open spec fn text(self) -> Seq<char> {
        match self {
            Kind::Counter => "counter"@,
            Kind::Gauge => "gauge"@,
        }
    }

    pub fn as_str(self) -> (r: &'static str)
        ensures
            r@ == self.text(),
    {
        match self {
            Kind::Counter => "counter",
            Kind::Gauge => "gauge",
        }
    }
}

/// Number of families that reach the exposition.
pub const EXPOSED_FAMILIES: usize = 59;

#[derive(Debug, Clone, Copy, PartialEq, Eq, Structural)]
pub enum Family {
    CadvisorVersionInfo,
    ContainerBlkioDeviceUsageTotal,
    ContainerCpuLoadAverage10s,
    ContainerCpuSystemSecondsTotal,
    ContainerCpuUsageSecondsTotal,
    ContainerCpuUserSecondsTotal,
    ContainerFsInodesFree,
    ContainerFsInodesTotal,
    ContainerFsIoCurrent,
    ContainerFsIoTimeSecondsTotal,
    ContainerFsIoTimeWeightedSecondsTotal,
    ContainerFsLimitBytes,
    ContainerFsReadSecondsTotal,
    ContainerFsReadsBytesTotal,
    ContainerFsReadsMergedTotal,
    ContainerFsReadsTotal,
    ContainerFsSectorReadsTotal,
    ContainerFsSectorWritesTotal,
    ContainerFsUsageBytes,
    ContainerFsWriteSecondsTotal,
    ContainerFsWritesBytesTotal,
    ContainerFsWritesMergedTotal,
    ContainerFsWritesTotal,
    ContainerLastSeen,
    ContainerMemoryCache,
    ContainerMemoryFailcnt,
    ContainerMemoryFailuresTotal,
    ContainerMemoryKernelUsage,
    ContainerMemoryMappedFile,
    ContainerMemoryMaxUsageBytes,
    ContainerMemoryRss,
    ContainerMemorySwap,
    ContainerMemoryUsageBytes,
    ContainerMemoryWorkingSetBytes,
    ContainerNetworkReceiveBytesTotal,
    ContainerNetworkReceiveErrorsTotal,
    ContainerNetworkReceivePacketsDroppedTotal,
    ContainerNetworkReceivePacketsTotal,
    ContainerNetworkTransmitBytesTotal,
    ContainerNetworkTransmitErrorsTotal,
    ContainerNetworkTransmitPacketsDroppedTotal,
    ContainerNetworkTransmitPacketsTotal,
    ContainerOomEventsTotal,
    ContainerScrapeError,
    ContainerSpecCpuPeriod,
    ContainerSpecCpuShares,
    ContainerSpecMemoryLimitBytes,
    ContainerSpecMemoryReservationLimitBytes,
    ContainerSpecMemorySwapLimitBytes,
    ContainerStartTimeSeconds,
    ContainerTasksState,
    MachineCpuCores,
    MachineCpuPhysicalCores,
    MachineCpuSockets,
    MachineMemoryBytes,
    MachineNvmAvgPowerBudgetWatts,
    MachineNvmCapacity,
    MachineScrapeError,
    MachineSwapBytes,
    ContainerSpecCpuQuota,
    ContainerCpuCfsPeriodsTotal,
    ContainerCpuCfsThrottledPeriodsTotal,
    ContainerCpuCfsThrottledSecondsTotal,
}

impl Family {
    pub open spec fn name_text(self) -> Seq<char> {
        match self {
            Family::CadvisorVersionInfo => "cadvisor_version_info"@,
            Family::ContainerBlkioDeviceUsageTotal => "container_blkio_device_usage_total"@,
            Family::ContainerCpuLoadAverage10s => "container_cpu_load_average_10s"@,
            Family::ContainerCpuSystemSecondsTotal => "container_cpu_system_seconds_total"@,
            Family::ContainerCpuUsageSecondsTotal => "container_cpu_usage_seconds_total"@,
            Family::ContainerCpuUserSecondsTotal => "container_cpu_user_seconds_total"@,
            Family::ContainerFsInodesFree => "container_fs_inodes_free"@,
            Family::ContainerFsInodesTotal => "container_fs_inodes_total"@,
            Family::ContainerFsIoCurrent => "container_fs_io_current"@,
            Family::ContainerFsIoTimeSecondsTotal => "container_fs_io_time_seconds_total"@,
            Family::ContainerFsIoTimeWeightedSecondsTotal => "container_fs_io_time_weighted_seconds_total"@,
            Family::ContainerFsLimitBytes => "container_fs_limit_bytes"@,
            Family::ContainerFsReadSecondsTotal => "container_fs_read_seconds_total"@,
            Family::ContainerFsReadsBytesTotal => "container_fs_reads_bytes_total"@,
            Family::ContainerFsReadsMergedTotal => "container_fs_reads_merged_total"@,
            Family::ContainerFsReadsTotal => "container_fs_reads_total"@,
            Family::ContainerFsSectorReadsTotal => "container_fs_sector_reads_total"@,
            Family::ContainerFsSectorWritesTotal => "container_fs_sector_writes_total"@,
            Family::ContainerFsUsageBytes => "container_fs_usage_bytes"@,
            Family::ContainerFsWriteSecondsTotal => "container_fs_write_seconds_total"@,
            Family::ContainerFsWritesBytesTotal => "container_fs_writes_bytes_total"@,
            Family::ContainerFsWritesMergedTotal => "container_fs_writes_merged_total"@,
            Family::ContainerFsWritesTotal => "container_fs_writes_total"@,
            Family::ContainerLastSeen => "container_last_seen"@,
            Family::ContainerMemoryCache => "container_memory_cache"@,
            Family::ContainerMemoryFailcnt => "container_memory_failcnt"@,
            Family::ContainerMemoryFailuresTotal => "container_memory_failures_total"@,
            Family::ContainerMemoryKernelUsage => "container_memory_kernel_usage"@,
            Family::ContainerMemoryMappedFile => "container_memory_mapped_file"@,
            Family::ContainerMemoryMaxUsageBytes => "container_memory_max_usage_bytes"@,
            Family::ContainerMemoryRss => "container_memory_rss"@,
            Family::ContainerMemorySwap => "container_memory_swap"@,
            Family::ContainerMemoryUsageBytes => "container_memory_usage_bytes"@,
            Family::ContainerMemoryWorkingSetBytes => "container_memory_working_set_bytes"@,
            Family::ContainerNetworkReceiveBytesTotal => "container_network_receive_bytes_total"@,
            Family::ContainerNetworkReceiveErrorsTotal => "container_network_receive_errors_total"@,
            Family::ContainerNetworkReceivePacketsDroppedTotal => "container_network_receive_packets_dropped_total"@,
            Family::ContainerNetworkReceivePacketsTotal => "container_network_receive_packets_total"@,
            Family::ContainerNetworkTransmitBytesTotal => "container_network_transmit_bytes_total"@,
            Family::ContainerNetworkTransmitErrorsTotal => "container_network_transmit_errors_total"@,
            Family::ContainerNetworkTransmitPacketsDroppedTotal => "container_network_transmit_packets_dropped_total"@,
            Family::ContainerNetworkTransmitPacketsTotal => "container_network_transmit_packets_total"@,
            Family::ContainerOomEventsTotal => "container_oom_events_total"@,
            Family::ContainerScrapeError => "container_scrape_error"@,
            Family::ContainerSpecCpuPeriod => "container_spec_cpu_period"@,
            Family::ContainerSpecCpuShares => "container_spec_cpu_shares"@,
            Family::ContainerSpecMemoryLimitBytes => "container_spec_memory_limit_bytes"@,
            Family::ContainerSpecMemoryReservationLimitBytes => "container_spec_memory_reservation_limit_bytes"@,
            Family::ContainerSpecMemorySwapLimitBytes => "container_spec_memory_swap_limit_bytes"@,
            Family::ContainerStartTimeSeconds => "container_start_time_seconds"@,
            Family::ContainerTasksState => "container_tasks_state"@,
            Family::MachineCpuCores => "machine_cpu_cores"@,
            Family::MachineCpuPhysicalCores => "machine_cpu_physical_cores"@,
            Family::MachineCpuSockets => "machine_cpu_sockets"@,
            Family::MachineMemoryBytes => "machine_memory_bytes"@,
            Family::MachineNvmAvgPowerBudgetWatts => "machine_nvm_avg_power_budget_watts"@,
            Family::MachineNvmCapacity => "machine_nvm_capacity"@,
            Family::MachineScrapeError => "machine_scrape_error"@,
            Family::MachineSwapBytes => "machine_swap_bytes"@,
            Family::ContainerSpecCpuQuota => "container_spec_cpu_quota"@,
            Family::ContainerCpuCfsPeriodsTotal => "container_cpu_cfs_periods_total"@,
            Family::ContainerCpuCfsThrottledPeriodsTotal => "container_cpu_cfs_throttled_periods_total"@,
            Family::ContainerCpuCfsThrottledSecondsTotal => "container_cpu_cfs_throttled_seconds_total"@,
        }
    }

    pub open spec fn help_text(self) -> Seq<char> {
        match self {
            Family::CadvisorVersionInfo => "A metric with a constant '1' value labeled by kernel version, OS version, docker version, cadvisor version & cadvisor revision."@,
            Family::ContainerBlkioDeviceUsageTotal => "Blkio Device bytes usage"@,
            Family::ContainerCpuLoadAverage10s => "Value of container cpu load average over the last 10 seconds."@,
            Family::ContainerCpuSystemSecondsTotal => "Cumulative system cpu time consumed in seconds."@,
            Family::ContainerCpuUsageSecondsTotal => "Cumulative cpu time consumed in seconds."@,
            Family::ContainerCpuUserSecondsTotal => "Cumulative user cpu time consumed in seconds."@,
            Family::ContainerFsInodesFree => "Number of available Inodes"@,
            Family::ContainerFsInodesTotal => "Number of Inodes"@,
            Family::ContainerFsIoCurrent => "Number of I/Os currently in progress"@,
            Family::ContainerFsIoTimeSecondsTotal => "Cumulative count of seconds spent doing I/Os"@,
            Family::ContainerFsIoTimeWeightedSecondsTotal => "Cumulative weighted I/O time in seconds"@,
            Family::ContainerFsLimitBytes => "Number of bytes that can be consumed by the container on this filesystem."@,
            Family::ContainerFsReadSecondsTotal => "Cumulative count of seconds spent reading"@,
            Family::ContainerFsReadsBytesTotal => "Cumulative count of bytes read"@,
            Family::ContainerFsReadsMergedTotal => "Cumulative count of reads merged"@,
            Family::ContainerFsReadsTotal => "Cumulative count of reads completed"@,
            Family::ContainerFsSectorReadsTotal => "Cumulative count of sector reads completed"@,
            Family::ContainerFsSectorWritesTotal => "Cumulative count of sector writes completed"@,
            Family::ContainerFsUsageBytes => "Number of bytes that are consumed by the container on this filesystem."@,
            Family::ContainerFsWriteSecondsTotal => "Cumulative count of seconds spent writing"@,
            Family::ContainerFsWritesBytesTotal => "Cumulative count of bytes written"@,
            Family::ContainerFsWritesMergedTotal => "Cumulative count of writes merged"@,
            Family::ContainerFsWritesTotal => "Cumulative count of writes completed"@,
            Family::ContainerLastSeen => "Last time a container was seen by the exporter"@,
            Family::ContainerMemoryCache => "Number of bytes of page cache memory."@,
            Family::ContainerMemoryFailcnt => "Number of memory usage hits limits"@,
            Family::ContainerMemoryFailuresTotal => "Cumulative count of memory allocation failures."@,
            Family::ContainerMemoryKernelUsage => "Size of kernel memory allocated in bytes."@,
            Family::ContainerMemoryMappedFile => "Size of memory mapped files in bytes."@,
            Family::ContainerMemoryMaxUsageBytes => "Maximum memory usage recorded in bytes"@,
            Family::ContainerMemoryRss => "Size of RSS in bytes."@,
            Family::ContainerMemorySwap => "Container swap usage in bytes."@,
            Family::ContainerMemoryUsageBytes => "Current memory usage in bytes, including all memory regardless of when it was accessed"@,
            Family::ContainerMemoryWorkingSetBytes => "Current working set in bytes."@,
            Family::ContainerNetworkReceiveBytesTotal => "Cumulative count of bytes received"@,
            Family::ContainerNetworkReceiveErrorsTotal => "Cumulative count of errors encountered while receiving"@,
            Family::ContainerNetworkReceivePacketsDroppedTotal => "Cumulative count of packets dropped while receiving"@,
            Family::ContainerNetworkReceivePacketsTotal => "Cumulative count of packets received"@,
            Family::ContainerNetworkTransmitBytesTotal => "Cumulative count of bytes transmitted"@,
            Family::ContainerNetworkTransmitErrorsTotal => "Cumulative count of errors encountered while transmitting"@,
            Family::ContainerNetworkTransmitPacketsDroppedTotal => "Cumulative count of packets dropped while transmitting"@,
            Family::ContainerNetworkTransmitPacketsTotal => "Cumulative count of packets transmitted"@,
            Family::ContainerOomEventsTotal => "Count of out of memory events observed for the container"@,
            Family::ContainerScrapeError => "1 if there was an error while getting container metrics, 0 otherwise"@,
            Family::ContainerSpecCpuPeriod => "CPU period of the container."@,
            Family::ContainerSpecCpuShares => "CPU share of the container."@,
            Family::ContainerSpecMemoryLimitBytes => "Memory limit for the container."@,
            Family::ContainerSpecMemoryReservationLimitBytes => "Memory reservation limit for the container."@,
            Family::ContainerSpecMemorySwapLimitBytes => "Memory swap limit for the container."@,
            Family::ContainerStartTimeSeconds => "Start time of the container since unix epoch in seconds."@,
            Family::ContainerTasksState => "Number of tasks in given state"@,
            Family::MachineCpuCores => "Number of logical CPU cores."@,
            Family::MachineCpuPhysicalCores => "Number of physical CPU cores."@,
            Family::MachineCpuSockets => "Number of CPU sockets."@,
            Family::MachineMemoryBytes => "Amount of memory installed on the machine."@,
            Family::MachineNvmAvgPowerBudgetWatts => "NVM power budget."@,
            Family::MachineNvmCapacity => "NVM capacity value labeled by NVM mode (memory mode or app direct mode)."@,
            Family::MachineScrapeError => "1 if there was an error while getting machine metrics, 0 otherwise."@,
            Family::MachineSwapBytes => "Amount of swap memory available on the machine."@,
            Family::ContainerSpecCpuQuota => ""@,
            Family::ContainerCpuCfsPeriodsTotal => ""@,
            Family::ContainerCpuCfsThrottledPeriodsTotal => ""@,
            Family::ContainerCpuCfsThrottledSecondsTotal => ""@,
        }
    }

    pub open spec fn kind_spec(self) -> Kind {
        match self {
            Family::CadvisorVersionInfo => Kind::Gauge,
            Family::ContainerBlkioDeviceUsageTotal => Kind::Counter,
            Family::ContainerCpuLoadAverage10s => Kind::Gauge,
            Family::ContainerCpuSystemSecondsTotal => Kind::Counter,
            Family::ContainerCpuUsageSecondsTotal => Kind::Counter,
            Family::ContainerCpuUserSecondsTotal => Kind::Counter,
            Family::ContainerFsInodesFree => Kind::Gauge,
            Family::ContainerFsInodesTotal => Kind::Gauge,
            Family::ContainerFsIoCurrent => Kind::Gauge,
            Family::ContainerFsIoTimeSecondsTotal => Kind::Counter,
            Family::ContainerFsIoTimeWeightedSecondsTotal => Kind::Counter,
            Family::ContainerFsLimitBytes => Kind::Gauge,
            Family::ContainerFsReadSecondsTotal => Kind::Counter,
            Family::ContainerFsReadsBytesTotal => Kind::Counter,
            Family::ContainerFsReadsMergedTotal => Kind::Counter,
            Family::ContainerFsReadsTotal => Kind::Counter,
            Family::ContainerFsSectorReadsTotal => Kind::Counter,
            Family::ContainerFsSectorWritesTotal => Kind::Counter,
            Family::ContainerFsUsageBytes => Kind::Gauge,
            Family::ContainerFsWriteSecondsTotal => Kind::Counter,
            Family::ContainerFsWritesBytesTotal => Kind::Counter,
            Family::ContainerFsWritesMergedTotal => Kind::Counter,
            Family::ContainerFsWritesTotal => Kind::Counter,
            Family::ContainerLastSeen => Kind::Gauge,
            Family::ContainerMemoryCache => Kind::Gauge,
            Family::ContainerMemoryFailcnt => Kind::Counter,
            Family::ContainerMemoryFailuresTotal => Kind::Counter,
            Family::ContainerMemoryKernelUsage => Kind::Gauge,
            Family::ContainerMemoryMappedFile => Kind::Gauge,
            Family::ContainerMemoryMaxUsageBytes => Kind::Gauge,
            Family::ContainerMemoryRss => Kind::Gauge,
            Family::ContainerMemorySwap => Kind::Gauge,
            Family::ContainerMemoryUsageBytes => Kind::Gauge,
            Family::ContainerMemoryWorkingSetBytes => Kind::Gauge,
            Family::ContainerNetworkReceiveBytesTotal => Kind::Counter,
            Family::ContainerNetworkReceiveErrorsTotal => Kind::Counter,
            Family::ContainerNetworkReceivePacketsDroppedTotal => Kind::Counter,
            Family::ContainerNetworkReceivePacketsTotal => Kind::Counter,
            Family::ContainerNetworkTransmitBytesTotal => Kind::Counter,
            Family::ContainerNetworkTransmitErrorsTotal => Kind::Counter,
            Family::ContainerNetworkTransmitPacketsDroppedTotal => Kind::Counter,
            Family::ContainerNetworkTransmitPacketsTotal => Kind::Counter,
            Family::ContainerOomEventsTotal => Kind::Counter,
            Family::ContainerScrapeError => Kind::Gauge,
            Family::ContainerSpecCpuPeriod => Kind::Gauge,
            Family::ContainerSpecCpuShares => Kind::Gauge,
            Family::ContainerSpecMemoryLimitBytes => Kind::Gauge,
            Family::ContainerSpecMemoryReservationLimitBytes => Kind::Gauge,
            Family::ContainerSpecMemorySwapLimitBytes => Kind::Gauge,
            Family::ContainerStartTimeSeconds => Kind::Gauge,
            Family::ContainerTasksState => Kind::Gauge,
            Family::MachineCpuCores => Kind::Gauge,
            Family::MachineCpuPhysicalCores => Kind::Gauge,
            Family::MachineCpuSockets => Kind::Gauge,
            Family::MachineMemoryBytes => Kind::Gauge,
            Family::MachineNvmAvgPowerBudgetWatts => Kind::Gauge,
            Family::MachineNvmCapacity => Kind::Gauge,
            Family::MachineScrapeError => Kind::Gauge,
            Family::MachineSwapBytes => Kind::Gauge,
            Family::ContainerSpecCpuQuota => Kind::Gauge,
            Family::ContainerCpuCfsPeriodsTotal => Kind::Counter,
            Family::ContainerCpuCfsThrottledPeriodsTotal => Kind::Counter,
            Family::ContainerCpuCfsThrottledSecondsTotal => Kind::Counter,
        }
    }

    /// Position in the exposition, or -1 for a family that is never exposed.
    pub open spec fn rank(self) -> int {
        match self {
            Family::CadvisorVersionInfo => 0,
            Family::ContainerBlkioDeviceUsageTotal => 1,
            Family::ContainerCpuLoadAverage10s => 2,
            Family::ContainerCpuSystemSecondsTotal => 3,
            Family::ContainerCpuUsageSecondsTotal => 4,
            Family::ContainerCpuUserSecondsTotal => 5,
            Family::ContainerFsInodesFree => 6,
            Family::ContainerFsInodesTotal => 7,
            Family::ContainerFsIoCurrent => 8,
            Family::ContainerFsIoTimeSecondsTotal => 9,
            Family::ContainerFsIoTimeWeightedSecondsTotal => 10,
            Family::ContainerFsLimitBytes => 11,
            Family::ContainerFsReadSecondsTotal => 12,
            Family::ContainerFsReadsBytesTotal => 13,
            Family::ContainerFsReadsMergedTotal => 14,
            Family::ContainerFsReadsTotal => 15,
            Family::ContainerFsSectorReadsTotal => 16,
            Family::ContainerFsSectorWritesTotal => 17,
            Family::ContainerFsUsageBytes => 18,
            Family::ContainerFsWriteSecondsTotal => 19,
            Family::ContainerFsWritesBytesTotal => 20,
            Family::ContainerFsWritesMergedTotal => 21,
            Family::ContainerFsWritesTotal => 22,
            Family::ContainerLastSeen => 23,
            Family::ContainerMemoryCache => 24,
            Family::ContainerMemoryFailcnt => 25,
            Family::ContainerMemoryFailuresTotal => 26,
            Family::ContainerMemoryKernelUsage => 27,
            Family::ContainerMemoryMappedFile => 28,
            Family::ContainerMemoryMaxUsageBytes => 29,
            Family::ContainerMemoryRss => 30,
            Family::ContainerMemorySwap => 31,
            Family::ContainerMemoryUsageBytes => 32,
            Family::ContainerMemoryWorkingSetBytes => 33,
            Family::ContainerNetworkReceiveBytesTotal => 34,
            Family::ContainerNetworkReceiveErrorsTotal => 35,
            Family::ContainerNetworkReceivePacketsDroppedTotal => 36,
            Family::ContainerNetworkReceivePacketsTotal => 37,
            Family::ContainerNetworkTransmitBytesTotal => 38,
            Family::ContainerNetworkTransmitErrorsTotal => 39,
            Family::ContainerNetworkTransmitPacketsDroppedTotal => 40,
            Family::ContainerNetworkTransmitPacketsTotal => 41,
            Family::ContainerOomEventsTotal => 42,
            Family::ContainerScrapeError => 43,
            Family::ContainerSpecCpuPeriod => 44,
            Family::ContainerSpecCpuShares => 45,
            Family::ContainerSpecMemoryLimitBytes => 46,
            Family::ContainerSpecMemoryReservationLimitBytes => 47,
            Family::ContainerSpecMemorySwapLimitBytes => 48,
            Family::ContainerStartTimeSeconds => 49,
            Family::ContainerTasksState => 50,
            Family::MachineCpuCores => 51,
            Family::MachineCpuPhysicalCores => 52,
            Family::MachineCpuSockets => 53,
            Family::MachineMemoryBytes => 54,
            Family::MachineNvmAvgPowerBudgetWatts => 55,
            Family::MachineNvmCapacity => 56,
            Family::MachineScrapeError => 57,
            Family::MachineSwapBytes => 58,
            Family::ContainerSpecCpuQuota => -1,
            Family::ContainerCpuCfsPeriodsTotal => -1,
            Family::ContainerCpuCfsThrottledPeriodsTotal => -1,
            Family::ContainerCpuCfsThrottledSecondsTotal => -1,
        }
    }

    pub fn name(self) -> (r: &'static str)
        ensures
            r@ == self.name_text(),
    {
        match self {
            Family::CadvisorVersionInfo => "cadvisor_version_info",
            Family::ContainerBlkioDeviceUsageTotal => "container_blkio_device_usage_total",
            Family::ContainerCpuLoadAverage10s => "container_cpu_load_average_10s",
            Family::ContainerCpuSystemSecondsTotal => "container_cpu_system_seconds_total",
            Family::ContainerCpuUsageSecondsTotal => "container_cpu_usage_seconds_total",
            Family::ContainerCpuUserSecondsTotal => "container_cpu_user_seconds_total",
            Family::ContainerFsInodesFree => "container_fs_inodes_free",
            Family::ContainerFsInodesTotal => "container_fs_inodes_total",
            Family::ContainerFsIoCurrent => "container_fs_io_current",
            Family::ContainerFsIoTimeSecondsTotal => "container_fs_io_time_seconds_total",
            Family::ContainerFsIoTimeWeightedSecondsTotal => "container_fs_io_time_weighted_seconds_total",
            Family::ContainerFsLimitBytes => "container_fs_limit_bytes",
            Family::ContainerFsReadSecondsTotal => "container_fs_read_seconds_total",
            Family::ContainerFsReadsBytesTotal => "container_fs_reads_bytes_total",
            Family::ContainerFsReadsMergedTotal => "container_fs_reads_merged_total",
            Family::ContainerFsReadsTotal => "container_fs_reads_total",
            Family::ContainerFsSectorReadsTotal => "container_fs_sector_reads_total",
            Family::ContainerFsSectorWritesTotal => "container_fs_sector_writes_total",
            Family::ContainerFsUsageBytes => "container_fs_usage_bytes",
            Family::ContainerFsWriteSecondsTotal => "container_fs_write_seconds_total",
            Family::ContainerFsWritesBytesTotal => "container_fs_writes_bytes_total",
            Family::ContainerFsWritesMergedTotal => "container_fs_writes_merged_total",
            Family::ContainerFsWritesTotal => "container_fs_writes_total",
            Family::ContainerLastSeen => "container_last_seen",
            Family::ContainerMemoryCache => "container_memory_cache",
            Family::ContainerMemoryFailcnt => "container_memory_failcnt",
            Family::ContainerMemoryFailuresTotal => "container_memory_failures_total",
            Family::ContainerMemoryKernelUsage => "container_memory_kernel_usage",
            Family::ContainerMemoryMappedFile => "container_memory_mapped_file",
            Family::ContainerMemoryMaxUsageBytes => "container_memory_max_usage_bytes",
            Family::ContainerMemoryRss => "container_memory_rss",
            Family::ContainerMemorySwap => "container_memory_swap",
            Family::ContainerMemoryUsageBytes => "container_memory_usage_bytes",
            Family::ContainerMemoryWorkingSetBytes => "container_memory_working_set_bytes",
            Family::ContainerNetworkReceiveBytesTotal => "container_network_receive_bytes_total",
            Family::ContainerNetworkReceiveErrorsTotal => "container_network_receive_errors_total",
            Family::ContainerNetworkReceivePacketsDroppedTotal => "container_network_receive_packets_dropped_total",
            Family::ContainerNetworkReceivePacketsTotal => "container_network_receive_packets_total",
            Family::ContainerNetworkTransmitBytesTotal => "container_network_transmit_bytes_total",
            Family::ContainerNetworkTransmitErrorsTotal => "container_network_transmit_errors_total",
            Family::ContainerNetworkTransmitPacketsDroppedTotal => "container_network_transmit_packets_dropped_total",
            Family::ContainerNetworkTransmitPacketsTotal => "container_network_transmit_packets_total",
            Family::ContainerOomEventsTotal => "container_oom_events_total",
            Family::ContainerScrapeError => "container_scrape_error",
            Family::ContainerSpecCpuPeriod => "container_spec_cpu_period",
            Family::ContainerSpecCpuShares => "container_spec_cpu_shares",
            Family::ContainerSpecMemoryLimitBytes => "container_spec_memory_limit_bytes",
            Family::ContainerSpecMemoryReservationLimitBytes => "container_spec_memory_reservation_limit_bytes",
            Family::ContainerSpecMemorySwapLimitBytes => "container_spec_memory_swap_limit_bytes",
            Family::ContainerStartTimeSeconds => "container_start_time_seconds",
            Family::ContainerTasksState => "container_tasks_state",
            Family::MachineCpuCores => "machine_cpu_cores",
            Family::MachineCpuPhysicalCores => "machine_cpu_physical_cores",
            Family::MachineCpuSockets => "machine_cpu_sockets",
            Family::MachineMemoryBytes => "machine_memory_bytes",
            Family::MachineNvmAvgPowerBudgetWatts => "machine_nvm_avg_power_budget_watts",
            Family::MachineNvmCapacity => "machine_nvm_capacity",
            Family::MachineScrapeError => "machine_scrape_error",
            Family::MachineSwapBytes => "machine_swap_bytes",
            Family::ContainerSpecCpuQuota => "container_spec_cpu_quota",
            Family::ContainerCpuCfsPeriodsTotal => "container_cpu_cfs_periods_total",
            Family::ContainerCpuCfsThrottledPeriodsTotal => "container_cpu_cfs_throttled_periods_total",
            Family::ContainerCpuCfsThrottledSecondsTotal => "container_cpu_cfs_throttled_seconds_total",
        }
    }

    pub fn help(self) -> (r: &'static str)
        ensures
            r@ == self.help_text(),
    {
        match self {
            Family::CadvisorVersionInfo => "A metric with a constant '1' value labeled by kernel version, OS version, docker version, cadvisor version & cadvisor revision.",
            Family::ContainerBlkioDeviceUsageTotal => "Blkio Device bytes usage",
            Family::ContainerCpuLoadAverage10s => "Value of container cpu load average over the last 10 seconds.",
            Family::ContainerCpuSystemSecondsTotal => "Cumulative system cpu time consumed in seconds.",
            Family::ContainerCpuUsageSecondsTotal => "Cumulative cpu time consumed in seconds.",
            Family::ContainerCpuUserSecondsTotal => "Cumulative user cpu time consumed in seconds.",
            Family::ContainerFsInodesFree => "Number of available Inodes",
            Family::ContainerFsInodesTotal => "Number of Inodes",
            Family::ContainerFsIoCurrent => "Number of I/Os currently in progress",
            Family::ContainerFsIoTimeSecondsTotal => "Cumulative count of seconds spent doing I/Os",
            Family::ContainerFsIoTimeWeightedSecondsTotal => "Cumulative weighted I/O time in seconds",
            Family::ContainerFsLimitBytes => "Number of bytes that can be consumed by the container on this filesystem.",
            Family::ContainerFsReadSecondsTotal => "Cumulative count of seconds spent reading",
            Family::ContainerFsReadsBytesTotal => "Cumulative count of bytes read",
            Family::ContainerFsReadsMergedTotal => "Cumulative count of reads merged",
            Family::ContainerFsReadsTotal => "Cumulative count of reads completed",
            Family::ContainerFsSectorReadsTotal => "Cumulative count of sector reads completed",
            Family::ContainerFsSectorWritesTotal => "Cumulative count of sector writes completed",
            Family::ContainerFsUsageBytes => "Number of bytes that are consumed by the container on this filesystem.",
            Family::ContainerFsWriteSecondsTotal => "Cumulative count of seconds spent writing",
            Family::ContainerFsWritesBytesTotal => "Cumulative count of bytes written",
            Family::ContainerFsWritesMergedTotal => "Cumulative count of writes merged",
            Family::ContainerFsWritesTotal => "Cumulative count of writes completed",
            Family::ContainerLastSeen => "Last time a container was seen by the exporter",
            Family::ContainerMemoryCache => "Number of bytes of page cache memory.",
            Family::ContainerMemoryFailcnt => "Number of memory usage hits limits",
            Family::ContainerMemoryFailuresTotal => "Cumulative count of memory allocation failures.",
            Family::ContainerMemoryKernelUsage => "Size of kernel memory allocated in bytes.",
            Family::ContainerMemoryMappedFile => "Size of memory mapped files in bytes.",
            Family::ContainerMemoryMaxUsageBytes => "Maximum memory usage recorded in bytes",
            Family::ContainerMemoryRss => "Size of RSS in bytes.",
            Family::ContainerMemorySwap => "Container swap usage in bytes.",
            Family::ContainerMemoryUsageBytes => "Current memory usage in bytes, including all memory regardless of when it was accessed",
            Family::ContainerMemoryWorkingSetBytes => "Current working set in bytes.",
            Family::ContainerNetworkReceiveBytesTotal => "Cumulative count of bytes received",
            Family::ContainerNetworkReceiveErrorsTotal => "Cumulative count of errors encountered while receiving",
            Family::ContainerNetworkReceivePacketsDroppedTotal => "Cumulative count of packets dropped while receiving",
            Family::ContainerNetworkReceivePacketsTotal => "Cumulative count of packets received",
            Family::ContainerNetworkTransmitBytesTotal => "Cumulative count of bytes transmitted",
            Family::ContainerNetworkTransmitErrorsTotal => "Cumulative count of errors encountered while transmitting",
            Family::ContainerNetworkTransmitPacketsDroppedTotal => "Cumulative count of packets dropped while transmitting",
            Family::ContainerNetworkTransmitPacketsTotal => "Cumulative count of packets transmitted",
            Family::ContainerOomEventsTotal => "Count of out of memory events observed for the container",
            Family::ContainerScrapeError => "1 if there was an error while getting container metrics, 0 otherwise",
            Family::ContainerSpecCpuPeriod => "CPU period of the container.",
            Family::ContainerSpecCpuShares => "CPU share of the container.",
            Family::ContainerSpecMemoryLimitBytes => "Memory limit for the container.",
            Family::ContainerSpecMemoryReservationLimitBytes => "Memory reservation limit for the container.",
            Family::ContainerSpecMemorySwapLimitBytes => "Memory swap limit for the container.",
            Family::ContainerStartTimeSeconds => "Start time of the container since unix epoch in seconds.",
            Family::ContainerTasksState => "Number of tasks in given state",
            Family::MachineCpuCores => "Number of logical CPU cores.",
            Family::MachineCpuPhysicalCores => "Number of physical CPU cores.",
            Family::MachineCpuSockets => "Number of CPU sockets.",
            Family::MachineMemoryBytes => "Amount of memory installed on the machine.",
            Family::MachineNvmAvgPowerBudgetWatts => "NVM power budget.",
            Family::MachineNvmCapacity => "NVM capacity value labeled by NVM mode (memory mode or app direct mode).",
            Family::MachineScrapeError => "1 if there was an error while getting machine metrics, 0 otherwise.",
            Family::MachineSwapBytes => "Amount of swap memory available on the machine.",
            Family::ContainerSpecCpuQuota => "",
            Family::ContainerCpuCfsPeriodsTotal => "",
            Family::ContainerCpuCfsThrottledPeriodsTotal => "",
            Family::ContainerCpuCfsThrottledSecondsTotal => "",
        }
    }

    pub fn kind(self) -> (r: Kind)
        ensures
            r == self.kind_spec(),
    {
        match self {
            Family::CadvisorVersionInfo => Kind::Gauge,
            Family::ContainerBlkioDeviceUsageTotal => Kind::Counter,
            Family::ContainerCpuLoadAverage10s => Kind::Gauge,
            Family::ContainerCpuSystemSecondsTotal => Kind::Counter,
            Family::ContainerCpuUsageSecondsTotal => Kind::Counter,
            Family::ContainerCpuUserSecondsTotal => Kind::Counter,
            Family::ContainerFsInodesFree => Kind::Gauge,
            Family::ContainerFsInodesTotal => Kind::Gauge,
            Family::ContainerFsIoCurrent => Kind::Gauge,
            Family::ContainerFsIoTimeSecondsTotal => Kind::Counter,
            Family::ContainerFsIoTimeWeightedSecondsTotal => Kind::Counter,
            Family::ContainerFsLimitBytes => Kind::Gauge,
            Family::ContainerFsReadSecondsTotal => Kind::Counter,
            Family::ContainerFsReadsBytesTotal => Kind::Counter,
            Family::ContainerFsReadsMergedTotal => Kind::Counter,
            Family::ContainerFsReadsTotal => Kind::Counter,
            Family::ContainerFsSectorReadsTotal => Kind::Counter,
            Family::ContainerFsSectorWritesTotal => Kind::Counter,
            Family::ContainerFsUsageBytes => Kind::Gauge,
            Family::ContainerFsWriteSecondsTotal => Kind::Counter,
            Family::ContainerFsWritesBytesTotal => Kind::Counter,
            Family::ContainerFsWritesMergedTotal => Kind::Counter,
            Family::ContainerFsWritesTotal => Kind::Counter,
            Family::ContainerLastSeen => Kind::Gauge,
            Family::ContainerMemoryCache => Kind::Gauge,
            Family::ContainerMemoryFailcnt => Kind::Counter,
            Family::ContainerMemoryFailuresTotal => Kind::Counter,
            Family::ContainerMemoryKernelUsage => Kind::Gauge,
            Family::ContainerMemoryMappedFile => Kind::Gauge,
            Family::ContainerMemoryMaxUsageBytes => Kind::Gauge,
            Family::ContainerMemoryRss => Kind::Gauge,
            Family::ContainerMemorySwap => Kind::Gauge,
            Family::ContainerMemoryUsageBytes => Kind::Gauge,
            Family::ContainerMemoryWorkingSetBytes => Kind::Gauge,
            Family::ContainerNetworkReceiveBytesTotal => Kind::Counter,
            Family::ContainerNetworkReceiveErrorsTotal => Kind::Counter,
            Family::ContainerNetworkReceivePacketsDroppedTotal => Kind::Counter,
            Family::ContainerNetworkReceivePacketsTotal => Kind::Counter,
            Family::ContainerNetworkTransmitBytesTotal => Kind::Counter,
            Family::ContainerNetworkTransmitErrorsTotal => Kind::Counter,
            Family::ContainerNetworkTransmitPacketsDroppedTotal => Kind::Counter,
            Family::ContainerNetworkTransmitPacketsTotal => Kind::Counter,
            Family::ContainerOomEventsTotal => Kind::Counter,
            Family::ContainerScrapeError => Kind::Gauge,
            Family::ContainerSpecCpuPeriod => Kind::Gauge,
            Family::ContainerSpecCpuShares => Kind::Gauge,
            Family::ContainerSpecMemoryLimitBytes => Kind::Gauge,
            Family::ContainerSpecMemoryReservationLimitBytes => Kind::Gauge,
            Family::ContainerSpecMemorySwapLimitBytes => Kind::Gauge,
            Family::ContainerStartTimeSeconds => Kind::Gauge,
            Family::ContainerTasksState => Kind::Gauge,
            Family::MachineCpuCores => Kind::Gauge,
            Family::MachineCpuPhysicalCores => Kind::Gauge,
            Family::MachineCpuSockets => Kind::Gauge,
            Family::MachineMemoryBytes => Kind::Gauge,
            Family::MachineNvmAvgPowerBudgetWatts => Kind::Gauge,
            Family::MachineNvmCapacity => Kind::Gauge,
            Family::MachineScrapeError => Kind::Gauge,
            Family::MachineSwapBytes => Kind::Gauge,
            Family::ContainerSpecCpuQuota => Kind::Gauge,
            Family::ContainerCpuCfsPeriodsTotal => Kind::Counter,
            Family::ContainerCpuCfsThrottledPeriodsTotal => Kind::Counter,
            Family::ContainerCpuCfsThrottledSecondsTotal => Kind::Counter,
        }
    }

    /// Position in the exposition, if the family is exposed.
    pub fn position(self) -> (r: Option<usize>)
        ensures
            r == (if self.rank() >= 0 {
                Some(self.rank() as usize)
            } else {
                None::<usize>
            }),
    {
        match self {
            Family::CadvisorVersionInfo => Some(0),
            Family::ContainerBlkioDeviceUsageTotal => Some(1),
            Family::ContainerCpuLoadAverage10s => Some(2),
            Family::ContainerCpuSystemSecondsTotal => Some(3),
            Family::ContainerCpuUsageSecondsTotal => Some(4),
            Family::ContainerCpuUserSecondsTotal => Some(5),
            Family::ContainerFsInodesFree => Some(6),
            Family::ContainerFsInodesTotal => Some(7),
            Family::ContainerFsIoCurrent => Some(8),
            Family::ContainerFsIoTimeSecondsTotal => Some(9),
            Family::ContainerFsIoTimeWeightedSecondsTotal => Some(10),
            Family::ContainerFsLimitBytes => Some(11),
            Family::ContainerFsReadSecondsTotal => Some(12),
            Family::ContainerFsReadsBytesTotal => Some(13),
            Family::ContainerFsReadsMergedTotal => Some(14),
            Family::ContainerFsReadsTotal => Some(15),
            Family::ContainerFsSectorReadsTotal => Some(16),
            Family::ContainerFsSectorWritesTotal => Some(17),
            Family::ContainerFsUsageBytes => Some(18),
            Family::ContainerFsWriteSecondsTotal => Some(19),
            Family::ContainerFsWritesBytesTotal => Some(20),
            Family::ContainerFsWritesMergedTotal => Some(21),
            Family::ContainerFsWritesTotal => Some(22),
            Family::ContainerLastSeen => Some(23),
            Family::ContainerMemoryCache => Some(24),
            Family::ContainerMemoryFailcnt => Some(25),
            Family::ContainerMemoryFailuresTotal => Some(26),
            Family::ContainerMemoryKernelUsage => Some(27),
            Family::ContainerMemoryMappedFile => Some(28),
            Family::ContainerMemoryMaxUsageBytes => Some(29),
            Family::ContainerMemoryRss => Some(30),
            Family::ContainerMemorySwap => Some(31),
            Family::ContainerMemoryUsageBytes => Some(32),
            Family::ContainerMemoryWorkingSetBytes => Some(33),
            Family::ContainerNetworkReceiveBytesTotal => Some(34),
            Family::ContainerNetworkReceiveErrorsTotal => Some(35),
            Family::ContainerNetworkReceivePacketsDroppedTotal => Some(36),
            Family::ContainerNetworkReceivePacketsTotal => Some(37),
            Family::ContainerNetworkTransmitBytesTotal => Some(38),
            Family::ContainerNetworkTransmitErrorsTotal => Some(39),
            Family::ContainerNetworkTransmitPacketsDroppedTotal => Some(40),
            Family::ContainerNetworkTransmitPacketsTotal => Some(41),
            Family::ContainerOomEventsTotal => Some(42),
            Family::ContainerScrapeError => Some(43),
            Family::ContainerSpecCpuPeriod => Some(44),
            Family::ContainerSpecCpuShares => Some(45),
            Family::ContainerSpecMemoryLimitBytes => Some(46),
            Family::ContainerSpecMemoryReservationLimitBytes => Some(47),
            Family::ContainerSpecMemorySwapLimitBytes => Some(48),
            Family::ContainerStartTimeSeconds => Some(49),
            Family::ContainerTasksState => Some(50),
            Family::MachineCpuCores => Some(51),
            Family::MachineCpuPhysicalCores => Some(52),
            Family::MachineCpuSockets => Some(53),
            Family::MachineMemoryBytes => Some(54),
            Family::MachineNvmAvgPowerBudgetWatts => Some(55),
            Family::MachineNvmCapacity => Some(56),
            Family::MachineScrapeError => Some(57),
            Family::MachineSwapBytes => Some(58),
            Family::ContainerSpecCpuQuota => None,
            Family::ContainerCpuCfsPeriodsTotal => None,
            Family::ContainerCpuCfsThrottledPeriodsTotal => None,
            Family::ContainerCpuCfsThrottledSecondsTotal => None,
        }
    }
}

/// The exposed family at position `i`.
pub open spec fn family_at(i: int) -> Family {
    if i == 0 {
        Family::CadvisorVersionInfo
    } else if i == 1 {
        Family::ContainerBlkioDeviceUsageTotal
    } else if i == 2 {
        Family::ContainerCpuLoadAverage10s
    } else if i == 3 {
        Family::ContainerCpuSystemSecondsTotal
    } else if i == 4 {
        Family::ContainerCpuUsageSecondsTotal
    } else if i == 5 {
        Family::ContainerCpuUserSecondsTotal
    } else if i == 6 {
        Family::ContainerFsInodesFree
    } else if i == 7 {
        Family::ContainerFsInodesTotal
    } else if i == 8 {
        Family::ContainerFsIoCurrent
    } else if i == 9 {
        Family::ContainerFsIoTimeSecondsTotal
    } else if i == 10 {
        Family::ContainerFsIoTimeWeightedSecondsTotal
    } else if i == 11 {
        Family::ContainerFsLimitBytes
    } else if i == 12 {
        Family::ContainerFsReadSecondsTotal
    } else if i == 13 {
        Family::ContainerFsReadsBytesTotal
    } else if i == 14 {
        Family::ContainerFsReadsMergedTotal
    } else if i == 15 {
        Family::ContainerFsReadsTotal
    } else if i == 16 {
        Family::ContainerFsSectorReadsTotal
    } else if i == 17 {
        Family::ContainerFsSectorWritesTotal
    } else if i == 18 {
        Family::ContainerFsUsageBytes
    } else if i == 19 {
        Family::ContainerFsWriteSecondsTotal
    } else if i == 20 {
        Family::ContainerFsWritesBytesTotal
    } else if i == 21 {
        Family::ContainerFsWritesMergedTotal
    } else if i == 22 {
        Family::ContainerFsWritesTotal
    } else if i == 23 {
        Family::ContainerLastSeen
    } else if i == 24 {
        Family::ContainerMemoryCache
    } else if i == 25 {
        Family::ContainerMemoryFailcnt
    } else if i == 26 {
        Family::ContainerMemoryFailuresTotal
    } else if i == 27 {
        Family::ContainerMemoryKernelUsage
    } else if i == 28 {
        Family::ContainerMemoryMappedFile
    } else if i == 29 {
        Family::ContainerMemoryMaxUsageBytes
    } else if i == 30 {
        Family::ContainerMemoryRss
    } else if i == 31 {
        Family::ContainerMemorySwap
    } else if i == 32 {
        Family::ContainerMemoryUsageBytes
    } else if i == 33 {
        Family::ContainerMemoryWorkingSetBytes
    } else if i == 34 {
        Family::ContainerNetworkReceiveBytesTotal
    } else if i == 35 {
        Family::ContainerNetworkReceiveErrorsTotal
    } else if i == 36 {
        Family::ContainerNetworkReceivePacketsDroppedTotal
    } else if i == 37 {
        Family::ContainerNetworkReceivePacketsTotal
    } else if i == 38 {
        Family::ContainerNetworkTransmitBytesTotal
    } else if i == 39 {
        Family::ContainerNetworkTransmitErrorsTotal
    } else if i == 40 {
        Family::ContainerNetworkTransmitPacketsDroppedTotal
    } else if i == 41 {
        Family::ContainerNetworkTransmitPacketsTotal
    } else if i == 42 {
        Family::ContainerOomEventsTotal
    } else if i == 43 {
        Family::ContainerScrapeError
    } else if i == 44 {
        Family::ContainerSpecCpuPeriod
    } else if i == 45 {
        Family::ContainerSpecCpuShares
    } else if i == 46 {
        Family::ContainerSpecMemoryLimitBytes
    } else if i == 47 {
        Family::ContainerSpecMemoryReservationLimitBytes
    } else if i == 48 {
        Family::ContainerSpecMemorySwapLimitBytes
    } else if i == 49 {
        Family::ContainerStartTimeSeconds
    } else if i == 50 {
        Family::ContainerTasksState
    } else if i == 51 {
        Family::MachineCpuCores
    } else if i == 52 {
        Family::MachineCpuPhysicalCores
    } else if i == 53 {
        Family::MachineCpuSockets
    } else if i == 54 {
        Family::MachineMemoryBytes
    } else if i == 55 {
        Family::MachineNvmAvgPowerBudgetWatts
    } else if i == 56 {
        Family::MachineNvmCapacity
    } else if i == 57 {
        Family::MachineScrapeError
    } else {
        Family::MachineSwapBytes
    }
}

/// The exposed family at position `i`.
pub fn exposed_family(i: usize) -> (f: Family)
    requires
        i < EXPOSED_FAMILIES,
    ensures
        f == family_at(i as int),
        f.rank() == i,
{
    match i {
        0 => Family::CadvisorVersionInfo,
        1 => Family::ContainerBlkioDeviceUsageTotal,
        2 => Family::ContainerCpuLoadAverage10s,
        3 => Family::ContainerCpuSystemSecondsTotal,
        4 => Family::ContainerCpuUsageSecondsTotal,
        5 => Family::ContainerCpuUserSecondsTotal,
        6 => Family::ContainerFsInodesFree,
        7 => Family::ContainerFsInodesTotal,
        8 => Family::ContainerFsIoCurrent,
        9 => Family::ContainerFsIoTimeSecondsTotal,
        10 => Family::ContainerFsIoTimeWeightedSecondsTotal,
        11 => Family::ContainerFsLimitBytes,
        12 => Family::ContainerFsReadSecondsTotal,
        13 => Family::ContainerFsReadsBytesTotal,
        14 => Family::ContainerFsReadsMergedTotal,
        15 => Family::ContainerFsReadsTotal,
        16 => Family::ContainerFsSectorReadsTotal,
        17 => Family::ContainerFsSectorWritesTotal,
        18 => Family::ContainerFsUsageBytes,
        19 => Family::ContainerFsWriteSecondsTotal,
        20 => Family::ContainerFsWritesBytesTotal,
        21 => Family::ContainerFsWritesMergedTotal,
        22 => Family::ContainerFsWritesTotal,
        23 => Family::ContainerLastSeen,
        24 => Family::ContainerMemoryCache,
        25 => Family::ContainerMemoryFailcnt,
        26 => Family::ContainerMemoryFailuresTotal,
        27 => Family::ContainerMemoryKernelUsage,
        28 => Family::ContainerMemoryMappedFile,
        29 => Family::ContainerMemoryMaxUsageBytes,
        30 => Family::ContainerMemoryRss,
        31 => Family::ContainerMemorySwap,
        32 => Family::ContainerMemoryUsageBytes,
        33 => Family::ContainerMemoryWorkingSetBytes,
        34 => Family::ContainerNetworkReceiveBytesTotal,
        35 => Family::ContainerNetworkReceiveErrorsTotal,
        36 => Family::ContainerNetworkReceivePacketsDroppedTotal,
        37 => Family::ContainerNetworkReceivePacketsTotal,
        38 => Family::ContainerNetworkTransmitBytesTotal,
        39 => Family::ContainerNetworkTransmitErrorsTotal,
        40 => Family::ContainerNetworkTransmitPacketsDroppedTotal,
        41 => Family::ContainerNetworkTransmitPacketsTotal,
        42 => Family::ContainerOomEventsTotal,
        43 => Family::ContainerScrapeError,
        44 => Family::ContainerSpecCpuPeriod,
        45 => Family::ContainerSpecCpuShares,
        46 => Family::ContainerSpecMemoryLimitBytes,
        47 => Family::ContainerSpecMemoryReservationLimitBytes,
        48 => Family::ContainerSpecMemorySwapLimitBytes,
        49 => Family::ContainerStartTimeSeconds,
        50 => Family::ContainerTasksState,
        51 => Family::MachineCpuCores,
        52 => Family::MachineCpuPhysicalCores,
        53 => Family::MachineCpuSockets,
        54 => Family::MachineMemoryBytes,
        55 => Family::MachineNvmAvgPowerBudgetWatts,
        56 => Family::MachineNvmCapacity,
        57 => Family::MachineScrapeError,
        _ => Family::MachineSwapBytes,
    }
}

/// The first exposed family at or after position `i` named `name`, or -1.
pub open spec fn find_family(name: Seq<char>, i: int) -> int
    decreases 59 - i,
{
    if i >= 59 || i < 0 {
        -1
    } else if family_at(i).name_text() == name {
        i
    } else {
        find_family(name, i + 1)
    }
}

/// The exposed family named `name`: its name, type and HELP text.
pub fn family(name: &str) -> (r: Option<(&'static str, Kind, &'static str)>)
    ensures
        r.is_some() == (find_family(name@, 0) >= 0),
        r matches Some((n, k, h)) ==> {
            let f = family_at(find_family(name@, 0));
            &&& n@ == f.name_text()
            &&& k == f.kind_spec()
            &&& h@ == f.help_text()
        },
{
    let want = chars_of(name);
    let mut i: usize = 0;
    while i < EXPOSED_FAMILIES
        invariant
            i <= EXPOSED_FAMILIES,
            want@ == name@,
            find_family(name@, 0) == find_family(name@, i as int),
        decreases EXPOSED_FAMILIES - i,
    {
        let f = exposed_family(i);
        let n = chars_of(f.name());
        if range_eq(&n, 0, n.len(), &want) {
            assert(n@.subrange(0, n@.len() as int) == n@);
            return Some((f.name(), f.kind(), f.help()));
        }
        assert(n@.subrange(0, n@.len() as int) == n@);
        i += 1;
    }
    None
}

/// The family at a position of the exposition order has that rank.
pub proof fn lemma_family_at_rank(i: int)
    requires
        0 <= i < 59,
    ensures
        family_at(i).rank() == i,
{
}

} // verus!
