//! The settings of a backup installation, with the value each one takes when
//! it is not given.

pub mod loader;
pub mod validator;

use vstd::prelude::*;

verus! {

/// All settings.
pub struct Config {
    pub block_size: u32,
    pub compression_level: i32,
    pub encryption: EncryptionConfig,
    pub storage: StorageConfig,
    pub backup: BackupConfig,
    pub logging: LoggingConfig,
    pub performance: PerformanceConfig,
    pub tracking: TrackingConfig,
    pub restore: RestoreConfig,
}

pub struct EncryptionConfig {
    pub enabled: bool,
    pub key_path: Option<String>,
    pub cipher: String,
    pub kms_provider: Option<String>,
}

pub struct StorageConfig {
    pub repository_path: String,
    pub temp_path: Option<String>,
    pub max_parallel_io: usize,
    pub compression: CompressionConfig,
}

pub struct CompressionConfig {
    pub enabled: bool,
    pub level: i32,
    pub algorithm: String,
}

pub struct BackupConfig {
    pub exclude_paths: Vec<String>,
    pub include_paths: Vec<String>,
    pub retention_days: u32,
    pub schedule: Option<ScheduleConfig>,
    pub pre_backup_hook: Option<String>,
    pub post_backup_hook: Option<String>,
    pub verify_after_backup: bool,
}

pub struct ScheduleConfig {
    pub enabled: bool,
    pub interval: String,
    pub time: Option<String>,
}

pub struct LoggingConfig {
    pub level: String,
    pub file: Option<String>,
    pub format: String,
}

pub struct PerformanceConfig {
    pub buffer_size_mb: u32,
    pub direct_io: bool,
    pub throttle_mbps: Option<u32>,
    pub thread_count: usize,
}

pub struct TrackingConfig {
    pub method: String,
    pub checkpoint_interval_secs: u64,
    pub persist_path: Option<String>,
}

pub struct RestoreConfig {
    pub verify_blocks: bool,
    pub overwrite: bool,
    pub dry_run: bool,
}

pub fn default_block_size() -> (r: u32)
    ensures
        r == 4096,
{
    4096
}

pub fn default_compression_level() -> (r: i32)
    ensures
        r == 3,
{
    3
}

pub fn default_cipher() -> (r: String)
    ensures
        r@ == "aes-256-gcm"@,
{
    String::from_str("aes-256-gcm")
}

pub fn default_repository_path() -> (r: String)
    ensures
        r@ == "/var/helix/backups"@,
{
    String::from_str("/var/helix/backups")
}

pub fn default_max_parallel_io() -> (r: usize)
    ensures
        r == 4,
{
    4
}

pub fn default_retention_days() -> (r: u32)
    ensures
        r == 30,
{
    30
}

pub fn default_true() -> (r: bool)
    ensures
        r,
{
    true
}

pub fn default_log_level() -> (r: String)
    ensures
        r@ == "info"@,
{
    String::from_str("info")
}

pub fn default_buffer_size_mb() -> (r: u32)
    ensures
        r == 64,
{
    64
}

pub fn default_thread_count() -> (r: usize)
    ensures
        r == 4,
{
    4
}

pub fn default_checkpoint_interval() -> (r: u64)
    ensures
        r == 300,
{
    300
}

/// The change-tracking method a platform uses unless told otherwise: the
/// device-mapper era target on Linux, file-system events on macOS, the
/// software bitmap elsewhere.
pub open spec fn tracking_method_for(target_os: Seq<char>) -> Seq<char> {
    if target_os == "linux"@ {
        "dm-era"@
    } else if target_os == "macos"@ {
        "fsevents"@
    } else {
        "bitmap"@
    }
}

/// The default change-tracking method for the named target operating system
/// (as `std::env::consts::OS` names it).
pub fn default_tracking_method(target_os: &str) -> (r: String)
    ensures
        r@ == tracking_method_for(target_os@),
{
    let os = String::from_str(target_os);
    if crate::utils::text::equals_str(&os, "linux") {
        String::from_str("dm-era")
    } else if crate::utils::text::equals_str(&os, "macos") {
        String::from_str("fsevents")
    } else {
        String::from_str("bitmap")
    }
}

impl Default for EncryptionConfig {
    fn default() -> (r: Self)
        ensures
            !r.enabled,
            r.key_path is None,
            r.cipher@ == "aes-256-gcm"@,
            r.kms_provider is None,
    {
        EncryptionConfig { enabled: false, key_path: None, cipher: default_cipher(), kms_provider: None }
    }
}

impl Default for CompressionConfig {
    fn default() -> (r: Self)
        ensures
            !r.enabled,
            r.level == 3,
            r.algorithm@ == "zstd"@,
    {
        CompressionConfig {
            enabled: false,
            level: default_compression_level(),
            algorithm: String::from_str("zstd"),
        }
    }
}

impl Default for StorageConfig {
    fn default() -> (r: Self)
        ensures
            r.repository_path@ == "/var/helix/backups"@,
            r.temp_path is None,
            r.max_parallel_io == 4,
            !r.compression.enabled,
            r.compression.level == 3,
            r.compression.algorithm@ == "zstd"@,
    {
        StorageConfig {
            repository_path: default_repository_path(),
            temp_path: None,
            max_parallel_io: default_max_parallel_io(),
            compression: CompressionConfig::default(),
        }
    }
}

impl Default for BackupConfig {
    fn default() -> (r: Self)
        ensures
            r.exclude_paths@.len() == 0,
            r.include_paths@.len() == 0,
            r.retention_days == 30,
            r.schedule is None,
            r.pre_backup_hook is None,
            r.post_backup_hook is None,
            r.verify_after_backup,
    {
        BackupConfig {
            exclude_paths: Vec::new(),
            include_paths: Vec::new(),
            retention_days: default_retention_days(),
            schedule: None,
            pre_backup_hook: None,
            post_backup_hook: None,
            verify_after_backup: default_true(),
        }
    }
}

impl Default for LoggingConfig {
    fn default() -> (r: Self)
        ensures
            r.level@ == "info"@,
            r.file is None,
            r.format@ == "text"@,
    {
        LoggingConfig { level: default_log_level(), file: None, format: String::from_str("text") }
    }
}

impl Default for PerformanceConfig {
    fn default() -> (r: Self)
        ensures
            r.buffer_size_mb == 64,
            r.direct_io,
            r.throttle_mbps is None,
            r.thread_count == 4,
    {
        PerformanceConfig {
            buffer_size_mb: default_buffer_size_mb(),
            direct_io: default_true(),
            throttle_mbps: None,
            thread_count: default_thread_count(),
        }
    }
}

impl Default for RestoreConfig {
    fn default() -> (r: Self)
        ensures
            r.verify_blocks,
            !r.overwrite,
            !r.dry_run,
    {
        RestoreConfig { verify_blocks: default_true(), overwrite: false, dry_run: false }
    }
}

impl TrackingConfig {
    /// The tracking settings a platform starts from.
    pub fn default_for(target_os: &str) -> (r: Self)
        ensures
            r.method@ == tracking_method_for(target_os@),
            r.checkpoint_interval_secs == 300,
            r.persist_path is None,
    {
        TrackingConfig {
            method: default_tracking_method(target_os),
            checkpoint_interval_secs: default_checkpoint_interval(),
            persist_path: None,
        }
    }
}

/// The settings a platform starts from; the tracking method is the only one
/// that depends on the platform.
pub open spec fn is_default_config(c: Config, target_os: Seq<char>) -> bool {
    &&& c.block_size == 4096
    &&& c.compression_level == 3
    &&& !c.encryption.enabled
    &&& c.encryption.key_path is None
    &&& c.encryption.cipher@ == "aes-256-gcm"@
    &&& c.encryption.kms_provider is None
    &&& c.storage.repository_path@ == "/var/helix/backups"@
    &&& c.storage.temp_path is None
    &&& c.storage.max_parallel_io == 4
    &&& !c.storage.compression.enabled
    &&& c.storage.compression.level == 3
    &&& c.storage.compression.algorithm@ == "zstd"@
    &&& c.backup.exclude_paths@.len() == 0
    &&& c.backup.include_paths@.len() == 0
    &&& c.backup.retention_days == 30
    &&& c.backup.schedule is None
    &&& c.backup.pre_backup_hook is None
    &&& c.backup.post_backup_hook is None
    &&& c.backup.verify_after_backup
    &&& c.logging.level@ == "info"@
    &&& c.logging.file is None
    &&& c.logging.format@ == "text"@
    &&& c.performance.buffer_size_mb == 64
    &&& c.performance.direct_io
    &&& c.performance.throttle_mbps is None
    &&& c.performance.thread_count == 4
    &&& c.tracking.method@ == tracking_method_for(target_os)
    &&& c.tracking.checkpoint_interval_secs == 300
    &&& c.tracking.persist_path is None
    &&& c.restore.verify_blocks
    &&& !c.restore.overwrite
    &&& !c.restore.dry_run
}

impl Config {
    /// The settings a platform starts from; the tracking method is the only one
    /// that depends on the platform.
    pub fn default_for(target_os: &str) -> (r: Self)
        ensures
            is_default_config(r, target_os@),
    {
        Config {
            block_size: default_block_size(),
            compression_level: default_compression_level(),
            encryption: EncryptionConfig::default(),
            storage: StorageConfig::default(),
            backup: BackupConfig::default(),
            logging: LoggingConfig::default(),
            performance: PerformanceConfig::default(),
            tracking: TrackingConfig::default_for(target_os),
            restore: RestoreConfig::default(),
        }
    }
}

} // verus!
