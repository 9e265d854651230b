//! The configuration and where it is kept.
use crate::paths::{join_path, joined_path};
use crate::text::{clone_opt, Text};
use vstd::prelude::*;
use vstd::string::*;

verus! {

pub const DEFAULT_PARALLELISM: usize = 4;

pub const DEFAULT_CHUNK_SIZE: u64 = 16777216;

pub const DEFAULT_CONCURRENT_DOWNLOADS: usize = 2;

/// The bits of the 32-bit float 4.0.
pub const DEFAULT_RESERVE_VRAM_BITS: u32 = 0x4080_0000;

/// The configuration.
pub struct AppConfig {
    pub comfy_path: Option<String>,
    pub hf_endpoint: Option<String>,
    pub pypi_index_url: String,
    pub download_parallelism: usize,
    pub chunk_size_bytes: u64,
    pub max_concurrent_downloads: usize,
    /// GiB of VRAM that ComfyUI should leave available, as the bits of a 32-bit float.
    pub comfy_reserve_vram_bits: u32,
}

/// What an [`AppConfig`] holds.
pub struct ConfigView {
    pub comfy_path: Option<Text>,
    pub hf_endpoint: Option<Text>,
    pub pypi_index_url: Text,
    pub download_parallelism: usize,
    pub chunk_size_bytes: u64,
    pub max_concurrent_downloads: usize,
    pub comfy_reserve_vram_bits: u32,
}

impl DeepView for AppConfig {
    type V = ConfigView;

    open spec fn deep_view(&self) -> ConfigView {
        ConfigView {
            comfy_path: self.comfy_path.deep_view(),
            hf_endpoint: self.hf_endpoint.deep_view(),
            pypi_index_url: self.pypi_index_url@,
            download_parallelism: self.download_parallelism,
            chunk_size_bytes: self.chunk_size_bytes,
            max_concurrent_downloads: self.max_concurrent_downloads,
            comfy_reserve_vram_bits: self.comfy_reserve_vram_bits,
        }
    }
}

/// The address of the official Python package index.
pub open spec fn official_pypi() -> Text {
    "https://pypi.org/simple"@
}

/// The configuration of a first run.
pub open spec fn default_config() -> ConfigView {
    ConfigView {
        comfy_path: None,
        hf_endpoint: None,
        pypi_index_url: official_pypi(),
        download_parallelism: DEFAULT_PARALLELISM,
        chunk_size_bytes: DEFAULT_CHUNK_SIZE,
        max_concurrent_downloads: DEFAULT_CONCURRENT_DOWNLOADS,
        comfy_reserve_vram_bits: DEFAULT_RESERVE_VRAM_BITS,
    }
}

/// `c` with the defaults in place of zeros and of an empty address.
pub open spec fn repaired(c: ConfigView) -> ConfigView {
    ConfigView {
        download_parallelism: if c.download_parallelism == 0 {
            DEFAULT_PARALLELISM
        } else {
            c.download_parallelism
        },
        chunk_size_bytes: if c.chunk_size_bytes == 0 {
            DEFAULT_CHUNK_SIZE
        } else {
            c.chunk_size_bytes
        },
        max_concurrent_downloads: if c.max_concurrent_downloads == 0 {
            DEFAULT_CONCURRENT_DOWNLOADS
        } else {
            c.max_concurrent_downloads
        },
        pypi_index_url: if c.pypi_index_url.len() == 0 {
            official_pypi()
        } else {
            c.pypi_index_url
        },
        ..c
    }
}

impl Default for AppConfig {
    fn default() -> (r: AppConfig)
        ensures
            r.deep_view() == default_config(),
    {
        AppConfig {
            comfy_path: None,
            hf_endpoint: None,
            pypi_index_url: "https://pypi.org/simple".to_owned(),
            download_parallelism: DEFAULT_PARALLELISM,
            chunk_size_bytes: DEFAULT_CHUNK_SIZE,
            max_concurrent_downloads: DEFAULT_CONCURRENT_DOWNLOADS,
            comfy_reserve_vram_bits: DEFAULT_RESERVE_VRAM_BITS,
        }
    }
}

impl AppConfig {
    /// Where the configuration is kept.
    pub fn config_path(config_dir: &str, windows: bool) -> (r: String)
        ensures
            r@ == joined_path(windows, config_dir@, "config.json"@),
    {
        join_path(windows, config_dir, "config.json")
    }

    /// Where the managed state is kept.
    pub fn state_path(config_dir: &str, windows: bool) -> (r: String)
        ensures
            r@ == joined_path(windows, config_dir@, "state.json"@),
    {
        join_path(windows, config_dir, "state.json")
    }

    /// Where the download queue is kept.
    pub fn download_queue_path(config_dir: &str, windows: bool) -> (r: String)
        ensures
            r@ == joined_path(windows, config_dir@, "downloads.json"@),
    {
        join_path(windows, config_dir, "downloads.json")
    }

    /// The directory of further catalogs.
    pub fn catalog_dir(config_dir: &str, windows: bool) -> (r: String)
        ensures
            r@ == joined_path(windows, config_dir@, "catalog.d"@),
    {
        join_path(windows, config_dir, "catalog.d")
    }

    /// The configuration to go by, given what was read: the defaults where nothing is saved.
    pub fn load(saved: Option<AppConfig>) -> (r: AppConfig)
        ensures
            r.deep_view() == match saved {
                Some(c) => repaired(c.deep_view()),
                None => default_config(),
            },
    {
        match saved {
            None => AppConfig::default(),
            Some(c) => {
                let mut cfg = c;
                if cfg.download_parallelism == 0 {
                    cfg.download_parallelism = DEFAULT_PARALLELISM;
                }
                if cfg.chunk_size_bytes == 0 {
                    cfg.chunk_size_bytes = DEFAULT_CHUNK_SIZE;
                }
                if cfg.max_concurrent_downloads == 0 {
                    cfg.max_concurrent_downloads = DEFAULT_CONCURRENT_DOWNLOADS;
                }
                if cfg.pypi_index_url.as_str().is_empty() {
                    cfg.pypi_index_url = "https://pypi.org/simple".to_owned();
                }
                cfg
            },
        }
    }

    /// A configuration that holds the same.
    pub fn copy(&self) -> (r: AppConfig)
        ensures
            r.deep_view() == self.deep_view(),
    {
        AppConfig {
            comfy_path: clone_opt(&self.comfy_path),
            hf_endpoint: clone_opt(&self.hf_endpoint),
            pypi_index_url: self.pypi_index_url.clone(),
            download_parallelism: self.download_parallelism,
            chunk_size_bytes: self.chunk_size_bytes,
            max_concurrent_downloads: self.max_concurrent_downloads,
            comfy_reserve_vram_bits: self.comfy_reserve_vram_bits,
        }
    }
}

}
