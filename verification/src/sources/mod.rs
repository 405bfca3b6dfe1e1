//! Image source providers: local files, HTTP(S) URLs, GitHub repositories, directory
//! indexes and S3 buckets.

pub mod provider;
pub mod file;
pub mod http;
pub mod github;
pub mod directory;
pub mod s3;

pub use provider::{ProviderRegistry, ProviderKind, WallpaperEntry, MediaType, FetchedImage};
pub use file::FileProvider;
pub use http::HttpProvider;
pub use github::GitHubProvider;
pub use directory::DirectoryIndexProvider;
pub use s3::S3Provider;
