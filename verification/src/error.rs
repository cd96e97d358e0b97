//! The library's error type.

use vstd::prelude::*;

verus! {

/// Every way an operation of this library can fail.
#[derive(Debug)]
pub enum CliError {
    /// No compose name was given and none could be taken from the compose path.
    ComposeNameNotInferred { compose_path: String },
    /// An external step (such as `docker save`) ended unsuccessfully.
    StepFailed { step: String, exit_code: Option<i32> },
    /// The compose file is not YAML.
    YamlParse(serde_yaml::Error),
    /// The updated compose document could not be printed as YAML.
    YamlRender(serde_yaml::Error),
    /// The compose file's top level is not a mapping.
    NotYamlObject,
    /// The compose file has no `services` mapping.
    MissingServices,
    /// No service image matched the update's conditions.
    NoImageMatched,
    /// The server answered `action` with an unsuccessful HTTP status.
    HttpStatus { action: String, status: String, body: String },
    /// The server's answer to `action` is not JSON.
    ResponseParse { action: String, error: serde_json::Error, body: String },
    /// The server refused `action` with an API code other than 200.
    Api { action: String, code: i64, message: String },
    /// A file-content answer has no `data.content` string.
    MissingFileContent,
    /// A website-group answer is not a list.
    InvalidGroupsResponse,
    /// The server has no website group to create a website in.
    NoWebsiteGroup,
    /// No domain was given and the server lists no website.
    NoWebsites,
    /// No website serves the domain, and creating one was not asked for.
    WebsiteNotFound { domain: String },
    /// The website has no site path to upload to.
    SitePathMissing { domain: String },
    /// Some files of a static deploy could not be read or uploaded.
    DeployFailed { uploaded: usize, total: usize, failed: usize },
    /// A website was created but is not listed afterwards.
    CreatedWebsiteNotFound,
    /// The base URL does not parse; the parser's message.
    InvalidBaseUrl { message: String },
    /// The base URL has no host.
    BaseUrlMissingHost,
    /// No host is configured anywhere.
    HostRequired,
    /// No API key is configured anywhere.
    ApiKeyRequired,
    /// A configuration key that cannot be unset.
    UnsupportedConfigKey { key: String },
    /// An image update that is not `SERVICE=IMAGE` with both parts present.
    InvalidImageUpdate { arg: String },
    /// Per-service image updates were combined with a single target image or
    /// its filters.
    ImageUpdateConflict,
    /// Neither a target image nor per-service image updates were given.
    MissingTargetImage,
}

} // verus!
