//! Where the configuration file is, what it must hold, and how it merges
//! with the command line.
use crate::sub2api_image::api::{copy_opt, opt_view, EffectiveCfg};
use crate::sub2api_image::cli::Args;
use crate::sub2api_image::errors::{result_view, AppError, ErrorKind};
use crate::text::{join, path_join, push_str, string_of, trim, trim_string};
use vstd::prelude::*;

verus! {

broadcast use vstd::string::group_string_axioms;

/// The text of an environment value that is set and not empty.
pub open spec fn set_value(o: Option<String>) -> Option<Seq<char>> {
    match o {
        Some(s) => if s@.len() > 0 {
            Some(s@)
        } else {
            None
        },
        None => None,
    }
}

/// The user's home directory: `HOME`, else `USERPROFILE`, each counted only
/// when set and not empty.
pub open spec fn home_of(home: Option<String>, userprofile: Option<String>) -> Option<Seq<char>> {
    match set_value(home) {
        Some(h) => Some(h),
        None => set_value(userprofile),
    }
}

/// The user's home directory from the values of `HOME` and `USERPROFILE`.
pub fn home_dir(home: &Option<String>, userprofile: &Option<String>) -> (r: Option<String>)
    ensures
        opt_view(r) == home_of(*home, *userprofile),
{
    if let Some(h) = home {
        if !h.as_str().is_empty() {
            return Some(h.clone());
        }
    }
    if let Some(h) = userprofile {
        if !h.as_str().is_empty() {
            return Some(h.clone());
        }
    }
    None
}

/// The detail of the error when no location for the file can be found.
pub open spec fn no_home_text() -> Seq<char> {
    "cannot locate user home directory; set SUB2API_IMAGE_CONFIG or SUB2API_IMAGE_HOME"@
}

/// The configuration file: `SUB2API_IMAGE_CONFIG` itself, else
/// `config.toml` in `SUB2API_IMAGE_HOME`, else `.sub2api-image/config.toml`
/// in the home directory; empty values count as unset.
pub open spec fn config_path_of(
    config_env: Option<String>,
    home_env: Option<String>,
    home: Option<String>,
    userprofile: Option<String>,
) -> Result<Seq<char>, (ErrorKind, Seq<char>)> {
    match set_value(config_env) {
        Some(p) => Ok(p),
        None => match set_value(home_env) {
            Some(h) => Ok(join(h, "config.toml"@)),
            None => match home_of(home, userprofile) {
                Some(d) => Ok(join(join(d, ".sub2api-image"@), "config.toml"@)),
                None => Err((ErrorKind::Config, no_home_text())),
            },
        },
    }
}

/// The path of the configuration file, from the values of
/// `SUB2API_IMAGE_CONFIG`, `SUB2API_IMAGE_HOME`, `HOME` and `USERPROFILE`.
pub fn resolve_config_path(
    config_env: &Option<String>,
    home_env: &Option<String>,
    home: &Option<String>,
    userprofile: &Option<String>,
) -> (r: Result<String, AppError>)
    ensures
        match config_path_of(*config_env, *home_env, *home, *userprofile) {
            Ok(p) => r matches Ok(s) && s@ == p,
            Err(e) => r matches Err(x) && x@ == e,
        },
{
    proof {
        reveal_strlit(
            "cannot locate user home directory; set SUB2API_IMAGE_CONFIG or SUB2API_IMAGE_HOME",
        );
    }
    if let Some(p) = config_env {
        if !p.as_str().is_empty() {
            return Ok(p.clone());
        }
    }
    if let Some(h) = home_env {
        if !h.as_str().is_empty() {
            return Ok(path_join(h.as_str(), "config.toml"));
        }
    }
    match home_dir(home, userprofile) {
        Some(d) => {
            let dir = path_join(d.as_str(), ".sub2api-image");
            Ok(path_join(dir.as_str(), "config.toml"))
        },
        None => Err(
            AppError::Config(
                "cannot locate user home directory; set SUB2API_IMAGE_CONFIG or SUB2API_IMAGE_HOME".to_owned(),
            ),
        ),
    }
}

/// The `[defaults]` table: values used when the command line gives none.
#[derive(Debug, Clone, PartialEq, Eq)]
pub struct Defaults {
    pub model: Option<String>,
    pub size: Option<String>,
    pub quality: Option<String>,
}

impl Default for Defaults {
    fn default() -> (r: Self)
        ensures
            r.model is None,
            r.size is None,
            r.quality is None,
    {
        Defaults { model: None, size: None, quality: None }
    }
}

/// The configuration file's contents.
#[derive(Debug, Clone, PartialEq, Eq)]
pub struct Config {
    pub base_url: String,
    pub api_key: String,
    pub defaults: Defaults,
}

/// A configuration is usable when neither its base URL nor its key is blank.
pub open spec fn checked(cfg: Config) -> Result<Config, (ErrorKind, Seq<char>)> {
    if trim(cfg.base_url@).len() == 0 {
        Err((ErrorKind::Config, "base_url is required"@))
    } else if trim(cfg.api_key@).len() == 0 {
        Err((ErrorKind::Config, "api_key is required"@))
    } else {
        Ok(cfg)
    }
}

fn is_blank(s: &String) -> (r: bool)
    ensures
        r == (trim(s@).len() == 0),
{
    let t = trim_string(s.as_str());
    t.as_str().is_empty()
}

/// Rejects a configuration whose base URL or key is blank.
pub fn validate_config(cfg: Config) -> (r: Result<Config, AppError>)
    ensures
        result_view(r) == checked(cfg),
{
    proof {
        reveal_strlit("base_url is required");
        reveal_strlit("api_key is required");
    }
    if is_blank(&cfg.base_url) {
        return Err(AppError::Config("base_url is required".to_owned()));
    }
    if is_blank(&cfg.api_key) {
        return Err(AppError::Config("api_key is required".to_owned()));
    }
    Ok(cfg)
}

/// The detail of the error for a file that could not be read.
pub open spec fn unreadable_text(path: Seq<char>, reason: Seq<char>) -> Seq<char> {
    "cannot read "@ + path + ": "@ + reason + ", run `sub2api-image --init` to create"@
}

/// The error for a configuration file that could not be read, with the
/// system's reason.
pub fn unreadable_config(path: &str, reason: &str) -> (e: AppError)
    ensures
        e@ == (ErrorKind::Config, unreadable_text(path@, reason@)),
{
    let mut v: Vec<char> = Vec::new();
    push_str(&mut v, "cannot read ");
    push_str(&mut v, path);
    push_str(&mut v, ": ");
    push_str(&mut v, reason);
    push_str(&mut v, ", run `sub2api-image --init` to create");
    AppError::Config(string_of(&v))
}

/// The detail of the error for a file that is not valid TOML.
pub open spec fn unparsable_text(path: Seq<char>, reason: Seq<char>) -> Seq<char> {
    "cannot parse TOML at "@ + path + ": "@ + reason
}

/// The configuration read from `path`, given what parsing its text gave:
/// the parser's error, or the parsed configuration, which must then pass
/// `validate_config`.
pub fn check_loaded(path: &str, parsed: Result<Config, String>) -> (r: Result<Config, AppError>)
    ensures
        match parsed {
            Err(reason) => r matches Err(e) && e@ == (
                ErrorKind::Config,
                unparsable_text(path@, reason@),
            ),
            Ok(cfg) => result_view(r) == checked(cfg),
        },
{
    match parsed {
        Err(reason) => {
            let mut v: Vec<char> = Vec::new();
            push_str(&mut v, "cannot parse TOML at ");
            push_str(&mut v, path);
            push_str(&mut v, ": ");
            push_str(&mut v, reason.as_str());
            Err(AppError::Config(string_of(&v)))
        },
        Ok(cfg) => validate_config(cfg),
    }
}

/// The configuration file that `--init` writes.
pub const TEMPLATE: &'static str = "# sub2api-image config
base_url = \"https://REPLACE_ME.example.com\"
api_key  = \"REPLACE_ME\"

[defaults]
model   = \"gpt-image-2\"
size    = \"auto\"
quality = \"auto\"
";

/// `--init` never overwrites: an existing file is a configuration error.
pub fn check_template_target(path: &str, exists: bool) -> (r: Result<(), AppError>)
    ensures
        exists ==> (r matches Err(e) && e@ == (
            ErrorKind::Config,
            "config already exists at "@ + path@ + ", edit manually"@,
        )),
        !exists ==> r is Ok,
{
    if exists {
        let mut v: Vec<char> = Vec::new();
        push_str(&mut v, "config already exists at ");
        push_str(&mut v, path);
        push_str(&mut v, ", edit manually");
        return Err(AppError::Config(string_of(&v)));
    }
    Ok(())
}

/// The first value present, else `fallback`.
pub open spec fn first_of(a: Option<String>, b: Option<String>, fallback: Seq<char>) -> Seq<char> {
    match a {
        Some(s) => s@,
        None => match b {
            Some(s) => s@,
            None => fallback,
        },
    }
}

fn pick(a: &Option<String>, b: &Option<String>, fallback: &str) -> (r: String)
    ensures
        r@ == first_of(*a, *b, fallback@),
{
    match a {
        Some(s) => s.clone(),
        None => match b {
            Some(s) => s.clone(),
            None => fallback.to_owned(),
        },
    }
}

/// The settings of a run: the configuration's URL and key; model, size and
/// quality from the command line, else the configuration's defaults, else
/// `gpt-image-2`, `auto` and `auto`; prompt and files from the command line.
pub fn effective_config(args: &Args, cfg: Config) -> (r: EffectiveCfg)
    requires
        args.prompt is Some,
    ensures
        r.base_url@ == cfg.base_url@,
        r.api_key@ == cfg.api_key@,
        r.model@ == first_of(args.model, cfg.defaults.model, "gpt-image-2"@),
        r.size@ == first_of(args.size, cfg.defaults.size, "auto"@),
        r.quality@ == first_of(args.quality, cfg.defaults.quality, "auto"@),
        r.prompt@ == args.prompt->0@,
        opt_view(r.image) == opt_view(args.image),
        opt_view(r.mask) == opt_view(args.mask),
{
    let prompt = match &args.prompt {
        Some(p) => p.clone(),
        None => String::new(),
    };
    EffectiveCfg {
        model: pick(&args.model, &cfg.defaults.model, "gpt-image-2"),
        size: pick(&args.size, &cfg.defaults.size, "auto"),
        quality: pick(&args.quality, &cfg.defaults.quality, "auto"),
        base_url: cfg.base_url,
        api_key: cfg.api_key,
        prompt,
        image: copy_opt(&args.image),
        mask: copy_opt(&args.mask),
    }
}

/// A set `SUB2API_IMAGE_CONFIG` wins over everything else; an empty value of
/// either override counts as unset.
pub proof fn law_config_path_precedence(
    config_env: Option<String>,
    home_env: Option<String>,
    home: Option<String>,
    userprofile: Option<String>,
)
    ensures
        config_env matches Some(p) ==> (p@.len() > 0 ==> config_path_of(
            config_env,
            home_env,
            home,
            userprofile,
        ) == Ok::<Seq<char>, (ErrorKind, Seq<char>)>(p@)),
        config_env matches Some(p) ==> (p@.len() == 0 ==> config_path_of(
            config_env,
            home_env,
            home,
            userprofile,
        ) == config_path_of(None, home_env, home, userprofile)),
        home_env matches Some(h) ==> (h@.len() == 0 ==> config_path_of(
            config_env,
            home_env,
            home,
            userprofile,
        ) == config_path_of(config_env, None, home, userprofile)),
        config_path_of(config_env, home_env, home, userprofile) matches Err((k, _)) ==> k
            == ErrorKind::Config,
{
}

} // verus!
