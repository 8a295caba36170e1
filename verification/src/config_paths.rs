//! Where the configuration lives: the base directory and the files in it.
use vstd::prelude::*;
use crate::paths::{join, join_path};
use crate::text::opt_text;

verus! {

/// The home directory, or `.` when it is unknown.
pub open spec fn home_or_current(home: Option<Seq<char>>) -> Seq<char> {
    match home {
        Some(h) => h,
        None => "."@,
    }
}

/// The base directory for all configuration files, in order of
/// preference: the `ARTEMIS_CONFIG` variable, the legacy `FORGE_CONFIG`
/// variable, `~/artemis` when that directory exists, else `~/.artemis`.
pub open spec fn base_path_choice(
    artemis_config: Option<Seq<char>>,
    forge_config: Option<Seq<char>>,
    home: Option<Seq<char>>,
    legacy_dir_exists: bool,
) -> Seq<char> {
    match artemis_config {
        Some(p) => p,
        None => match forge_config {
            Some(p) => p,
            None => if legacy_dir_exists {
                join_path(home_or_current(home), "artemis"@)
            } else {
                join_path(home_or_current(home), ".artemis"@)
            },
        },
    }
}

/// The legacy base directory `~/artemis`, whose existence decides between
/// it and `~/.artemis`.
pub fn legacy_base_path(home: Option<String>) -> (r: String)
    ensures
        r@ == join_path(home_or_current(opt_text(home)), "artemis"@),
{
    let h = match home {
        Some(h) => h,
        None => ".".to_owned(),
    };
    join(h.as_str(), "artemis")
}

/// The base directory for all configuration files. `legacy_dir_exists`
/// tells whether the directory `legacy_base_path(home)` exists.
pub fn choose_base_path(
    artemis_config: Option<String>,
    forge_config: Option<String>,
    home: Option<String>,
    legacy_dir_exists: bool,
) -> (r: String)
    ensures
        r@ == base_path_choice(
            opt_text(artemis_config),
            opt_text(forge_config),
            opt_text(home),
            legacy_dir_exists,
        ),
{
    if let Some(p) = artemis_config {
        return p;
    }
    if let Some(p) = forge_config {
        return p;
    }
    let h = match home {
        Some(h) => h,
        None => ".".to_owned(),
    };
    if legacy_dir_exists {
        join(h.as_str(), "artemis")
    } else {
        join(h.as_str(), ".artemis")
    }
}

/// The legacy JSON config file in `base`.
pub fn config_legacy_path(base: &str) -> (r: String)
    ensures
        r@ == join_path(base@, ".config.json"@),
{
    join(base, ".config.json")
}

/// The primary TOML config file in `base`.
pub fn primary_config_path(base: &str) -> (r: String)
    ensures
        r@ == join_path(base@, ".artemis.toml"@),
{
    join(base, ".artemis.toml")
}

/// The older TOML config file in `base`.
pub fn legacy_config_path(base: &str) -> (r: String)
    ensures
        r@ == join_path(base@, ".forge.toml"@),
{
    join(base, ".forge.toml")
}

/// The TOML config file to read: the primary one if it exists, else the
/// older one if that exists, else the primary one.
pub open spec fn config_path_choice(base: Seq<char>, primary_exists: bool, legacy_exists: bool) -> Seq<
    char,
> {
    if !primary_exists && legacy_exists {
        join_path(base, ".forge.toml"@)
    } else {
        join_path(base, ".artemis.toml"@)
    }
}

/// The TOML config file to read, given which of the two files exist.
pub fn choose_config_path(base: &str, primary_exists: bool, legacy_exists: bool) -> (r: String)
    ensures
        r@ == config_path_choice(base@, primary_exists, legacy_exists),
{
    if primary_exists {
        return primary_config_path(base);
    }
    if legacy_exists {
        return legacy_config_path(base);
    }
    primary_config_path(base)
}

/// The TOML file read is the primary `.artemis.toml` whenever it exists;
/// the older `.forge.toml` is read exactly when it exists and the primary
/// file does not; when neither exists the primary path is used. Either
/// way the file lies in `base`.
pub proof fn lemma_existing_primary_config_is_read(
    base: Seq<char>,
    primary_exists: bool,
    legacy_exists: bool,
)
    ensures
        primary_exists ==> config_path_choice(base, primary_exists, legacy_exists) == join_path(
            base,
            ".artemis.toml"@,
        ),
        (config_path_choice(base, primary_exists, legacy_exists) == join_path(base, ".forge.toml"@))
            <==> (legacy_exists && !primary_exists),
        !primary_exists && !legacy_exists ==> config_path_choice(
            base,
            primary_exists,
            legacy_exists,
        ) == join_path(base, ".artemis.toml"@),
{
    reveal_strlit(".artemis.toml");
    reveal_strlit(".forge.toml");
    assert(join_path(base, ".artemis.toml"@).len() != join_path(base, ".forge.toml"@).len());
}

/// The base directory follows the documented precedence: `ARTEMIS_CONFIG`
/// when set, else `FORGE_CONFIG` when set, else the `artemis` directory in
/// the home directory (or in `.` when there is none) if it exists, else
/// `.artemis` there.
pub proof fn lemma_base_path_precedence(
    artemis_config: Option<Seq<char>>,
    forge_config: Option<Seq<char>>,
    home: Option<Seq<char>>,
    legacy_dir_exists: bool,
)
    ensures
        artemis_config matches Some(p) ==> base_path_choice(
            artemis_config,
            forge_config,
            home,
            legacy_dir_exists,
        ) == p,
        artemis_config is None ==> (forge_config matches Some(p) ==> base_path_choice(
            artemis_config,
            forge_config,
            home,
            legacy_dir_exists,
        ) == p),
        artemis_config is None && forge_config is None ==> base_path_choice(
            artemis_config,
            forge_config,
            home,
            legacy_dir_exists,
        ) == join_path(
            match home {
                Some(h) => h,
                None => "."@,
            },
            if legacy_dir_exists {
                "artemis"@
            } else {
                ".artemis"@
            },
        ),
{
}

} // verus!
