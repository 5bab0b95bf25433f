use vstd::prelude::*;

verus! {

/// File names a mapping file may have, in order of preference.
pub open spec fn spec_config_file_names() -> Seq<Seq<char>> {
    seq!["scriptkeys.toml"@, "config.toml"@]
}

/// Directories searched for the mapping file, in order of priority.
pub open spec fn spec_config_file_paths() -> Seq<Seq<char>> {
    seq!["./"@, "$HOME/.scriptkeys/"@, "$HOME/.config/"@]
}

/// Roots searched for script files, in order of priority.
pub open spec fn spec_script_file_paths() -> Seq<Seq<char>> {
    seq!["./.scripts/"@, "$HOME/.scriptkeys/scripts/"@]
}

/// File names a log file may have.
pub open spec fn spec_log_file_names() -> Seq<Seq<char>> {
    seq!["scriptkeys.log"@]
}

/// Directories that may hold the log file, in order of priority.
pub open spec fn spec_log_file_paths() -> Seq<Seq<char>> {
    seq!["$HOME/.scriptkeys/"@, "./"@]
}

/// The characters of each string, in order.
pub open spec fn views_of(v: Seq<&str>) -> Seq<Seq<char>> {
    v.map_values(|s: &str| s@)
}

pub fn config_file_names() -> (r: Vec<&'static str>)
    ensures
        views_of(r@) == spec_config_file_names(),
{
    let r = vec!["scriptkeys.toml", "config.toml"];
    assert(views_of(r@) =~= spec_config_file_names());
    r
}

pub fn config_file_paths() -> (r: Vec<&'static str>)
    ensures
        views_of(r@) == spec_config_file_paths(),
{
    let r = vec!["./", "$HOME/.scriptkeys/", "$HOME/.config/"];
    assert(views_of(r@) =~= spec_config_file_paths());
    r
}

pub fn script_file_paths() -> (r: Vec<&'static str>)
    ensures
        views_of(r@) == spec_script_file_paths(),
{
    let r = vec!["./.scripts/", "$HOME/.scriptkeys/scripts/"];
    assert(views_of(r@) =~= spec_script_file_paths());
    r
}

pub fn log_file_names() -> (r: Vec<&'static str>)
    ensures
        views_of(r@) == spec_log_file_names(),
{
    let r = vec!["scriptkeys.log"];
    assert(views_of(r@) =~= spec_log_file_names());
    r
}

pub fn log_file_paths() -> (r: Vec<&'static str>)
    ensures
        views_of(r@) == spec_log_file_paths(),
{
    let r = vec!["$HOME/.scriptkeys/", "./"];
    assert(views_of(r@) =~= spec_log_file_paths());
    r
}

} // verus!
