//! Project configurations: which file to edit and which version token to
//! look for in it.

use crate::substitution::contains;
use crate::substitution::contains_token;
use crate::text::chars_of;
use vstd::prelude::*;
use vstd::string::StringExecFns;

verus! {

/// Where a project keeps its version, and the version that stands there now.
#[derive(Clone, Debug, PartialEq, Eq)]
pub struct Location {
    pub location: String,
    pub previous_version: String,
}

/// One project: its name and the place of its version.
#[derive(Clone, Debug, PartialEq, Eq)]
pub struct Config {
    pub name: String,
    pub location: Location,
}

/// A configuration as plain text values.
pub struct ConfigRecord {
    pub name: Seq<char>,
    pub file_path: Seq<char>,
    pub previous_version_token: Seq<char>,
}

impl View for Config {
    type V = ConfigRecord;

    open spec fn view(&self) -> ConfigRecord {
        ConfigRecord {
            name: self.name@,
            file_path: self.location.location@,
            previous_version_token: self.location.previous_version@,
        }
    }
}

impl DeepView for Config {
    type V = ConfigRecord;

    open spec fn deep_view(&self) -> ConfigRecord {
        self@
    }
}

impl Config {
    /// A configuration from its three texts.
    pub fn new(name: String, location: String, previous_version: String) -> (config: Config)
        ensures
            config@ == (ConfigRecord {
                name: name@,
                file_path: location@,
                previous_version_token: previous_version@,
            }),
    {
        Config { name, location: Location { location, previous_version } }
    }

    /// A copy that holds the same three texts.
    pub fn duplicate(&self) -> (copy: Config)
        ensures
            copy@ == self@,
    {
        Config {
            name: self.name.clone(),
            location: Location {
                location: self.location.location.clone(),
                previous_version: self.location.previous_version.clone(),
            },
        }
    }
}

/// The folder that holds the configuration files of the user whose home
/// directory is `home`.
pub open spec fn config_directory_text(home: Seq<char>) -> Seq<char> {
    home + "/.frust"@
}

/// A path names a configuration file if `.toml` stands somewhere in it.
pub open spec fn names_config(path: Seq<char>) -> bool {
    contains(path, ".toml"@)
}

/// The configurations among the results of reading candidate files, in
/// their order. A file that gave no configuration leaves no trace.
pub open spec fn readable(parsed: Seq<Option<ConfigRecord>>) -> Seq<ConfigRecord> {
    parsed.filter(|entry: Option<ConfigRecord>| entry is Some).map_values(
        |entry: Option<ConfigRecord>| entry->0,
    )
}

/// The folder in which the configuration files are looked for, given the
/// home directory.
pub fn config_directory(home: &str) -> (directory: String)
    ensures
        directory@ == config_directory_text(home@),
{
    let mut directory = home.to_owned();
    directory.append("/.frust");
    directory
}

/// Whether `path` names a configuration file.
pub fn is_config_path(path: &str) -> (named: bool)
    ensures
        named == names_config(path@),
{
    let text = chars_of(path);
    let suffix = chars_of(".toml");
    contains_token(&text, &suffix)
}

/// Those of `paths` that name configuration files, in their order.
pub fn config_paths(paths: &Vec<String>) -> (chosen: Vec<String>)
    ensures
        chosen.deep_view() == paths.deep_view().filter(|path: Seq<char>| names_config(path)),
{
    let ghost keep = |path: Seq<char>| names_config(path);
    let mut chosen: Vec<String> = Vec::new();
    let mut i: usize = 0;
    while i < paths.len()
        invariant
            i <= paths.len(),
            keep == |path: Seq<char>| names_config(path),
            chosen.deep_view() == paths.deep_view().take(i as int).filter(keep),
        decreases paths.len() - i,
    {
        let ghost before = chosen.deep_view();
        let ghost upto = paths.deep_view().take(i as int + 1);
        proof {
            assert(upto.drop_last() =~= paths.deep_view().take(i as int));
            assert(upto.last() == paths@[i as int]@);
            reveal(Seq::filter);
        }
        if is_config_path(paths[i].as_str()) {
            chosen.push(paths[i].clone());
            proof {
                assert(chosen.deep_view() =~= before.push(paths@[i as int]@));
            }
        } else {
            proof {
                assert(chosen.deep_view() =~= before);
            }
        }
        i = i + 1;
    }
    proof {
        assert(paths.deep_view().take(paths@.len() as int) =~= paths.deep_view());
    }
    chosen
}

/// The configurations that were read, without the files that gave none.
pub fn collect_configs(parsed: &Vec<Option<Config>>) -> (configs: Vec<Config>)
    ensures
        configs.deep_view() == readable(parsed.deep_view()),
{
    let ghost some = |entry: Option<ConfigRecord>| entry is Some;
    let ghost inner = |entry: Option<ConfigRecord>| entry->0;
    let mut configs: Vec<Config> = Vec::new();
    let mut i: usize = 0;
    while i < parsed.len()
        invariant
            i <= parsed.len(),
            some == |entry: Option<ConfigRecord>| entry is Some,
            inner == |entry: Option<ConfigRecord>| entry->0,
            configs.deep_view() == parsed.deep_view().take(i as int).filter(some).map_values(
                inner,
            ),
        decreases parsed.len() - i,
    {
        let ghost before = configs.deep_view();
        let ghost upto = parsed.deep_view().take(i as int + 1);
        proof {
            assert(upto.drop_last() =~= parsed.deep_view().take(i as int));
            assert(upto.last() == parsed@[i as int].deep_view());
            reveal(Seq::filter);
        }
        match &parsed[i] {
            Some(config) => {
                configs.push(config.duplicate());
                proof {
                    assert(upto.filter(some) =~= upto.drop_last().filter(some).push(upto.last()));
                    assert(configs.deep_view() =~= before.push(config@));
                    assert(configs.deep_view() =~= upto.filter(some).map_values(inner));
                }
            },
            None => {
                proof {
                    assert(configs.deep_view() =~= before);
                }
            },
        }
        i = i + 1;
    }
    proof {
        assert(parsed.deep_view().take(parsed@.len() as int) =~= parsed.deep_view());
    }
    configs
}

} // verus!
