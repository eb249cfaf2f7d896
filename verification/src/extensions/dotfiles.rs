//! The dotfiles extension: clones or updates the user's dotfiles repository in
//! the container at start and runs its install command.
use vstd::prelude::*;

use crate::config::TomlValue;
use crate::container::opt_view;
use crate::text::str_eq;

verus! {

/// The dotfiles extension and its settings from the `[dotfiles]` section.
pub struct Dotfiles {
    pub repo: Option<String>,
    pub install_cmd: Option<String>,
}

/// A setting that must be a string when it is present.
pub open spec fn decode_opt_string(v: Option<TomlValue>) -> Option<Option<Seq<char>>> {
    match v {
        None => Some(None),
        Some(TomlValue::String(s)) => Some(Some(s@)),
        Some(_) => None,
    }
}

/// The value of the first entry named `key`, if any.
pub open spec fn table_get(entries: Seq<(String, TomlValue)>, key: Seq<char>) -> Option<TomlValue>
    decreases entries.len(),
{
    if entries.len() == 0 {
        None
    } else if entries[0].0@ == key {
        Some(entries[0].1)
    } else {
        table_get(entries.drop_first(), key)
    }
}

/// Whether `entry` is one of the two settings and is not a string.
pub open spec fn is_bad_setting(entry: (String, TomlValue)) -> bool {
    (entry.0@ == "repo"@ || entry.0@ == "install_cmd"@) && !(entry.1 is String)
}

/// The index of the first setting that is not a string.
pub open spec fn first_bad_setting(entries: Seq<(String, TomlValue)>) -> Option<int> {
    if exists|i: int| 0 <= i < entries.len() && is_bad_setting(#[trigger] entries[i]) {
        Some(choose|i: int| 0 <= i < entries.len() && is_bad_setting(#[trigger] entries[i])
            && forall|j: int| 0 <= j < i ==> !is_bad_setting(#[trigger] entries[j]))
    } else {
        None
    }
}

/// The repository and install command that a `[dotfiles]` value holds. A table
/// holds them under `repo` and `install_cmd`, each optional and, when present,
/// a string; other keys are ignored. An array holds exactly the two, in that
/// order, as strings. A value that does not decode so (a setting that is not a
/// string, an array of another length, any other value) falls back to the
/// empty configuration: neither is set.
pub open spec fn decode_dotfiles(v: TomlValue) -> (Option<Seq<char>>, Option<Seq<char>>) {
    match v {
        TomlValue::Table(entries) => match first_bad_setting(entries@) {
            Some(_) => (None, None),
            None => (
                decode_opt_string(table_get(entries@, "repo"@)).unwrap(),
                decode_opt_string(table_get(entries@, "install_cmd"@)).unwrap(),
            ),
        },
        TomlValue::Array(items) => if items@.len() == 2 && items@[0] is String && items@[1] is String {
            (decode_opt_string(Some(items@[0])).unwrap(), decode_opt_string(Some(items@[1])).unwrap())
        } else {
            (None, None)
        },
        _ => (None, None),
    }
}

/// Whether `v` is a string and `r` holds a copy of it.
pub open spec fn holds_string(v: TomlValue, r: Option<String>) -> bool {
    match (v, r) {
        (TomlValue::String(s), Some(x)) => x@ == s@,
        _ => false,
    }
}

fn copy_value_string(v: &TomlValue) -> (res: Option<String>)
    ensures
        match *v {
            TomlValue::String(s) => res matches Some(r) && r@ == s@,
            _ => res is None,
        },
{
    match v {
        TomlValue::String(s) => Some(s.clone()),
        _ => None,
    }
}

proof fn lemma_table_get_found(entries: Seq<(String, TomlValue)>, key: Seq<char>, i: int)
    requires
        0 <= i < entries.len(),
        entries[i].0@ == key,
        forall|j: int| 0 <= j < i ==> entries[j].0@ != key,
    ensures
        table_get(entries, key) == Some(entries[i].1),
    decreases i,
{
    if i > 0 {
        lemma_table_get_found(entries.drop_first(), key, i - 1);
    }
}

proof fn lemma_table_get_absent(entries: Seq<(String, TomlValue)>, key: Seq<char>)
    requires
        forall|j: int| 0 <= j < entries.len() ==> entries[j].0@ != key,
    ensures
        table_get(entries, key) is None,
    decreases entries.len(),
{
    if entries.len() > 0 {
        lemma_table_get_absent(entries.drop_first(), key);
    }
}

impl Dotfiles {
    /// The extension configured by its `[dotfiles]` section (an absent section
    /// is an empty table); a section that does not decode gives the empty
    /// configuration, so this never fails.
    pub fn from_toml(v: &TomlValue) -> (res: Result<Self, String>)
        ensures
            res matches Ok(d) && (opt_view(d.repo), opt_view(d.install_cmd)) == decode_dotfiles(*v),
    {
        match v {
            TomlValue::Table(entries) => {
                let mut repo: Option<String> = None;
                let mut install_cmd: Option<String> = None;
                let mut repo_at: Option<usize> = None;
                let mut cmd_at: Option<usize> = None;
                let mut i: usize = 0;
                while i < entries.len()
                    invariant
                        i <= entries@.len(),
                        *v == TomlValue::Table(*entries),
                        forall|j: int| 0 <= j < i ==> !is_bad_setting(#[trigger] entries@[j]),
                        repo_at matches Some(k) ==> k < i && entries@[k as int].0@ == "repo"@,
                        repo_at matches Some(k) ==> forall|j: int| 0 <= j < k ==> entries@[j].0@ != "repo"@,
                        repo_at matches Some(k) ==> holds_string(entries@[k as int].1, repo),
                        repo_at is None ==> repo is None,
                        repo_at is None ==> forall|j: int| 0 <= j < i ==> entries@[j].0@ != "repo"@,
                        cmd_at matches Some(k) ==> k < i && entries@[k as int].0@ == "install_cmd"@,
                        cmd_at matches Some(k) ==> forall|j: int| 0 <= j < k ==> entries@[j].0@ != "install_cmd"@,
                        cmd_at matches Some(k) ==> holds_string(entries@[k as int].1, install_cmd),
                        cmd_at is None ==> install_cmd is None,
                        cmd_at is None ==> forall|j: int| 0 <= j < i ==> entries@[j].0@ != "install_cmd"@,
                    decreases entries.len() - i,
                {
                    proof {
                        reveal_strlit("repo");
                        reveal_strlit("install_cmd");
                        assert("repo"@.len() != "install_cmd"@.len());
                    }
                    let key = entries[i].0.as_str();
                    let is_repo = str_eq(key, "repo");
                    let is_cmd = str_eq(key, "install_cmd");
                    if is_repo || is_cmd {
                        let s = copy_value_string(&entries[i].1);
                        match s {
                            None => {
                                proof {
                                    let k = i as int;
                                    assert(is_bad_setting(entries@[k]));
                                    let c = choose|c: int|
                                        0 <= c < entries@.len() && is_bad_setting(#[trigger] entries@[c]) && forall|j: int|
                                            0 <= j < c ==> !is_bad_setting(#[trigger] entries@[j]);
                                    if c < k {
                                        assert(!is_bad_setting(entries@[c]));
                                    } else if c > k {
                                        assert(!is_bad_setting(entries@[k]));
                                    }
                                    assert(first_bad_setting(entries@) == Some(k));
                                }
                                return Ok(Dotfiles { repo: None, install_cmd: None });
                            },
                            Some(s) => {
                                if is_repo && repo_at.is_none() {
                                    repo = Some(s);
                                    repo_at = Some(i);
                                } else if is_cmd && cmd_at.is_none() {
                                    install_cmd = Some(s);
                                    cmd_at = Some(i);
                                }
                            },
                        }
                    }
                    i = i + 1;
                }
                proof {
                    assert(first_bad_setting(entries@) is None);
                    match repo_at {
                        Some(k) => lemma_table_get_found(entries@, "repo"@, k as int),
                        None => lemma_table_get_absent(entries@, "repo"@),
                    }
                    match cmd_at {
                        Some(k) => lemma_table_get_found(entries@, "install_cmd"@, k as int),
                        None => lemma_table_get_absent(entries@, "install_cmd"@),
                    }
                }
                Ok(Dotfiles { repo, install_cmd })
            },
            TomlValue::Array(items) => {
                if items.len() != 2 {
                    return Ok(Dotfiles { repo: None, install_cmd: None });
                }
                let repo = copy_value_string(&items[0]);
                let install_cmd = copy_value_string(&items[1]);
                if repo.is_none() || install_cmd.is_none() {
                    return Ok(Dotfiles { repo: None, install_cmd: None });
                }
                Ok(Dotfiles { repo, install_cmd })
            },
            _ => Ok(Dotfiles { repo: None, install_cmd: None }),
        }
    }
}

} // verus!
