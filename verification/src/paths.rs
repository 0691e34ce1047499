use vstd::prelude::*;
use vstd::string::{StrSliceExecFns, StringExecFns};

verus! {

/// `path` adjoined to `base` with Unix separators: a path that starts with
/// `/` replaces the base; any other path is appended after a `/`, unless the
/// base is empty or already ends in one.
pub open spec fn joined_path(base: Seq<char>, path: Seq<char>) -> Seq<char> {
    if path.len() > 0 && path[0] == '/' {
        path
    } else if base.len() == 0 || base.last() == '/' {
        base + path
    } else {
        base + seq!['/'] + path
    }
}

/// `path` adjoined to `base` (see `joined_path`).
fn join_path(base: &str, path: &str) -> (r: String)
    ensures
        r@ == joined_path(base@, path@),
{
    let path_len = path.unicode_len();
    if path_len > 0 && path.get_char(0) == '/' {
        return path.to_owned();
    }
    let base_len = base.unicode_len();
    let mut r = String::from_str(base);
    if base_len > 0 && base.get_char(base_len - 1) != '/' {
        let separator = "/";
        proof {
            reveal_strlit("/");
        }
        r.append(separator);
    }
    r.append(path);
    r
}

/// The folder that holds the configuration files: the value of the
/// `CONFIG_ROOT` environment variable when it is set (and valid Unicode),
/// `./config` otherwise.
pub fn config_root(from_env: Option<String>) -> (r: String)
    ensures
        r@ == match from_env {
            Some(root) => root@,
            None => "./config"@,
        },
{
    match from_env {
        Some(root) => root,
        None => "./config".to_owned(),
    }
}

/// Where `path` lies in the configuration folder, given the value of the
/// `CONFIG_ROOT` environment variable (not yet made absolute).
pub fn path_in_config_folder(from_env: Option<String>, path: &str) -> (r: String)
    ensures
        r@ == joined_path(
            match from_env {
                Some(root) => root@,
                None => "./config"@,
            },
            path@,
        ),
{
    let root = config_root(from_env);
    join_path(root.as_str(), path)
}

/// Where `path` lies in the folder of the OpenVSlam wrapper (not yet made
/// absolute).
pub fn openvslam_path(path: &str) -> (r: String)
    ensures
        r@ == joined_path("./openvslam-wrap"@, path@),
{
    join_path("./openvslam-wrap", path)
}

} // verus!
