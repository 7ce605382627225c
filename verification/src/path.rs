//! Validation of the absolute paths that configure a run.
use crate::types::AppError;
use vstd::prelude::*;
use vstd::string::*;

verus! {

/// A path that starts at the root.
pub open spec fn is_absolute(p: Seq<char>) -> bool {
    p.len() > 0 && p[0] == '/'
}

/// Whether a component `.` or `..` starts at position `i` of `p`.
pub open spec fn dot_component_at(p: Seq<char>, i: int) -> bool {
    &&& 0 <= i < p.len()
    &&& i == 0 || p[i - 1] == '/'
    &&& p[i] == '.'
    &&& {
        ||| i + 1 == p.len()
        ||| p[i + 1] == '/'
        ||| (p[i + 1] == '.' && (i + 2 == p.len() || p[i + 2] == '/'))
    }
}

/// Whether the path holds a component `.` or `..`.
pub open spec fn has_relative_component(p: Seq<char>) -> bool {
    exists|i: int| dot_component_at(p, i)
}

/// What `validate_config_absolute_path` answers for `path` under `label`.
pub open spec fn path_check(path: Seq<char>, label: Seq<char>) -> Result<(), Seq<char>> {
    if !is_absolute(path) {
        Err(label + " must be an absolute path: "@ + path)
    } else if has_relative_component(path) {
        Err(label + " must not contain relative path components: "@ + path)
    } else {
        Ok(())
    }
}

/// Whether the path holds a component `.` or `..`.
pub fn find_relative_component(p: &str) -> (r: bool)
    ensures
        r == has_relative_component(p@),
{
    let n = p.unicode_len();
    let mut i: usize = 0;
    while i < n
        invariant
            n == p@.len(),
            i <= n,
            forall|k: int| 0 <= k < i ==> !dot_component_at(p@, k),
        decreases n - i,
    {
        if (i == 0 || p.get_char(i - 1) == '/') && p.get_char(i) == '.' {
            if i + 1 == n || p.get_char(i + 1) == '/' {
                assert(dot_component_at(p@, i as int));
                return true;
            }
            if p.get_char(i + 1) == '.' && (i + 2 == n || p.get_char(i + 2) == '/') {
                assert(dot_component_at(p@, i as int));
                return true;
            }
        }
        i = i + 1;
    }
    false
}

/// Accepts an absolute path without `.` or `..` components; otherwise the error
/// names `label` and the path.
pub fn validate_config_absolute_path(path: &str, label: &str) -> (r: Result<(), AppError>)
    ensures
        match r {
            Ok(()) => path_check(path@, label@) == Ok::<(), Seq<char>>(()),
            Err(e) => path_check(path@, label@) == Err::<(), Seq<char>>(e.message@),
        },
{
    let absolute = path.unicode_len() > 0 && path.get_char(0) == '/';
    if !absolute {
        let mut message = label.to_owned();
        message.append(" must be an absolute path: ");
        message.append(path);
        return Err(AppError { message });
    }
    if find_relative_component(path) {
        let mut message = label.to_owned();
        message.append(" must not contain relative path components: ");
        message.append(path);
        return Err(AppError { message });
    }
    Ok(())
}

/// Takes a path and checks nothing of it; kept as the marker that configuration paths are
/// absolute, which `validate_config_absolute_path` enforces.
pub fn _assert_absolute_path(_path: &str) {
}

} // verus!
