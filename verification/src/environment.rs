//! Plain-data view of what the surrounding command-line layer found in the
//! process environment: the executable's path, the commit-message file named
//! on the command line, and the configured ticket prefix.
//!
//! The surrounding layer reads arguments, configuration and environment
//! variables and fills this struct; the methods here only make the pure
//! decisions over those values.

use vstd::prelude::*;

verus! {

/// What follows the last `/` of a path: the whole path when it holds no
/// `/`, and empty when it ends with `/`.
pub open spec fn spec_after_last_slash(path: Seq<char>) -> Seq<char>
    decreases path.len(),
{
    if path.len() == 0 {
        path
    } else if path[path.len() - 1] == '/' {
        Seq::<char>::empty()
    } else {
        spec_after_last_slash(path.drop_last()).push(path[path.len() - 1])
    }
}

/// The file name component of a path, as `Path::file_name` reads it:
/// trailing `/` separators and trailing `.` components are ignored, and
/// what follows the last remaining `/` is the name.  A path without a file
/// name component yields what is left after that trimming: empty for
/// paths such as `/` or `.`, and `..` when the path ends in a `..`
/// component.
pub open spec fn spec_basename(path: Seq<char>) -> Seq<char>
    decreases path.len(),
{
    if path.len() > 0 && path[path.len() - 1] == '/' {
        spec_basename(path.drop_last())
    } else if path.len() > 0 && path[path.len() - 1] == '.' && (path.len() == 1 || path[path.len()
        - 2] == '/') {
        spec_basename(path.drop_last())
    } else {
        spec_after_last_slash(path)
    }
}

pub struct Environment {
    pub executable: String,
    pub commit_msg_tmp_file: Option<String>,
    pub prefix: Option<String>,
}

impl Environment {
    /// The commit-message file named on the command line; without one, the
    /// caller is told to pass it as the first argument.
    pub fn commit_msg_file(&self) -> (r: Result<String, String>)
        ensures
            r is Err <==> self.commit_msg_tmp_file is None,
            r matches Ok(f) ==> self.commit_msg_tmp_file matches Some(g) && f@ == g@,
            r matches Err(e) ==> e@
                == "Commit message temporary file should be passed as first argument"@,
    {
        match &self.commit_msg_tmp_file {
            None => Err(
                "Commit message temporary file should be passed as first argument".to_owned(),
            ),
            Some(f) => Ok(f.clone()),
        }
    }

    /// The executable's file name: the last component of its path, with
    /// trailing `/` separators and trailing `.` components ignored.
    pub fn executable_name(&self) -> (r: String)
        ensures
            r@ == spec_basename(self.executable@),
    {
        let path = self.executable.as_str();
        let len = path.unicode_len();
        let mut end: usize = len;
        proof {
            assert(path@.subrange(0, len as int) =~= path@);
        }
        loop
            invariant
                0 <= end <= len,
                len == path@.len(),
                path@ == self.executable@,
                spec_basename(path@) == spec_basename(path@.subrange(0, end as int)),
            ensures
                0 <= end <= len,
                spec_basename(path@) == spec_basename(path@.subrange(0, end as int)),
                end > 0 ==> path@[end - 1] != '/',
                end > 0 ==> !(path@[end - 1] == '.' && (end == 1 || path@[end - 2] == '/')),
            decreases end,
        {
            if end == 0 {
                break;
            }
            let c = path.get_char(end - 1);
            if c == '/' || (c == '.' && (end == 1 || path.get_char(end - 2) == '/')) {
                proof {
                    let sub = path@.subrange(0, end as int);
                    assert(sub.last() == path@[end - 1]);
                    if end >= 2 {
                        assert(sub[end - 2] == path@[end - 2]);
                    }
                    assert(sub.drop_last() =~= path@.subrange(0, end - 1));
                }
                end = end - 1;
            } else {
                break;
            }
        }
        let ghost stripped = path@.subrange(0, end as int);
        proof {
            if end > 0 {
                assert(stripped.last() == path@[end - 1]);
                if end >= 2 {
                    assert(stripped[end - 2] == path@[end - 2]);
                }
            }
            assert(spec_basename(stripped) == spec_after_last_slash(stripped));
            assert(stripped.subrange(0, end as int) =~= stripped);
            assert(spec_after_last_slash(stripped) =~= spec_after_last_slash(stripped)
                + stripped.subrange(end as int, end as int));
        }
        let mut k: usize = end;
        while k > 0 && path.get_char(k - 1) != '/'
            invariant
                0 <= k <= end <= len,
                len == path@.len(),
                path@ == self.executable@,
                stripped == path@.subrange(0, end as int),
                spec_after_last_slash(stripped) == spec_after_last_slash(
                    stripped.subrange(0, k as int),
                ) + stripped.subrange(k as int, end as int),
            decreases k,
        {
            proof {
                let sub = stripped.subrange(0, k as int);
                assert(sub.last() == stripped[k - 1]);
                assert(stripped[k - 1] == path@[k - 1]);
                assert(sub.drop_last() =~= stripped.subrange(0, k - 1));
                assert(spec_after_last_slash(sub.drop_last()).push(stripped[k - 1])
                    + stripped.subrange(k as int, end as int) =~= spec_after_last_slash(
                    sub.drop_last(),
                ) + stripped.subrange(k - 1, end as int));
            }
            k = k - 1;
        }
        proof {
            let sub = stripped.subrange(0, k as int);
            if k > 0 {
                assert(sub.last() == stripped[k - 1]);
                assert(stripped[k - 1] == path@[k - 1]);
                assert(spec_after_last_slash(sub) =~= Seq::<char>::empty());
            }
            assert(spec_basename(path@) =~= stripped.subrange(k as int, end as int));
            assert(stripped.subrange(k as int, end as int) =~= path@.subrange(k as int, end as int));
        }
        path.substring_char(k, end).to_owned()
    }
    /// The configured prefix for the ticket line, if any.
    pub fn prefix(&self) -> (r: Option<String>)
        ensures
            r.deep_view() == self.prefix.deep_view(),
    {
        match &self.prefix {
            None => None,
            Some(p) => Some(p.clone()),
        }
    }

    /// Usage is shown exactly when no commit-message file was named.
    pub fn show_usage(&self) -> (r: bool)
        ensures
            r == (self.commit_msg_tmp_file is None),
    {
        self.commit_msg_tmp_file.is_none()
    }
}

} // verus!
