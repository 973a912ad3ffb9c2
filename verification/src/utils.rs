//! Home-directory substitution for user-written paths.

use vstd::prelude::*;
use vstd::string::{StrSliceExecFns, StringExecFns};

verus! {

/// Index of the first `'~'` in `s`, or `s.len()` if there is none.
pub open spec fn first_tilde(s: Seq<char>) -> int
    decreases s.len(),
{
    if s.len() == 0 {
        0
    } else if s[0] == '~' {
        0
    } else {
        1 + first_tilde(s.drop_first())
    }
}

/// Characterizes `first_tilde` by its defining property: the first `'~'`
/// stands at `i` exactly when nothing before `i` is a `'~'`.
pub proof fn lemma_first_tilde_at(s: Seq<char>, i: int)
    requires
        0 <= i <= s.len(),
        forall|j: int| 0 <= j < i ==> s[j] != '~',
        i < s.len() ==> s[i] == '~',
    ensures
        first_tilde(s) == i,
    decreases i,
{
    if s.len() != 0 && i > 0 {
        assert(s[0] != '~');
        assert(forall|j: int| 0 <= j < i - 1 ==> s.drop_first()[j] == s[j + 1] && s[j + 1] != '~');
        lemma_first_tilde_at(s.drop_first(), i - 1);
    }
}

/// `path` with its first `'~'` (if any) replaced by `home`.
pub open spec fn replace_first_tilde(path: Seq<char>, home: Seq<char>) -> Seq<char> {
    let i = first_tilde(path);
    if i == path.len() {
        path
    } else {
        path.take(i) + home + path.skip(i + 1)
    }
}

/// Carries the home directory and substitutes it into user-written paths.
#[derive(Debug)]
pub struct Utils {
    home: String,
}

/// Relies on dirs::home_dir for the home directory of the current user; the
/// result depends on the environment, so nothing is promised of it.
#[verifier::external_body]
fn home_dir_string() -> (r: Option<String>) {
    match dirs::home_dir() {
        Some(p) => match p.to_str() {
            Some(s) => Some(s.to_string()),
            None => None,
        },
        None => None,
    }
}

impl Utils {
    /// Reads the home directory from the environment; `None` when the
    /// environment does not name one (or names one that is not valid text).
    pub fn new() -> (r: Option<Utils>)
    {
        match home_dir_string() {
            Some(home) => Some(Utils { home }),
            None => None,
        }
    }

    /// A `Utils` over a caller-chosen home directory.
    pub fn with_home(home: String) -> (r: Utils)
        ensures
            r.home_str() == home@,
    {
        Utils { home }
    }

    /// The home directory this `Utils` substitutes.
    pub closed spec fn home_str(&self) -> Seq<char> {
        self.home@
    }

    /// `path` with its first `'~'` replaced by the home directory.
    pub fn replace_home(&self, path: &str) -> (r: String)
        ensures
            r@ == replace_first_tilde(path@, self.home_str()),
    {
        let n = path.unicode_len();
        let mut i: usize = 0;
        while i < n
            invariant
                0 <= i <= n,
                n == path@.len(),
                forall|j: int| 0 <= j < i ==> path@[j] != '~',
            decreases n - i,
        {
            if path.get_char(i) == '~' {
                proof {
                    lemma_first_tilde_at(path@, i as int);
                }
                let pre = path.substring_char(0, i);
                let post = path.substring_char(i + 1, n);
                let r = String::from_str(pre).concat(self.home.as_str()).concat(post);
                proof {
                    assert(path@.take(i as int) =~= path@.subrange(0, i as int));
                    assert(path@.skip(i + 1) =~= path@.subrange(i + 1, n as int));
                }
                return r;
            }
            i = i + 1;
        }
        proof {
            lemma_first_tilde_at(path@, n as int);
        }
        String::from_str(path)
    }
}

} // verus!
