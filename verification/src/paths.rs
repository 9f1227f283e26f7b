//! Filesystem path values with home-directory placeholder expansion.

use vstd::prelude::*;
use vstd::string::StrSliceExecFns;
use vstd::string::StringExecFns;
use crate::errors::ConfigError;
use crate::errors::ConfigErrorV;

verus! {

/// `raw` with every home placeholder character (`~`) replaced by `home`.
pub open spec fn replace_tilde(raw: Seq<char>, home: Seq<char>) -> Seq<char>
    decreases raw.len(),
{
    if raw.len() == 0 {
        Seq::<char>::empty()
    } else {
        replace_tilde(raw.drop_last(), home) + (if raw.last() == '~' {
            home
        } else {
            seq![raw.last()]
        })
    }
}

/// Whether `s` holds the home placeholder character anywhere.
pub open spec fn contains_tilde(s: Seq<char>) -> bool {
    exists|i: int| 0 <= i < s.len() && s[i] == '~'
}

/// Replacing the placeholder in a string that has none leaves it unchanged.
pub proof fn lemma_replace_tilde_no_tilde(s: Seq<char>, home: Seq<char>)
    requires
        !contains_tilde(s),
    ensures
        replace_tilde(s, home) == s,
    decreases s.len(),
{
    if s.len() == 0 {
        assert(replace_tilde(s, home) =~= s);
    } else {
        assert(!contains_tilde(s.drop_last())) by {
            assert forall|i: int| 0 <= i < s.drop_last().len() implies s.drop_last()[i] != '~' by {
                assert(s.drop_last()[i] == s[i]);
            }
        }
        lemma_replace_tilde_no_tilde(s.drop_last(), home);
        assert(s[s.len() - 1] != '~');
        assert(replace_tilde(s, home) =~= s.drop_last() + seq![s.last()]);
        assert(s.drop_last() + seq![s.last()] =~= s);
    }
}

/// Whether `s` holds the home placeholder character anywhere.
pub fn has_tilde(s: &String) -> (b: bool)
    ensures
        b == contains_tilde(s@),
{
    let st = s.as_str();
    let n = st.unicode_len();
    let mut i: usize = 0;
    while i < n
        invariant
            n == s@.len(),
            i <= n,
            st@ == s@,
            forall|j: int| 0 <= j < i ==> s@[j] != '~',
        decreases n - i,
    {
        if st.get_char(i) == '~' {
            return true;
        }
        i = i + 1;
    }
    false
}

/// `path` with every `~` replaced by `home`.
pub fn expand_home_path(path: &String, home: &String) -> (r: String)
    ensures
        r@ == replace_tilde(path@, home@),
        !contains_tilde(path@) ==> r@ == path@,
{
    let mut out = String::new();
    let s = path.as_str();
    let n = s.unicode_len();
    let mut i: usize = 0;
    while i < n
        invariant
            n == path@.len(),
            i <= n,
            s@ == path@,
            out@ == replace_tilde(path@.subrange(0, i as int), home@),
        decreases n - i,
    {
        let c = s.get_char(i);
        if c == '~' {
            out.append(home.as_str());
        } else {
            out.append(s.substring_char(i, i + 1));
        }
        proof {
            let pre = path@.subrange(0, i + 1);
            assert(pre.drop_last() =~= path@.subrange(0, i as int));
            assert(pre.last() == path@[i as int]);
            if c != '~' {
                assert(s@.subrange(i as int, i + 1) =~= seq![path@[i as int]]);
            }
        }
        i = i + 1;
    }
    proof {
        assert(path@.subrange(0, n as int) =~= path@);
        if !contains_tilde(path@) {
            lemma_replace_tilde_no_tilde(path@, home@);
        }
    }
    out
}

/// The view of an optional string.
pub open spec fn opt_view(o: Option<String>) -> Option<Seq<char>> {
    match o {
        Some(s) => Some(s@),
        None => None,
    }
}

/// What expanding `raw` against an optional home directory yields: the home
/// placeholder demands a home directory, and without one resolution fails.
pub open spec fn expand_result(raw: Seq<char>, home: Option<Seq<char>>) -> Result<
    Seq<char>,
    ConfigErrorV,
> {
    if contains_tilde(raw) {
        match home {
            Some(h) => Ok(replace_tilde(raw, h)),
            None => Err(ConfigErrorV::HomeResolution),
        }
    } else {
        Ok(raw)
    }
}

/// `p` surrounded by double quotes, the rendered form of a path.
pub open spec fn quoted(p: Seq<char>) -> Seq<char> {
    seq!['"'] + p + seq!['"']
}

/// Relies on home::home_dir: the home directory of the running user, read
/// from the environment; `None` when it cannot be determined. The result
/// depends on the environment, so nothing is promised of it.
#[verifier::external_body]
pub(crate) fn home_dir_string() -> (r: Option<String>) {
    home::home_dir().and_then(|p| p.to_str().map(|s| s.to_owned()))
}

/// A filesystem path with the home placeholder already expanded.
#[derive(Debug, Eq, Hash)]
pub struct MyPath {
    path: String,
}

impl Clone for MyPath {
    fn clone(&self) -> (r: MyPath)
        ensures
            r@ == self@,
    {
        MyPath { path: self.path.clone() }
    }
}

impl View for MyPath {
    type V = Seq<char>;

    closed spec fn view(&self) -> Seq<char> {
        self.path@
    }
}

impl PartialEq for MyPath {
    fn eq(&self, other: &MyPath) -> (r: bool) {
        self.path == other.path
    }
}

impl vstd::std_specs::cmp::PartialEqSpecImpl for MyPath {
    open spec fn obeys_eq_spec() -> bool {
        true
    }

    open spec fn eq_spec(&self, other: &MyPath) -> bool {
        self@ == other@
    }
}

impl MyPath {
    /// A path taken verbatim, without expansion.
    pub fn from_string(path: String) -> (r: MyPath)
        ensures
            r@ == path@,
    {
        MyPath { path }
    }

    /// The path as a string.
    pub fn as_string(&self) -> (r: &String)
        ensures
            r@ == self@,
    {
        &self.path
    }

    /// The number of characters of the path.
    pub fn path_len(&self) -> (n: usize)
        ensures
            n == self@.len(),
    {
        self.path.as_str().unicode_len()
    }

    /// The path rendered in quoted form.
    pub fn display_string(&self) -> (r: String)
        ensures
            r@ == quoted(self@),
    {
        let r = String::from_str("\"").concat(self.path.as_str()).concat("\"");
        proof {
            reveal_strlit("\"");
            assert(r@ =~= quoted(self@));
        }
        r
    }

    /// A path built from `path`, expanding the home placeholder against the
    /// given home directory; fails when expansion is demanded and no home
    /// directory is at hand.
    pub fn new_with_home(path: &String, home: &Option<String>) -> (r: Result<MyPath, ConfigError>)
        ensures
            (match r {
                Ok(p) => expand_result(path@, opt_view(*home)) == Ok::<Seq<char>, ConfigErrorV>(
                    p@,
                ),
                Err(e) => expand_result(path@, opt_view(*home)) == Err::<Seq<char>, ConfigErrorV>(
                    e@,
                ),
            }),
    {
        if has_tilde(path) {
            match home {
                Some(h) => Ok(MyPath { path: expand_home_path(path, h) }),
                None => Err(ConfigError::HomeResolution),
            }
        } else {
            Ok(MyPath { path: path.clone() })
        }
    }

    /// A path built from `path`, expanding the home placeholder against the
    /// home directory of the running user.
    pub fn new(path: &String) -> (r: Result<MyPath, ConfigError>)
        ensures
            !contains_tilde(path@) ==> r is Ok && r->Ok_0@ == path@,
            r is Ok && contains_tilde(path@) ==> exists|h: Seq<char>|
                r->Ok_0@ == replace_tilde(path@, h),
            r is Err ==> r->Err_0@ == ConfigErrorV::HomeResolution && contains_tilde(path@),
    {
        let home = home_dir_string();
        let r = MyPath::new_with_home(path, &home);
        proof {
            if contains_tilde(path@) && r is Ok {
                let h = home->Some_0@;
                assert(r->Ok_0@ == replace_tilde(path@, h));
            }
        }
        r
    }
}

} // verus!
