use vstd::prelude::*;
use vstd::string::*;

verus! {

/// The path separator used on both sides of a synchronization.
pub open spec fn separator() -> Seq<char> {
    seq!['/']
}

/// The path of `name` inside directory `dir`; the root directory `/` is not doubled.
pub open spec fn join_spec(dir: Seq<char>, name: Seq<char>) -> Seq<char> {
    if dir == separator() {
        dir + name
    } else {
        dir + separator() + name
    }
}

/// Whether `s` begins with `prefix`.
pub open spec fn has_prefix(s: Seq<char>, prefix: Seq<char>) -> bool {
    prefix.len() <= s.len() && s.subrange(0, prefix.len() as int) == prefix
}

/// `path` with the leading `root` removed; unchanged when it does not start with `root`.
pub open spec fn strip_root(path: Seq<char>, root: Seq<char>) -> Seq<char> {
    if has_prefix(path, root) {
        path.subrange(root.len() as int, path.len() as int)
    } else {
        path
    }
}

/// `s`, prefixed with a separator unless it already starts with one.
pub open spec fn with_leading_separator(s: Seq<char>) -> Seq<char> {
    if s.len() > 0 && s[0] == '/' {
        s
    } else {
        separator() + s
    }
}

/// The form of `path` relative to `root`: the root removed, a separator in front.
pub open spec fn relative_spec(path: Seq<char>, root: Seq<char>) -> Seq<char> {
    with_leading_separator(strip_root(path, root))
}

fn separator_string() -> (r: String)
    ensures
        r@ == separator(),
{
    proof {
        reveal_strlit("/");
    }
    String::from_str("/")
}

/// Whether `s` begins with `prefix`.
pub fn starts_with(s: &str, prefix: &str) -> (r: bool)
    ensures
        r == has_prefix(s@, prefix@),
{
    let n = prefix.unicode_len();
    let m = s.unicode_len();
    if n > m {
        return false;
    }
    let mut i: usize = 0;
    while i < n
        invariant
            n == prefix@.len(),
            m == s@.len(),
            n <= m,
            i <= n,
            forall|k: int| 0 <= k < i ==> s@[k] == prefix@[k],
        decreases n - i,
    {
        if s.get_char(i) != prefix.get_char(i) {
            assert(s@.subrange(0, n as int)[i as int] != prefix@[i as int]);
            return false;
        }
        i = i + 1;
    }
    assert(s@.subrange(0, n as int) =~= prefix@);
    true
}

/// The path of `name` inside directory `dir`.
pub fn join_path(dir: &String, name: &str) -> (r: String)
    ensures
        r@ == join_spec(dir@, name@),
{
    let sep = separator_string();
    let mut r = dir.clone();
    if *dir != sep {
        r.append(sep.as_str());
    }
    r.append(name);
    r
}

/// `path` relative to `root`, always starting with a separator.
pub fn relative_to_root(path: &String, root: &String) -> (r: String)
    ensures
        r@ == relative_spec(path@, root@),
{
    let stripped = if starts_with(path.as_str(), root.as_str()) {
        let len = path.as_str().unicode_len();
        let start = root.as_str().unicode_len();
        String::from_str(path.as_str().substring_char(start, len))
    } else {
        path.clone()
    };
    let len = stripped.as_str().unicode_len();
    if len > 0 && stripped.as_str().get_char(0) == '/' {
        stripped
    } else {
        let mut r = separator_string();
        r.append(stripped.as_str());
        r
    }
}

/// `root` followed by `tail`, as the paths of a location are built.
pub fn under_root(root: &String, tail: &String) -> (r: String)
    ensures
        r@ == root@ + tail@,
{
    let mut r = root.clone();
    r.append(tail.as_str());
    r
}

} // verus!
