//! Text rules shared by the remote control requests: how remote paths are
//! joined and how an rclone file system string is named.

use vstd::prelude::*;

verus! {

/// `s` with every trailing `'/'` removed (what `trim_end_matches('/')` gives).
pub open spec fn trim_trailing_slashes(s: Seq<char>) -> Seq<char>
    decreases s.len(),
{
    if s.len() > 0 && s.last() == '/' {
        trim_trailing_slashes(s.drop_last())
    } else {
        s
    }
}

/// A remote directory that stands for the root of a file system: empty or `"/"`.
pub open spec fn is_root_dir(s: Seq<char>) -> bool {
    s.len() == 0 || s == seq!['/']
}

/// `name` placed under the remote directory `dir`.
pub open spec fn joined_path(dir: Seq<char>, name: Seq<char>) -> Seq<char> {
    if is_root_dir(dir) {
        name
    } else {
        trim_trailing_slashes(dir) + seq!['/'] + name
    }
}

/// The rclone file system string `"<remote>:<path>"`.
pub open spec fn remote_fs(remote: Seq<char>, path: Seq<char>) -> Seq<char> {
    remote + seq![':'] + path
}

/// A name placed under a directory ends with the name. Under the root (an
/// empty directory or `/`) it is the name itself; under any other
/// directory that does not end in `/` it is the directory, a `/`, and the
/// name; a trailing `/` added to a directory other than the root changes
/// nothing.
pub proof fn law_joined_path(dir: Seq<char>, name: Seq<char>)
    ensures
        joined_path(dir, name).len() >= name.len(),
        joined_path(dir, name).skip(joined_path(dir, name).len() - name.len()) == name,
        dir.len() == 0 || dir == seq!['/'] ==> joined_path(dir, name) == name,
        dir.len() > 0 && dir.last() != '/' ==> joined_path(dir, name) == dir + seq!['/'] + name,
        dir.len() > 0 && dir != seq!['/'] ==> joined_path(dir.push('/'), name) == joined_path(dir, name),
{
    let j = joined_path(dir, name);
    assert(j.skip(j.len() - name.len()) =~= name);
    if dir.len() > 0 && dir.last() != '/' {
        assert(dir != seq!['/']);
    }
    if dir.len() > 0 && dir != seq!['/'] {
        let d2 = dir.push('/');
        assert(d2.drop_last() =~= dir);
        assert(d2.last() == '/');
        assert(trim_trailing_slashes(d2) == trim_trailing_slashes(dir));
        assert(d2.len() > 1);
        assert(d2 != seq!['/']);
    }
}

proof fn lemma_trim_prefix_step(s: Seq<char>, end: int)
    requires
        0 < end <= s.len(),
        s[end - 1] == '/',
    ensures
        trim_trailing_slashes(s.subrange(0, end)) == trim_trailing_slashes(s.subrange(0, end - 1)),
{
    assert(s.subrange(0, end).drop_last() =~= s.subrange(0, end - 1));
}

/// Whether two texts are equal.
pub fn text_eq(a: &str, b: &str) -> (r: bool)
    ensures
        r == (a@ == b@),
{
    let x = a.to_owned();
    let y = b.to_owned();
    x == y
}

/// `s` with every trailing `'/'` removed.
pub fn trim_slashes_end(s: &str) -> (r: String)
    ensures
        r@ == trim_trailing_slashes(s@),
{
    let n = s.unicode_len();
    let mut end = n;
    assert(s@.subrange(0, n as int) =~= s@);
    while end > 0 && s.get_char(end - 1) == '/'
        invariant
            n == s@.len(),
            end <= n,
            trim_trailing_slashes(s@) == trim_trailing_slashes(s@.subrange(0, end as int)),
        decreases end,
    {
        proof {
            lemma_trim_prefix_step(s@, end as int);
        }
        end = end - 1;
    }
    proof {
        let t = s@.subrange(0, end as int);
        assert(!(t.len() > 0 && t.last() == '/'));
    }
    s.substring_char(0, end).to_owned()
}

/// Whether the remote directory stands for the root: empty or `"/"`.
pub fn is_root(dir: &str) -> (r: bool)
    ensures
        r == is_root_dir(dir@),
{
    let n = dir.unicode_len();
    if n == 0 {
        true
    } else if n == 1 {
        let c = dir.get_char(0);
        assert(c == '/' ==> dir@ =~= seq!['/']);
        c == '/'
    } else {
        false
    }
}

/// `name` placed under the remote directory `dir`: `name` itself at the
/// root, else `dir` without trailing slashes, a `'/'` and `name`.
pub fn join_remote_path(dir: &str, name: &str) -> (r: String)
    ensures
        r@ == joined_path(dir@, name@),
{
    if is_root(dir) {
        name.to_owned()
    } else {
        let mut r = trim_slashes_end(dir);
        proof {
            reveal_strlit("/");
        }
        r.append("/");
        r.append(name);
        r
    }
}

/// The rclone file system string `"<remote>:<path>"`.
pub fn remote_fs_string(remote: &str, path: &str) -> (r: String)
    ensures
        r@ == remote_fs(remote@, path@),
{
    let mut r = remote.to_owned();
    proof {
        reveal_strlit(":");
    }
    r.append(":");
    r.append(path);
    r
}

} // verus!
