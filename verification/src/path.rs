//! File paths as text, put together with `/`, which every platform takes.

use crate::text::{chars_of, collect};
use vstd::prelude::*;

verus! {

/// A path below a directory. An absolute path stands for itself.
pub open spec fn joined(dir: Seq<char>, rel: Seq<char>) -> Seq<char> {
    if rel.len() > 0 && rel[0] == '/' {
        rel
    } else if dir.len() == 0 || dir.last() == '/' {
        dir + rel
    } else {
        dir.push('/') + rel
    }
}

/// Put a path below a directory.
pub fn join(dir: &str, rel: &str) -> (out: String)
    ensures
        out@ == joined(dir@, rel@),
{
    let rel_len: usize = rel.unicode_len();
    if rel_len > 0 && rel.get_char(0) == '/' {
        return rel.to_owned();
    }
    let dir_len: usize = dir.unicode_len();
    let mut out = dir.to_owned();
    if dir_len > 0 && dir.get_char(dir_len - 1) != '/' {
        out.push('/');
    }
    out.append(rel);
    out
}

/// A path without what does not belong to its last component: slashes at its end,
/// and components of a single dot behind another.
pub open spec fn trimmed(path: Seq<char>) -> Seq<char>
    decreases path.len(),
{
    let n = path.len() as int;
    if n > 0 && path[n - 1] == '/' {
        trimmed(path.drop_last())
    } else if n > 1 && path[n - 1] == '.' && path[n - 2] == '/' {
        trimmed(path.drop_last())
    } else {
        path
    }
}

/// Where the last component of a path begins.
pub open spec fn name_start(path: Seq<char>) -> nat
    decreases path.len(),
{
    if path.len() == 0 || path.last() == '/' {
        path.len()
    } else {
        name_start(path.drop_last())
    }
}

/// Where the last dot of a file name stands, behind at least one character; the
/// end of the name where there is none.
pub open spec fn stem_len(name: Seq<char>, n: nat) -> nat
    decreases n,
{
    if n <= 1 {
        name.len()
    } else if name[n - 1] == '.' {
        (n - 1) as nat
    } else {
        stem_len(name, (n - 1) as nat)
    }
}

/// A path with another extension: what follows the last dot of the file name is
/// replaced, or the extension added where there is none; an empty extension takes
/// the dot away too. A path without a file name is left as it is.
pub open spec fn with_extension(path: Seq<char>, extension: Seq<char>) -> Seq<char> {
    let core = trimmed(path);
    let start = name_start(core) as int;
    let name = core.skip(start);
    if name.len() == 0 || name == seq!['.'] || name == seq!['.', '.'] {
        path
    } else {
        let stem = core.take(start + stem_len(name, name.len()));
        if extension.len() == 0 {
            stem
        } else {
            stem.push('.') + extension
        }
    }
}

/// Give a path another extension.
pub fn set_extension(path: &str, extension: &str) -> (out: String)
    ensures
        out@ == with_extension(path@, extension@),
{
    let chars: Vec<char> = chars_of(path);
    let mut end: usize = chars.len();
    assert(chars@.take(end as int) =~= path@);
    while end > 0 && (chars[end - 1] == '/' || (end > 1 && chars[end - 1] == '.' && chars[end - 2]
        == '/'))
        invariant
            end <= chars@.len(),
            chars@ == path@,
            trimmed(chars@.take(end as int)) == trimmed(path@),
        decreases end,
    {
        assert(chars@.take(end as int).drop_last() =~= chars@.take(end - 1));
        end = end - 1;
    }
    let ghost core = chars@.take(end as int);
    assert(core == trimmed(path@));
    let mut start: usize = end;
    assert(core.take(start as int) =~= core);
    while start > 0 && chars[start - 1] != '/'
        invariant
            start <= end <= chars@.len(),
            core == chars@.take(end as int),
            name_start(core.take(start as int)) == name_start(core),
        decreases start,
    {
        assert(core.take(start as int).drop_last() =~= core.take(start - 1));
        start = start - 1;
    }
    let ghost name = core.skip(start as int);
    assert(name_start(core) == start);
    let n: usize = end - start;
    if n == 0 {
        return path.to_owned();
    }
    if n == 1 && chars[start] == '.' {
        assert(name =~= seq!['.']);
        return path.to_owned();
    }
    if n == 2 && chars[start] == '.' && chars[start + 1] == '.' {
        assert(name =~= seq!['.', '.']);
        return path.to_owned();
    }
    proof {
        let one = seq!['.'];
        let two = seq!['.', '.'];
        assert(one.len() == 1 && one[0] == '.');
        assert(two.len() == 2 && two[0] == '.' && two[1] == '.');
        assert(name.len() == n);
        assert(name[0] == chars@[start as int]);
        if n == 2 {
            assert(name[1] == chars@[start + 1]);
        }
        assert(name != one && name != two);
    }
    let mut k: usize = n;
    while k > 1 && chars[start + k - 1] != '.'
        invariant
            1 <= k <= n,
            n == end - start,
            start <= end <= chars@.len(),
            core == chars@.take(end as int),
            name == core.skip(start as int),
            stem_len(name, k as nat) == stem_len(name, n as nat),
        decreases k,
    {
        assert(name[k - 1] == chars@[start + k - 1]);
        k = k - 1;
    }
    let stem: usize = if k <= 1 {
        n
    } else {
        assert(name[k - 1] == chars@[start + k - 1]);
        k - 1
    };
    assert(stem == stem_len(name, name.len()));
    let mut out: String = collect(&chars, 0, start + stem);
    assert(out@ =~= core.take(start + stem));
    if !extension.is_empty() {
        out.push('.');
        out.append(extension);
    }
    out
}

} // verus!
