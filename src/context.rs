use vstd::prelude::*;

use crate::error::CommandError;
use crate::status::{get_status_line, status_of};
use crate::text::{chars_of, substring};

verus! {

/// Index of the last `c` among the first `k` characters of `s`, or -1.
pub open spec fn last_index(s: Seq<char>, c: char, k: nat) -> int
    decreases k,
{
    if k == 0 || k > s.len() {
        -1
    } else if s[k - 1] == c {
        k - 1
    } else {
        last_index(s, c, (k - 1) as nat)
    }
}

/// Index of the first `c` at or after `i` in `s`, or the length of `s`.
pub open spec fn first_index(s: Seq<char>, c: char, i: nat) -> nat
    decreases s.len() - i,
{
    if i >= s.len() {
        s.len()
    } else if s[i as int] == c {
        i
    } else {
        first_index(s, c, i + 1)
    }
}

/// The path without trailing separators and trailing `.` components, the
/// way `Path::components` reads the end of a path.
pub open spec fn trimmed(s: Seq<char>) -> Seq<char>
    decreases s.len(),
{
    if s.len() > 0 && s.last() == '/' {
        trimmed(s.drop_last())
    } else if s.len() >= 2 && s.last() == '.' && s[s.len() - 2] == '/' {
        trimmed(s.drop_last())
    } else {
        s
    }
}

/// The last component of the trimmed path: what follows its last `/`.
pub open spec fn last_component(s: Seq<char>) -> Seq<char> {
    let t = trimmed(s);
    t.subrange(last_index(t, '/', t.len()) + 1, t.len() as int)
}

pub open spec fn is_dot_component(c: Seq<char>) -> bool {
    c == seq!['.'] || c == seq!['.', '.']
}

/// The file name of a path, as `Path::file_name` gives it: the last
/// component once trailing separators and `.` components are dropped; empty
/// when that component is `.` or `..`, or when there is none.
pub open spec fn base_name(s: Seq<char>) -> Seq<char> {
    let c = last_component(s);
    if is_dot_component(c) {
        Seq::empty()
    } else {
        c
    }
}

/// What precedes the last component of the trimmed path, itself trimmed;
/// empty when the path has a single component.
pub open spec fn parent_dir(s: Seq<char>) -> Seq<char> {
    let t = trimmed(s);
    let k = last_index(t, '/', t.len());
    if k < 0 {
        Seq::empty()
    } else {
        trimmed(t.subrange(0, k))
    }
}

/// The base name up to its first `.`.
pub open spec fn stem(s: Seq<char>) -> Seq<char> {
    let b = base_name(s);
    b.subrange(0, first_index(b, '.', 0) as int)
}

/// What follows the last `.` of the base name; empty when there is none.
/// A name that starts with its only dot, such as `.gitignore`, has an empty
/// stem and the rest as extension.
pub open spec fn extension(s: Seq<char>) -> Seq<char> {
    let b = base_name(s);
    let k = last_index(b, '.', b.len());
    if k < 0 {
        Seq::empty()
    } else {
        b.subrange(k + 1, b.len() as int)
    }
}

/// The editor's file and line, with the parts of the path split out.
pub struct EditorContext {
    pub filename: String,
    pub line_number: String,
    pub parent_directory: String,
    pub file_name_without_extension: String,
    pub file_extension: String,
}

fn last_pos(t: &Vec<char>, c: char) -> (r: Option<usize>)
    ensures
        match r {
            None => last_index(t@, c, t@.len()) == -1,
            Some(k) => last_index(t@, c, t@.len()) == k && k < t@.len(),
        },
{
    let mut k = t.len();
    while k > 0
        invariant
            k <= t.len(),
            last_index(t@, c, t@.len()) == last_index(t@, c, k as nat),
        decreases k,
    {
        if t[k - 1] == c {
            return Some(k - 1);
        }
        k -= 1;
    }
    None
}

fn first_pos(t: &Vec<char>, c: char) -> (r: usize)
    ensures
        r == first_index(t@, c, 0),
        r <= t@.len(),
{
    let mut i: usize = 0;
    while i < t.len()
        invariant
            i <= t.len(),
            first_index(t@, c, 0) == first_index(t@, c, i as nat),
        decreases t.len() - i,
    {
        if t[i] == c {
            return i;
        }
        i += 1;
    }
    i
}

/// Length of `trimmed` of the first `n` characters of `t`.
fn trimmed_len(t: &Vec<char>, n: usize) -> (r: usize)
    requires
        n <= t.len(),
    ensures
        r <= n,
        trimmed(t@.subrange(0, n as int)) == t@.subrange(0, r as int),
{
    let mut k = n;
    while k > 0 && (t[k - 1] == '/' || (k >= 2 && t[k - 1] == '.' && t[k - 2] == '/'))
        invariant
            k <= n <= t.len(),
            trimmed(t@.subrange(0, n as int)) == trimmed(t@.subrange(0, k as int)),
        decreases k,
    {
        assert(t@.subrange(0, k as int).drop_last() =~= t@.subrange(0, k - 1));
        assert(t@.subrange(0, k as int).last() == t@[k - 1]);
        k -= 1;
    }
    proof {
        let u = t@.subrange(0, k as int);
        if k > 0 {
            assert(u.last() == t@[k - 1]);
        }
        if k >= 2 {
            assert(u[u.len() - 2] == t@[k - 2]);
        }
    }
    k
}

/// Splits `filename` into its parent directory, stem and extension, by its
/// characters alone.
pub fn editor_context(filename: String, line_number: String) -> (r: EditorContext)
    ensures
        r.filename@ == filename@,
        r.line_number@ == line_number@,
        r.parent_directory@ == parent_dir(filename@),
        r.file_name_without_extension@ == stem(filename@),
        r.file_extension@ == extension(filename@),
{
    let name = filename.as_str();
    let full = chars_of(name);
    let n = trimmed_len(&full, full.len());
    assert(full@.subrange(0, full@.len() as int) =~= filename@);
    let path = substring(name, 0, n);
    let t = chars_of(path.as_str());
    let k = t.len();
    let (parent, component) = match last_pos(&t, '/') {
        None => (String::new(), substring(path.as_str(), 0, k)),
        Some(j) => {
            let p = trimmed_len(&t, j);
            (substring(path.as_str(), 0, p), substring(path.as_str(), j + 1, k))
        },
    };
    proof {
        assert(parent@ =~= parent_dir(filename@));
        assert(component@ =~= last_component(filename@));
    }
    let c = chars_of(component.as_str());
    let dots = (c.len() == 1 && c[0] == '.') || (c.len() == 2 && c[0] == '.' && c[1] == '.');
    proof {
        if c@.len() == 1 && c@[0] == '.' {
            assert(c@ =~= seq!['.']);
        }
        if c@.len() == 2 && c@[0] == '.' && c@[1] == '.' {
            assert(c@ =~= seq!['.', '.']);
        }
        assert(seq!['.'].len() == 1 && seq!['.'][0] == '.');
        assert(seq!['.', '.'].len() == 2 && seq!['.', '.'][0] == '.' && seq!['.', '.'][1] == '.');
        assert(dots == is_dot_component(component@));
    }
    let base = if dots {
        String::new()
    } else {
        component
    };
    assert(base@ =~= base_name(filename@));
    let b = chars_of(base.as_str());
    let dot = first_pos(&b, '.');
    let without_extension = substring(base.as_str(), 0, dot);
    let ext = match last_pos(&b, '.') {
        None => String::new(),
        Some(k) => substring(base.as_str(), k + 1, b.len()),
    };
    proof {
        assert(ext@ =~= extension(filename@));
    }
    EditorContext {
        filename,
        line_number,
        parent_directory: parent,
        file_name_without_extension: without_extension,
        file_extension: ext,
    }
}

/// The editor's context read from its screen text: the first status line's
/// file and line, with the path split out.
pub fn parse_helix(screen: &str) -> (r: Result<EditorContext, CommandError>)
    ensures
        match status_of(screen@) {
            None => r is Err && r->Err_0 == CommandError::StatusParse,
            Some((name, line)) => r is Ok && r->Ok_0.filename@ == name && r->Ok_0.line_number@ == line
                && r->Ok_0.parent_directory@ == parent_dir(name) && r->Ok_0.file_name_without_extension@
                == stem(name) && r->Ok_0.file_extension@ == extension(name),
        },
{
    match get_status_line(screen) {
        Err(e) => Err(e),
        Ok((filename, line_number)) => Ok(editor_context(filename, line_number)),
    }
}

} // verus!
