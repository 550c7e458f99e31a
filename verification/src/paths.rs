//! Paths as text: joining, and the file name and stem of a slash-separated
//! path. These follow std's `Path` for paths made of plain components (no
//! `.` or `..` parts, no doubled or trailing slashes), which is every path
//! this crate builds or receives from directory listings.
use vstd::prelude::*;

use crate::text::{append_chars, chars_of, push_char, string_of};

verus! {

/// `base.join(comp)`: an absolute `comp` replaces `base`; otherwise `comp`
/// follows `base`, with one `/` between them unless `base` is empty or
/// already ends with one.
pub open spec fn join_spec(base: Seq<char>, comp: Seq<char>) -> Seq<char> {
    if comp.len() > 0 && comp[0] == '/' {
        comp
    } else if base.len() == 0 || base.last() == '/' {
        base + comp
    } else {
        base + seq!['/'] + comp
    }
}

pub fn join(base: &str, comp: &str) -> (r: String)
    ensures
        r@ == join_spec(base@, comp@),
{
    let b = chars_of(base);
    let c = chars_of(comp);
    if c.len() > 0 && c[0] == '/' {
        return string_of(&c);
    }
    let mut out = string_of(&b);
    if !(b.len() == 0 || b[b.len() - 1] == '/') {
        push_char(&mut out, '/');
    }
    append_chars(&mut out, &c);
    out
}

/// Index of the last `/` in `s`, or -1 when there is none.
pub open spec fn last_index_of(s: Seq<char>, c: char) -> int
    decreases s.len(),
{
    if s.len() == 0 {
        -1
    } else if s.last() == c {
        s.len() - 1
    } else {
        last_index_of(s.drop_last(), c)
    }
}

pub proof fn lemma_last_index_of(s: Seq<char>, c: char)
    ensures
        -1 <= last_index_of(s, c) < s.len(),
        last_index_of(s, c) >= 0 ==> s[last_index_of(s, c)] == c,
        forall|j: int| last_index_of(s, c) < j < s.len() ==> s[j] != c,
    decreases s.len(),
{
    if s.len() > 0 {
        let d = s.drop_last();
        lemma_last_index_of(d, c);
        assert forall|j: int| last_index_of(s, c) < j < s.len() implies s[j] != c by {
            if j < s.len() - 1 {
                assert(s[j] == d[j]);
            }
        }
    }
}

pub fn find_last(s: &Vec<char>, c: char) -> (r: Option<usize>)
    ensures
        match r {
            Some(i) => i as int == last_index_of(s@, c),
            None => last_index_of(s@, c) == -1,
        },
{
    let mut i: usize = s.len();
    assert(s@.take(i as int) =~= s@);
    while i > 0
        invariant
            i <= s.len(),
            last_index_of(s@, c) == last_index_of(s@.take(i as int), c),
        decreases i,
    {
        assert(s@.take(i as int).drop_last() =~= s@.take(i - 1));
        if s[i - 1] == c {
            return Some(i - 1);
        }
        i = i - 1;
    }
    None
}

/// The text after the last `/`.
pub open spec fn base_name(p: Seq<char>) -> Seq<char> {
    p.subrange(last_index_of(p, '/') + 1, p.len() as int)
}

/// The text up to and including the last `/` (empty when there is none).
pub open spec fn dir_prefix(p: Seq<char>) -> Seq<char> {
    p.subrange(0, last_index_of(p, '/') + 1)
}

/// `file_stem` of a file name: None for the empty name, `.` and `..`; the
/// name itself when it has no `.` past its first character; otherwise the
/// part before the last `.`.
pub open spec fn stem_of(name: Seq<char>) -> Option<Seq<char>> {
    if name.len() == 0 || name == seq!['.'] || name == seq!['.', '.'] {
        None
    } else if last_index_of(name, '.') <= 0 {
        Some(name)
    } else {
        Some(name.subrange(0, last_index_of(name, '.')))
    }
}

pub fn split_path(p: &str) -> (r: (Vec<char>, Vec<char>))
    ensures
        r.0@ == dir_prefix(p@),
        r.1@ == base_name(p@),
{
    let v = chars_of(p);
    proof {
        lemma_last_index_of(p@, '/');
    }
    let cut: usize = match find_last(&v, '/') {
        Some(i) => {
            assert(i < v.len());
            i + 1
        },
        None => 0,
    };
    let mut head: Vec<char> = Vec::new();
    let mut i: usize = 0;
    while i < cut
        invariant
            i <= cut <= v.len(),
            v@ == p@,
            head@ == v@.subrange(0, i as int),
        decreases cut - i,
    {
        head.push(v[i]);
        assert(head@ =~= v@.subrange(0, i + 1));
        i = i + 1;
    }
    let mut tail: Vec<char> = Vec::new();
    while i < v.len()
        invariant
            cut <= i <= v.len(),
            v@ == p@,
            tail@ == v@.subrange(cut as int, i as int),
        decreases v.len() - i,
    {
        tail.push(v[i]);
        assert(tail@ =~= v@.subrange(cut as int, i + 1));
        i = i + 1;
    }
    (head, tail)
}

pub fn file_stem(name: &Vec<char>) -> (r: Option<Vec<char>>)
    ensures
        match r {
            Some(s) => stem_of(name@) == Some(s@),
            None => stem_of(name@) is None,
        },
{
    if name.len() == 0 || (name.len() == 1 && name[0] == '.') || (name.len() == 2 && name[0] == '.'
        && name[1] == '.') {
        if name.len() == 1 {
            assert(name@ =~= seq!['.']);
        } else if name.len() == 2 {
            assert(name@ =~= seq!['.', '.']);
        }
        return None;
    }
    assert(name@ != seq!['.']) by {
        if name@ == seq!['.'] {
            assert(name@.len() == 1 && name@[0] == '.');
        }
    }
    assert(name@ != seq!['.', '.']) by {
        if name@ == seq!['.', '.'] {
            assert(name@.len() == 2 && name@[0] == '.' && name@[1] == '.');
        }
    }
    proof {
        lemma_last_index_of(name@, '.');
    }
    match find_last(name, '.') {
        Some(k) if k > 0 => {
            let mut out: Vec<char> = Vec::new();
            let mut i: usize = 0;
            while i < k
                invariant
                    i <= k < name.len(),
                    out@ == name@.subrange(0, i as int),
                decreases k - i,
            {
                out.push(name[i]);
                assert(out@ =~= name@.subrange(0, i + 1));
                i = i + 1;
            }
            Some(out)
        },
        _ => {
            let mut out: Vec<char> = Vec::new();
            let mut i: usize = 0;
            while i < name.len()
                invariant
                    i <= name.len(),
                    out@ == name@.subrange(0, i as int),
                decreases name.len() - i,
            {
                out.push(name[i]);
                assert(out@ =~= name@.subrange(0, i + 1));
                i = i + 1;
            }
            assert(out@ =~= name@);
            Some(out)
        },
    }
}


/// The user's configuration directory: `$XDG_CONFIG_HOME` when set,
/// otherwise `$HOME/.config`; None when neither is set.
pub open spec fn config_base_spec(xdg_config_home: Option<Seq<char>>, home: Option<Seq<char>>) -> Option<Seq<char>> {
    match xdg_config_home {
        Some(x) => Some(x),
        None => match home {
            Some(h) => Some(join_spec(h, ".config"@)),
            None => None,
        },
    }
}

pub open spec fn opt_str(o: Option<&str>) -> Option<Seq<char>> {
    match o {
        Some(s) => Some(s@),
        None => None,
    }
}

pub fn config_base(xdg_config_home: Option<&str>, home: Option<&str>) -> (r: Option<String>)
    ensures
        match r {
            Some(p) => config_base_spec(opt_str(xdg_config_home), opt_str(home)) == Some(p@),
            None => config_base_spec(opt_str(xdg_config_home), opt_str(home)) is None,
        },
{
    match xdg_config_home {
        Some(x) => Some(crate::text::string_of_str(x)),
        None => match home {
            Some(h) => Some(join(h, ".config")),
            None => None,
        },
    }
}

/// The user's cache directory: `$XDG_CACHE_HOME` when set, otherwise
/// `$HOME/.cache`; None when neither is set.
pub open spec fn cache_base_spec(xdg_cache_home: Option<Seq<char>>, home: Option<Seq<char>>) -> Option<Seq<char>> {
    match xdg_cache_home {
        Some(x) => Some(x),
        None => match home {
            Some(h) => Some(join_spec(h, ".cache"@)),
            None => None,
        },
    }
}

pub fn cache_base(xdg_cache_home: Option<&str>, home: Option<&str>) -> (r: Option<String>)
    ensures
        match r {
            Some(p) => cache_base_spec(opt_str(xdg_cache_home), opt_str(home)) == Some(p@),
            None => cache_base_spec(opt_str(xdg_cache_home), opt_str(home)) is None,
        },
{
    match xdg_cache_home {
        Some(x) => Some(crate::text::string_of_str(x)),
        None => match home {
            Some(h) => Some(join(h, ".cache")),
            None => None,
        },
    }
}

/// `base` joined with `comp`, when there is a base.
pub open spec fn join_opt(base: Option<Seq<char>>, comp: Seq<char>) -> Option<Seq<char>> {
    match base {
        Some(b) => Some(join_spec(b, comp)),
        None => None,
    }
}

} // verus!
