//! Path names as character sequences: the final segment, its stem and
//! extension, and the name of the compressed counterpart of a file.
use vstd::prelude::*;
use vstd::string::*;

verus! {

/// Index of the last occurrence of `c` in `s`, or -1 when there is none.
pub open spec fn last_index_of(s: Seq<char>, c: char) -> int
    decreases s.len(),
{
    if s.len() == 0 {
        -1
    } else if s.last() == c {
        s.len() - 1
    } else {
        last_index_of(s.drop_last(), c)
    }
}

pub proof fn lemma_last_index_of(s: Seq<char>, c: char)
    ensures
        -1 <= last_index_of(s, c) < s.len(),
        last_index_of(s, c) >= 0 ==> s[last_index_of(s, c)] == c,
        forall|j: int| last_index_of(s, c) < j < s.len() ==> s[j] != c,
    decreases s.len(),
{
    if s.len() > 0 && s.last() != c {
        lemma_last_index_of(s.drop_last(), c);
        assert forall|j: int| last_index_of(s, c) < j < s.len() implies s[j] != c by {
            if j < s.len() - 1 {
                assert(s[j] == s.drop_last()[j]);
            }
        }
    }
}

/// The characters of a string slice, one by one.
pub fn chars_of(s: &str) -> (r: Vec<char>)
    ensures
        r@ == s@,
{
    let n: usize = s.unicode_len();
    let mut r: Vec<char> = Vec::new();
    let mut i: usize = 0;
    while i < n
        invariant
            n == s@.len(),
            i <= n,
            r@ == s@.subrange(0, i as int),
        decreases n - i,
    {
        r.push(s.get_char(i));
        i = i + 1;
    }
    r
}

/// Executable counterpart of `last_index_of`.
pub fn find_last(s: &Vec<char>, c: char) -> (r: Option<usize>)
    ensures
        match r {
            Some(i) => i == last_index_of(s@, c),
            None => last_index_of(s@, c) == -1,
        },
{
    let mut i: usize = s.len();
    assert(s@.subrange(0, i as int) =~= s@);
    while i > 0
        invariant
            i <= s.len(),
            last_index_of(s@, c) == last_index_of(s@.subrange(0, i as int), c),
        decreases i,
    {
        assert(s@.subrange(0, i as int).drop_last() =~= s@.subrange(0, i - 1));
        if s[i - 1] == c {
            return Some(i - 1);
        }
        i = i - 1;
    }
    assert(s@.subrange(0, 0) =~= Seq::<char>::empty());
    None
}


/// Where the final segment of `p` starts: just after its last '/'.
pub open spec fn name_start(p: Seq<char>) -> int {
    last_index_of(p, '/') + 1
}

/// The final segment of `p`, possibly empty.
pub open spec fn last_segment(p: Seq<char>) -> Seq<char> {
    p.subrange(name_start(p), p.len() as int)
}

/// Everything before the final segment, separator included.
pub open spec fn parent_prefix(p: Seq<char>) -> Seq<char> {
    p.subrange(0, name_start(p))
}

/// A path names a file when its final segment is neither empty, "." nor "..".
pub open spec fn has_file_name(p: Seq<char>) -> bool {
    let n = last_segment(p);
    n.len() > 0 && n != seq!['.'] && n != seq!['.', '.']
}

/// The dot that separates stem and extension: the last one, unless it leads
/// the name.
pub open spec fn has_extension(p: Seq<char>) -> bool {
    has_file_name(p) && last_index_of(last_segment(p), '.') > 0
}

pub open spec fn extension_of(p: Seq<char>) -> Seq<char> {
    let n = last_segment(p);
    n.subrange(last_index_of(n, '.') + 1, n.len() as int)
}

pub open spec fn stem_of(p: Seq<char>) -> Seq<char> {
    let n = last_segment(p);
    if last_index_of(n, '.') > 0 {
        n.subrange(0, last_index_of(n, '.'))
    } else {
        n
    }
}

/// The compressed counterpart of `p`: "<stem> compressed.<ext>" beside it.
pub open spec fn compressed_name(p: Seq<char>) -> Seq<char> {
    parent_prefix(p) + stem_of(p) + " compressed."@ + extension_of(p)
}

/// Finds where the final segment of `p` starts.
pub fn segment_start(p: &Vec<char>) -> (r: usize)
    ensures
        r == name_start(p@),
        r <= p.len(),
{
    proof {
        lemma_last_index_of(p@, '/');
    }
    match find_last(p, '/') {
        Some(i) => {
            assert(i < p.len());
            i + 1
        },
        None => 0,
    }
}

/// The characters of the final segment of `p`, which starts at `start`.
pub fn segment_chars(p: &Vec<char>, start: usize) -> (r: Vec<char>)
    requires
        start == name_start(p@),
        start <= p.len(),
    ensures
        r@ == last_segment(p@),
{
    let mut name: Vec<char> = Vec::new();
    let mut i: usize = start;
    while i < p.len()
        invariant
            start <= i <= p.len(),
            name@ == p@.subrange(start as int, i as int),
        decreases p.len() - i,
    {
        name.push(p[i]);
        i = i + 1;
    }
    name
}

/// Whether `n` is "." or "..".
fn is_dot_name(n: &Vec<char>, from: usize) -> (r: bool)
    requires
        from <= n.len(),
    ensures
        r == (n@.subrange(from as int, n.len() as int) == seq!['.'] || n@.subrange(
            from as int,
            n.len() as int,
        ) == seq!['.', '.']),
{
    let len: usize = n.len() - from;
    if len == 1 {
        let r = n[from] == '.';
        if !r {
            assert(n@.subrange(from as int, n.len() as int)[0] != seq!['.'][0]);
            assert(n@.subrange(from as int, n.len() as int).len() != seq!['.', '.'].len());
        } else {
            assert(n@.subrange(from as int, n.len() as int) =~= seq!['.']);
        }
        r
    } else if len == 2 {
        let r = n[from] == '.' && n[from + 1] == '.';
        if !r {
            assert(n@.subrange(from as int, n.len() as int).len() != seq!['.'].len());
            if n[from] != '.' {
                assert(n@.subrange(from as int, n.len() as int)[0] != seq!['.', '.'][0]);
            } else {
                assert(n@.subrange(from as int, n.len() as int)[1] != seq!['.', '.'][1]);
            }
        } else {
            assert(n@.subrange(from as int, n.len() as int) =~= seq!['.', '.']);
        }
        r
    } else {
        assert(n@.subrange(from as int, n.len() as int).len() != seq!['.'].len());
        assert(n@.subrange(from as int, n.len() as int).len() != seq!['.', '.'].len());
        false
    }
}

/// The final segment of `path`, when it names a file.
pub fn file_name(path: &str) -> (r: Option<String>)
    ensures
        r.is_some() == has_file_name(path@),
        r matches Some(n) ==> n@ == last_segment(path@),
{
    let p = chars_of(path);
    let start = segment_start(&p);
    if start == p.len() || is_dot_name(&p, start) {
        None
    } else {
        Some(String::from_str(path.substring_char(start, p.len())))
    }
}

/// Finds the dot that starts the extension within the final segment, as an
/// index into the whole path.
fn extension_dot(p: &Vec<char>, start: usize) -> (r: Option<usize>)
    requires
        start == name_start(p@),
        start <= p.len(),
    ensures
        r.is_some() == (last_index_of(last_segment(p@), '.') > 0),
        r matches Some(d) ==> start < d < p.len() && d - start == last_index_of(
            last_segment(p@),
            '.',
        ),
{
    let name = segment_chars(p, start);
    proof {
        lemma_last_index_of(name@, '.');
    }
    match find_last(&name, '.') {
        Some(d) => {
            if d > 0 {
                Some(start + d)
            } else {
                None
            }
        },
        None => None,
    }
}

/// The extension of the file that `path` names, without its dot.
pub fn extension(path: &str) -> (r: Option<String>)
    ensures
        r.is_some() == has_extension(path@),
        r matches Some(e) ==> e@ == extension_of(path@),
{
    let p = chars_of(path);
    let start = segment_start(&p);
    if start == p.len() || is_dot_name(&p, start) {
        return None;
    }
    match extension_dot(&p, start) {
        Some(d) => {
            let e = String::from_str(path.substring_char(d + 1, p.len()));
            assert(e@ =~= extension_of(path@));
            Some(e)
        },
        None => None,
    }
}

/// The name of the compressed counterpart of `path`: the marker is appended
/// to the stem, the extension is kept.
pub fn get_compressed_file_name(path: &String) -> (r: Result<String, String>)
    ensures
        match r {
            Ok(name) => has_extension(path@) && name@ == compressed_name(path@),
            Err(msg) => !has_extension(path@) && msg@ == (if has_file_name(path@) {
                "Error reading file extension"@
            } else {
                "Error reading file name"@
            }),
        },
{
    let s = path.as_str();
    let p = chars_of(s);
    let start = segment_start(&p);
    if start == p.len() || is_dot_name(&p, start) {
        return Err(String::from_str("Error reading file name"));
    }
    match extension_dot(&p, start) {
        Some(d) => {
            let mut name = String::from_str(s.substring_char(0, start));
            name.append(s.substring_char(start, d));
            name.append(" compressed.");
            name.append(s.substring_char(d + 1, p.len()));
            assert(name@ =~= compressed_name(path@));
            Ok(name)
        },
        None => Err(String::from_str("Error reading file extension")),
    }
}

} // verus!
