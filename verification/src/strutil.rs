use vstd::prelude::*;

verus! {

/// The whitespace characters that line trimming removes.
pub open spec fn is_space(c: char) -> bool {
    c == ' ' || c == '\t' || c == '\n' || c == '\r' || c == '\u{b}' || c == '\u{c}'
}

fn is_space_char(c: char) -> (r: bool)
    ensures
        r == is_space(c),
{
    c == ' ' || c == '\t' || c == '\n' || c == '\r' || c == '\u{b}' || c == '\u{c}'
}

pub open spec fn trim_front(s: Seq<char>) -> Seq<char>
    decreases s.len(),
{
    if s.len() > 0 && is_space(s[0]) {
        trim_front(s.drop_first())
    } else {
        s
    }
}

pub open spec fn trim_back(s: Seq<char>) -> Seq<char>
    decreases s.len(),
{
    if s.len() > 0 && is_space(s.last()) {
        trim_back(s.drop_last())
    } else {
        s
    }
}

/// The trimmed form of a line: leading and trailing whitespace removed.
pub open spec fn spec_trim(s: Seq<char>) -> Seq<char> {
    trim_back(trim_front(s))
}

proof fn lemma_trim_front_subrange(s: Seq<char>, k: int)
    requires
        0 <= k <= s.len(),
        forall|j: int| 0 <= j < k ==> is_space(s[j]),
        k == s.len() || !is_space(s[k]),
    ensures
        trim_front(s) == s.subrange(k, s.len() as int),
    decreases k,
{
    if k == 0 {
        assert(trim_front(s) == s.subrange(0, s.len() as int)) by {
            assert(s.subrange(0, s.len() as int) =~= s);
        }
    } else {
        let t = s.drop_first();
        lemma_trim_front_subrange(t, k - 1);
        assert(t.subrange(k - 1, t.len() as int) =~= s.subrange(k, s.len() as int));
    }
}

proof fn lemma_trim_back_subrange(s: Seq<char>, k: int)
    requires
        0 <= k <= s.len(),
        forall|j: int| k <= j < s.len() ==> is_space(s[j]),
        k == 0 || !is_space(s[k - 1]),
    ensures
        trim_back(s) == s.subrange(0, k),
    decreases s.len() - k,
{
    if k == s.len() {
        if s.len() > 0 && is_space(s.last()) {
            assert(false);
        }
        assert(s.subrange(0, k) =~= s);
    } else {
        let t = s.drop_last();
        lemma_trim_back_subrange(t, k);
        assert(t.subrange(0, k) =~= s.subrange(0, k));
    }
}

pub fn trim_str(s: &str) -> (r: String)
    ensures
        r@ == spec_trim(s@),
{
    let len = s.unicode_len();
    let mut start: usize = 0;
    while start < len && is_space_char(s.get_char(start))
        invariant
            start <= len,
            len == s@.len(),
            forall|j: int| 0 <= j < start ==> is_space(s@[j]),
        decreases len - start,
    {
        start = start + 1;
    }
    let mut end: usize = len;
    while end > start && is_space_char(s.get_char(end - 1))
        invariant
            start <= end <= len,
            len == s@.len(),
            forall|j: int| end <= j < len ==> is_space(s@[j]),
        decreases end,
    {
        end = end - 1;
    }
    let sub = s.substring_char(start, end);
    proof {
        lemma_trim_front_subrange(s@, start as int);
        let mid = s@.subrange(start as int, len as int);
        lemma_trim_back_subrange(mid, end - start as int);
        assert(mid.subrange(0, end - start as int) =~= s@.subrange(start as int, end as int));
    }
    sub.to_owned()
}

/// The position of the first occurrence of `c` in `s`, if any.
pub open spec fn spec_find(s: Seq<char>, c: char) -> Option<int>
    decreases s.len(),
{
    if s.len() == 0 {
        None
    } else if s[0] == c {
        Some(0int)
    } else {
        match spec_find(s.drop_first(), c) {
            Some(i) => Some(i + 1),
            None => None,
        }
    }
}

pub proof fn lemma_find_props(s: Seq<char>, c: char)
    ensures
        match spec_find(s, c) {
            Some(i) => 0 <= i < s.len() && s[i] == c && forall|j: int| 0 <= j < i ==> s[j] != c,
            None => forall|j: int| 0 <= j < s.len() ==> s[j] != c,
        },
    decreases s.len(),
{
    if s.len() == 0 {
    } else if s[0] == c {
    } else {
        let t = s.drop_first();
        lemma_find_props(t, c);
        assert(forall|j: int| 0 <= j < t.len() ==> #[trigger] t[j] == s[j + 1]);
        match spec_find(t, c) {
            Some(i) => {
                assert(s[i + 1] == t[i]);
                assert(forall|j: int| 0 <= j < i + 1 ==> s[j] != c) by {
                    assert(forall|j: int| 1 <= j < i + 1 ==> #[trigger] s[j] == t[j - 1]);
                }
            },
            None => {
                assert(forall|j: int| 1 <= j < s.len() ==> #[trigger] s[j] == t[j - 1]);
            },
        }
    }
}

pub fn find_char(s: &str, c: char) -> (r: Option<usize>)
    ensures
        match r {
            Some(i) => spec_find(s@, c) == Some(i as int),
            None => spec_find(s@, c) is None,
        },
{
    let len = s.unicode_len();
    let mut i: usize = 0;
    while i < len
        invariant
            i <= len,
            len == s@.len(),
            forall|j: int| 0 <= j < i ==> s@[j] != c,
        decreases len - i,
    {
        if s.get_char(i) == c {
            proof {
                lemma_find_props(s@, c);
            }
            return Some(i);
        }
        i = i + 1;
    }
    proof {
        lemma_find_props(s@, c);
    }
    None
}

/// The position of the last occurrence of `c` in `s`, if any.
pub open spec fn spec_rfind(s: Seq<char>, c: char) -> Option<int>
    decreases s.len(),
{
    if s.len() == 0 {
        None
    } else if s.last() == c {
        Some(s.len() - 1)
    } else {
        spec_rfind(s.drop_last(), c)
    }
}

pub proof fn lemma_rfind_props(s: Seq<char>, c: char)
    ensures
        match spec_rfind(s, c) {
            Some(i) => 0 <= i < s.len() && s[i] == c && forall|j: int| i < j < s.len() ==> s[j]
                != c,
            None => forall|j: int| 0 <= j < s.len() ==> s[j] != c,
        },
    decreases s.len(),
{
    if s.len() == 0 {
    } else if s.last() == c {
    } else {
        let t = s.drop_last();
        lemma_rfind_props(t, c);
        assert(forall|j: int| 0 <= j < t.len() ==> t[j] == #[trigger] s[j]);
        assert(s[s.len() - 1] != c);
    }
}

pub fn rfind_char(s: &str, c: char) -> (r: Option<usize>)
    ensures
        match r {
            Some(i) => spec_rfind(s@, c) == Some(i as int),
            None => spec_rfind(s@, c) is None,
        },
{
    let len = s.unicode_len();
    let mut i: usize = len;
    while i > 0
        invariant
            i <= len,
            len == s@.len(),
            forall|j: int| i <= j < len ==> s@[j] != c,
        decreases i,
    {
        i = i - 1;
        if s.get_char(i) == c {
            proof {
                lemma_rfind_props(s@, c);
            }
            return Some(i);
        }
    }
    proof {
        lemma_rfind_props(s@, c);
    }
    None
}

pub open spec fn spec_starts_with(s: Seq<char>, p: Seq<char>) -> bool {
    p.len() <= s.len() && forall|j: int| 0 <= j < p.len() ==> s[j] == p[j]
}

pub fn starts_with_str(s: &str, p: &str) -> (r: bool)
    ensures
        r == spec_starts_with(s@, p@),
{
    let slen = s.unicode_len();
    let plen = p.unicode_len();
    if plen > slen {
        return false;
    }
    let mut i: usize = 0;
    while i < plen
        invariant
            i <= plen <= slen,
            slen == s@.len(),
            plen == p@.len(),
            forall|j: int| 0 <= j < i ==> s@[j] == p@[j],
        decreases plen - i,
    {
        if s.get_char(i) != p.get_char(i) {
            return false;
        }
        i = i + 1;
    }
    true
}

pub fn str_eq(a: &str, b: &str) -> (r: bool)
    ensures
        r == (a@ == b@),
{
    let alen = a.unicode_len();
    let blen = b.unicode_len();
    if alen != blen {
        return false;
    }
    let mut i: usize = 0;
    while i < alen
        invariant
            i <= alen,
            alen == a@.len() == b@.len(),
            forall|j: int| 0 <= j < i ==> a@[j] == b@[j],
        decreases alen - i,
    {
        if a.get_char(i) != b.get_char(i) {
            return false;
        }
        i = i + 1;
    }
    proof {
        assert(a@ =~= b@);
    }
    true
}

/// Whether `s` holds the two characters `.c` next to each other anywhere.
pub open spec fn spec_contains_dot_c(s: Seq<char>) -> bool {
    exists|i: int| 0 <= i && i + 1 < s.len() && (#[trigger] s[i]) == '.' && s[i + 1] == 'c'
}

pub fn contains_dot_c(s: &str) -> (r: bool)
    ensures
        r == spec_contains_dot_c(s@),
{
    let len = s.unicode_len();
    if len < 2 {
        return false;
    }
    let mut i: usize = 0;
    while i + 1 < len
        invariant
            len == s@.len(),
            i + 1 <= len,
            forall|j: int| 0 <= j < i ==> !((#[trigger] s@[j]) == '.' && s@[j + 1] == 'c'),
        decreases len - i,
    {
        if s.get_char(i) == '.' && s.get_char(i + 1) == 'c' {
            return true;
        }
        i = i + 1;
    }
    false
}

/// What `join_path` returns: one `/` separator between a directory and a
/// relative component, an empty directory yielding the component alone.
pub open spec fn spec_join_path(dir: Seq<char>, component: Seq<char>) -> Seq<char> {
    if dir.len() == 0 {
        component
    } else if dir.last() == '/' {
        dir + component
    } else {
        dir + "/"@ + component
    }
}

pub fn join_path(dir: &str, component: &str) -> (r: String)
    ensures
        r@ == spec_join_path(dir@, component@),
{
    let dir_len = dir.unicode_len();
    if dir_len == 0 {
        let mut r = String::new();
        r.append(component);
        return r;
    }
    let mut r = String::new();
    r.append(dir);
    if dir.get_char(dir_len - 1) != '/' {
        r.append("/");
    }
    r.append(component);
    r
}

/// What `parent_dir` returns: the path with its last `/`-separated component
/// removed, `/` staying `/`-rooted, and a path without `/` becoming empty.
pub open spec fn spec_parent_dir(p: Seq<char>) -> Seq<char> {
    match spec_rfind(p, '/') {
        None => Seq::empty(),
        Some(i) => if i == 0 && p.len() == 1 {
            Seq::empty()
        } else if i == 0 {
            "/"@
        } else {
            p.subrange(0, i)
        },
    }
}

pub fn parent_dir(p: &str) -> (r: String)
    ensures
        r@ == spec_parent_dir(p@),
{
    match rfind_char(p, '/') {
        None => String::new(),
        Some(i) => {
            proof {
                lemma_rfind_props(p@, '/');
            }
            if i == 0 {
                if p.unicode_len() == 1 {
                    String::new()
                } else {
                    let mut r = String::new();
                    r.append("/");
                    r
                }
            } else {
                p.substring_char(0, i).to_owned()
            }
        },
    }
}

/// The lines of a text, split at each `\n`; a text without `\n` is one line.
pub open spec fn spec_split_lines(s: Seq<char>) -> Seq<Seq<char>>
    decreases s.len(),
{
    match spec_find(s, '\n') {
        None => seq![s],
        Some(i) => {
            proof {
                lemma_find_props(s, '\n');
            }
            seq![s.subrange(0, i)] + spec_split_lines(s.subrange(i + 1, s.len() as int))
        },
    }
}

pub fn split_lines(s: &str) -> (r: Vec<String>)
    ensures
        r.deep_view() == spec_split_lines(s@),
{
    let mut rest: String = s.to_owned();
    let mut r: Vec<String> = Vec::new();
    proof {
        lemma_find_props(s@, '\n');
    }
    loop
        invariant
            spec_split_lines(s@) == r.deep_view() + spec_split_lines(rest@),
        decreases rest@.len(),
    {
        proof {
            lemma_find_props(rest@, '\n');
        }
        match find_char(rest.as_str(), '\n') {
            None => {
                let ghost prev = r.deep_view();
                r.push(rest);
                proof {
                    assert(r.deep_view() =~= prev + seq![rest@]);
                    assert(r.deep_view() + spec_split_lines(Seq::<char>::empty()).drop_first()
                        =~= r.deep_view());
                    assert(spec_split_lines(s@) =~= r.deep_view());
                }
                return r;
            },
            Some(i) => {
                let line = rest.as_str().substring_char(0, i).to_owned();
                let rest_len = rest.unicode_len();
                let new_rest = rest.as_str().substring_char(i + 1, rest_len).to_owned();
                let ghost prev = r.deep_view();
                let ghost old_rest = rest@;
                r.push(line);
                rest = new_rest;
                proof {
                    lemma_find_props(rest@, '\n');
                    assert(r.deep_view() =~= prev + seq![old_rest.subrange(0, i as int)]);
                    assert(spec_split_lines(s@) =~= r.deep_view() + spec_split_lines(rest@));
                }
            },
        }
    }
}

} // verus!
