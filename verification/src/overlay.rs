use vstd::prelude::*;
use vstd::map::*;
use crate::strutil::{
    spec_trim, spec_find, spec_starts_with, lemma_find_props, str_eq, is_space, trim_back,
    trim_front,
};

verus! {

/// A flat string-keyed mapping loaded from an overlay file.
/// Keys are unique among the stored entries.
pub struct ConfigOverlay {
    entries: Vec<(String, String)>,
}

spec fn keys_distinct(s: Seq<(String, String)>) -> bool {
    forall|i: int, j: int|
        0 <= i < j < s.len() ==> (#[trigger] s[i]).0@ != (#[trigger] s[j]).0@
}

/// The mapping that a sequence of key/value entries denotes; a later entry
/// overrides an earlier one with the same key.
spec fn entries_map(s: Seq<(String, String)>) -> Map<Seq<char>, Seq<char>>
    decreases s.len(),
{
    if s.len() == 0 {
        Map::empty()
    } else {
        entries_map(s.drop_last()).insert(s.last().0@, s.last().1@)
    }
}

proof fn lemma_entries_map_contains(s: Seq<(String, String)>, k: Seq<char>)
    ensures
        entries_map(s).contains_key(k) <==> exists|i: int|
            0 <= i < s.len() && (#[trigger] s[i]).0@ == k,
    decreases s.len(),
{
    if s.len() == 0 {
    } else {
        let t = s.drop_last();
        lemma_entries_map_contains(t, k);
        if s.last().0@ == k {
            assert(s[s.len() - 1].0@ == k);
        } else {
            if entries_map(s).contains_key(k) {
                let i = choose|i: int| 0 <= i < t.len() && (#[trigger] t[i]).0@ == k;
                assert(s[i].0@ == k);
            }
            if exists|i: int| 0 <= i < s.len() && (#[trigger] s[i]).0@ == k {
                let i = choose|i: int| 0 <= i < s.len() && (#[trigger] s[i]).0@ == k;
                assert(i < s.len() - 1);
                assert(t[i].0@ == k);
            }
        }
    }
}

proof fn lemma_entries_map_get(s: Seq<(String, String)>, i: int)
    requires
        keys_distinct(s),
        0 <= i < s.len(),
    ensures
        entries_map(s).contains_key(s[i].0@),
        entries_map(s)[s[i].0@] == s[i].1@,
    decreases s.len(),
{
    if i == s.len() - 1 {
    } else {
        let t = s.drop_last();
        assert(t[i] == s[i]);
        lemma_entries_map_get(t, i);
        assert(s.last().0@ != s[i].0@);
    }
}

proof fn lemma_entries_map_update(s: Seq<(String, String)>, i: int, key: String, value: String)
    requires
        keys_distinct(s),
        0 <= i < s.len(),
        s[i].0@ == key@,
    ensures
        entries_map(s.update(i, (key, value))) == entries_map(s).insert(key@, value@),
        keys_distinct(s.update(i, (key, value))),
    decreases s.len(),
{
    let u = s.update(i, (key, value));
    assert(keys_distinct(u));
    if i == s.len() - 1 {
        assert(u.drop_last() =~= s.drop_last());
        assert(u.last() == (key, value));
        assert_maps_equal!(
            entries_map(s.drop_last()).insert(key@, value@),
            entries_map(s.drop_last()).insert(s.last().0@, s.last().1@).insert(key@, value@)
        );
    } else {
        assert(u.drop_last() =~= s.drop_last().update(i, (key, value)));
        assert(u.last() == s.last());
        assert(keys_distinct(s.drop_last())) by {
            assert(forall|a: int, b: int|
                0 <= a < b < s.len() - 1 ==> (#[trigger] s.drop_last()[a]).0@ != (
                #[trigger] s.drop_last()[b]).0@);
        }
        assert(s.drop_last()[i] == s[i]);
        lemma_entries_map_update(s.drop_last(), i, key, value);
        let lk = s.last().0@;
        let lv = s.last().1@;
        assert(lk != key@);
        assert_maps_equal!(
            entries_map(s.drop_last()).insert(key@, value@).insert(lk, lv),
            entries_map(s.drop_last()).insert(lk, lv).insert(key@, value@)
        );
    }
}

impl View for ConfigOverlay {
    type V = Map<Seq<char>, Seq<char>>;

    closed spec fn view(&self) -> Map<Seq<char>, Seq<char>> {
        entries_map(self.entries@)
    }
}

impl ConfigOverlay {
    pub closed spec fn wf(&self) -> bool {
        keys_distinct(self.entries@)
    }

    pub fn new() -> (r: Self)
        ensures
            r.wf(),
            r@ == Map::<Seq<char>, Seq<char>>::empty(),
    {
        ConfigOverlay { entries: Vec::new() }
    }

    /// Look a key up; `None` exactly when no entry has that key.
    pub fn get(&self, key: &str) -> (r: Option<&String>)
        requires
            self.wf(),
        ensures
            match r {
                Some(v) => self@.contains_key(key@) && v@ == self@[key@],
                None => !self@.contains_key(key@),
            },
    {
        let n = self.entries.len();
        let mut i: usize = 0;
        while i < n
            invariant
                i <= n,
                n == self.entries@.len(),
                self.wf(),
                forall|j: int| 0 <= j < i ==> (#[trigger] self.entries@[j]).0@ != key@,
            decreases n - i,
        {
            if str_eq(self.entries[i].0.as_str(), key) {
                proof {
                    lemma_entries_map_get(self.entries@, i as int);
                }
                return Some(&self.entries[i].1);
            }
            i = i + 1;
        }
        proof {
            lemma_entries_map_contains(self.entries@, key@);
        }
        None
    }

    /// Add an assignment; an entry with the same key is overwritten, never duplicated.
    pub fn insert(&mut self, key: String, value: String)
        requires
            old(self).wf(),
        ensures
            final(self).wf(),
            final(self)@ == old(self)@.insert(key@, value@),
    {
        let n = self.entries.len();
        let mut i: usize = 0;
        while i < n
            invariant
                i <= n,
                n == self.entries@.len(),
                self.wf(),
                self.entries@ == old(self).entries@,
                forall|j: int| 0 <= j < i ==> (#[trigger] self.entries@[j]).0@ != key@,
            decreases n - i,
        {
            if str_eq(self.entries[i].0.as_str(), key.as_str()) {
                proof {
                    lemma_entries_map_update(self.entries@, i as int, key, value);
                }
                self.entries[i] = (key, value);
                return ;
            }
            i = i + 1;
        }
        let ghost prev = self.entries@;
        self.entries.push((key, value));
        proof {
            assert(self.entries@.drop_last() =~= prev);
            assert(keys_distinct(self.entries@)) by {
                assert(forall|j: int|
                    0 <= j < prev.len() ==> (#[trigger] self.entries@[j]) == prev[j]);
            }
        }
    }
}

/// The wrapping quotes of a value, stripped when a single matching pair of
/// `'` or `"` encloses it.
pub open spec fn spec_strip_quotes(v: Seq<char>) -> Seq<char> {
    if v.len() >= 2 && v[0] == v.last() && (v[0] == '\'' || v[0] == '"') {
        v.subrange(1, v.len() - 1)
    } else {
        v
    }
}

/// The assignment a line denotes: split at the first `=`, both sides trimmed,
/// the value unquoted; `None` for a line without `=`.
pub open spec fn spec_assignment(line: Seq<char>) -> Option<(Seq<char>, Seq<char>)> {
    match spec_find(line, '=') {
        None => None,
        Some(i) => Some(
            (
                spec_trim(line.subrange(0, i)),
                spec_strip_quotes(spec_trim(line.subrange(i + 1, line.len() as int))),
            ),
        ),
    }
}

/// Whether the loader skips a line outright: blank, a comment, or an
/// `unset `/`export ` statement (judged on the trimmed form).
pub open spec fn spec_skippable(line: Seq<char>) -> bool {
    let t = spec_trim(line);
    t.len() == 0 || t[0] == '#' || spec_starts_with(t, "unset "@) || spec_starts_with(
        t,
        "export "@,
    )
}

/// What one line contributes to the overlay.
pub open spec fn line_action(line: Seq<char>) -> Option<(Seq<char>, Seq<char>)> {
    if spec_skippable(line) {
        None
    } else {
        spec_assignment(line)
    }
}

pub open spec fn apply_line(m: Map<Seq<char>, Seq<char>>, line: Seq<char>) -> Map<
    Seq<char>,
    Seq<char>,
> {
    match line_action(line) {
        None => m,
        Some(kv) => m.insert(kv.0, kv.1),
    }
}

/// The overlay mapping after loading the given lines on top of `m`, in order.
pub open spec fn overlay_after(m: Map<Seq<char>, Seq<char>>, lines: Seq<Seq<char>>) -> Map<
    Seq<char>,
    Seq<char>,
>
    decreases lines.len(),
{
    if lines.len() == 0 {
        m
    } else {
        apply_line(overlay_after(m, lines.drop_last()), lines.last())
    }
}

/// The value of the last line assigning `k`, if any line does.
pub open spec fn last_assignment(lines: Seq<Seq<char>>, k: Seq<char>) -> Option<Seq<char>>
    decreases lines.len(),
{
    if lines.len() == 0 {
        None
    } else {
        match line_action(lines.last()) {
            Some(kv) => if kv.0 == k {
                Some(kv.1)
            } else {
                last_assignment(lines.drop_last(), k)
            },
            None => last_assignment(lines.drop_last(), k),
        }
    }
}

/// Loading lines and then looking a key up yields exactly the value of the
/// last line assigning that key; a key no line assigns keeps what `m` had.
pub proof fn lemma_last_assignment_wins(
    m: Map<Seq<char>, Seq<char>>,
    lines: Seq<Seq<char>>,
    k: Seq<char>,
)
    ensures
        match last_assignment(lines, k) {
            Some(v) => overlay_after(m, lines).contains_key(k) && overlay_after(m, lines)[k] == v,
            None => overlay_after(m, lines).contains_key(k) == m.contains_key(k) && (
            m.contains_key(k) ==> overlay_after(m, lines)[k] == m[k]),
        },
    decreases lines.len(),
{
    if lines.len() == 0 {
    } else {
        lemma_last_assignment_wins(m, lines.drop_last(), k);
    }
}

/// A blank line, a comment line, or one whose statement is `export` or
/// `unset` adds no key: it leaves the overlay mapping unchanged.
pub proof fn lemma_skipped_line_adds_nothing(m: Map<Seq<char>, Seq<char>>, line: Seq<char>)
    requires
        spec_trim(line).len() == 0 || spec_starts_with(line, "#"@) || spec_starts_with(
            line,
            "export "@,
        ) || spec_starts_with(line, "unset "@),
    ensures
        apply_line(m, line) == m,
{
    reveal_strlit("#");
    reveal_strlit("export ");
    reveal_strlit("unset ");
    let t = spec_trim(line);
    if t.len() == 0 {
    } else {
        lemma_trim_keeps_nonspace_prefix(line);
        if spec_starts_with(line, "#"@) {
            assert(t[0] == '#');
        } else if spec_starts_with(line, "export "@) {
            lemma_statement_line_skipped(line, "export "@);
        } else {
            lemma_statement_line_skipped(line, "unset "@);
        }
    }
}

/// A line whose first character is not whitespace survives trimming up to its
/// trailing whitespace: the trimmed form is a prefix of the line.
proof fn lemma_trim_keeps_nonspace_prefix(line: Seq<char>)
    requires
        line.len() > 0,
        !is_space(line[0]),
    ensures
        trim_front(line) == line,
        exists|e: int|
            0 <= e <= line.len() && spec_trim(line) == line.subrange(0, e) && (forall|j: int|
                e <= j < line.len() ==> is_space(#[trigger] line[j])) && (e == 0 || !is_space(
                line[e - 1],
            )),
{
    lemma_trim_back_form(line);
}

proof fn lemma_trim_back_form(s: Seq<char>)
    ensures
        exists|e: int|
            0 <= e <= s.len() && trim_back(s) == s.subrange(0, e) && (forall|j: int|
                e <= j < s.len() ==> is_space(#[trigger] s[j])) && (e == 0 || !is_space(s[e - 1])),
    decreases s.len(),
{
    if s.len() > 0 && is_space(s.last()) {
        let t = s.drop_last();
        lemma_trim_back_form(t);
        let e = choose|e: int|
            0 <= e <= t.len() && trim_back(t) == t.subrange(0, e) && (forall|j: int|
                e <= j < t.len() ==> is_space(#[trigger] t[j])) && (e == 0 || !is_space(t[e - 1]));
        assert(t.subrange(0, e) =~= s.subrange(0, e));
        assert forall|j: int| e <= j < s.len() implies is_space(#[trigger] s[j]) by {
            if j < s.len() - 1 {
                assert(s[j] == t[j]);
            }
        }
        if e > 0 {
            assert(s[e - 1] == t[e - 1]);
        }
        assert(0 <= e <= s.len() && trim_back(s) == s.subrange(0, e) && (forall|j: int|
            e <= j < s.len() ==> is_space(#[trigger] s[j])) && (e == 0 || !is_space(s[e - 1])));
    } else {
        let e = s.len() as int;
        assert(trim_back(s) == s.subrange(0, e)) by {
            assert(s.subrange(0, e) =~= s);
        }
    }
}

/// A line that begins with a statement word (`export ` or `unset `, letters
/// then one space) either stays skippable after trimming or holds no `=`.
proof fn lemma_statement_line_skipped(line: Seq<char>, word: Seq<char>)
    requires
        spec_starts_with(line, word),
        word.len() > 0,
        !is_space(word[0]),
        word.last() == ' ',
        forall|j: int| 0 <= j < word.len() ==> (#[trigger] word[j]) != '=',
        forall|j: int| 0 <= j < word.len() - 1 ==> !is_space(#[trigger] word[j]),
    ensures
        spec_starts_with(spec_trim(line), word) || spec_find(line, '=') is None,
{
    lemma_trim_keeps_nonspace_prefix(line);
    let t = spec_trim(line);
    let e = choose|e: int|
        0 <= e <= line.len() && spec_trim(line) == line.subrange(0, e) && (forall|j: int|
            e <= j < line.len() ==> is_space(#[trigger] line[j])) && (e == 0 || !is_space(
            line[e - 1],
        ));
    if e >= word.len() {
        assert forall|j: int| 0 <= j < word.len() implies #[trigger] t[j] == word[j] by {
            assert(t[j] == line[j]);
        }
        assert(spec_starts_with(t, word));
    } else {
        // Trimming cut into the word: everything from `e` on is whitespace, so
        // the word's non-space characters force `e` to its final space, and the
        // line then holds `=` nowhere.
        assert(forall|j: int| 0 <= j < line.len() ==> (#[trigger] line[j]) != '=') by {
            assert(e == word.len() - 1) by {
                if e < word.len() - 1 {
                    assert(is_space(line[e]));
                    assert(line[e] == word[e]);
                }
            }
            assert(forall|j: int| 0 <= j < e ==> (#[trigger] line[j]) == word[j]);
            assert(forall|j: int| e <= j < line.len() ==> is_space(#[trigger] line[j]));
        }
        lemma_find_props(line, '=');
        assert(spec_find(line, '=') is None);
    }
}

/// Loading the same lines twice yields the same mapping as loading them once.
pub proof fn lemma_load_idempotent(m: Map<Seq<char>, Seq<char>>, lines: Seq<Seq<char>>)
    ensures
        overlay_after(overlay_after(m, lines), lines) == overlay_after(m, lines),
{
    let a = overlay_after(m, lines);
    let b = overlay_after(a, lines);
    assert_maps_equal!(b, a, k => {
        lemma_last_assignment_wins(m, lines, k);
        lemma_last_assignment_wins(a, lines, k);
    });
}

} // verus!
