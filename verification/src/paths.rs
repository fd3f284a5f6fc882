//! Where the `dsh` launcher may be found: the directories of `PATH`, a list
//! of `node` candidates, and the npx cache.

use vstd::prelude::*;

use crate::text::push_char;

verus! {

/// `dir` joined with `name` as `Path::join` does on Unix: an absolute `name`
/// replaces `dir`; otherwise a `/` goes between them unless `dir` is empty or
/// already ends with one.
pub open spec fn join_path(dir: Seq<char>, name: Seq<char>) -> Seq<char> {
    if name.len() > 0 && name[0] == '/' {
        name
    } else if dir.len() == 0 || dir.last() == '/' {
        dir + name
    } else {
        dir + seq!['/'] + name
    }
}

/// The pieces of `s` between the occurrences of `sep`, as `str::split` gives
/// them: there is always one more piece than there are separators.
pub open spec fn split_on(s: Seq<char>, sep: char) -> Seq<Seq<char>>
    decreases s.len(),
{
    if s.len() == 0 {
        seq![Seq::<char>::empty()]
    } else {
        let r = split_on(s.drop_last(), sep);
        if s.last() == sep {
            r.push(Seq::<char>::empty())
        } else {
            r.update(r.len() - 1, r.last().push(s.last()))
        }
    }
}

/// `split_on` never gives an empty list.
pub proof fn lemma_split_nonempty(s: Seq<char>, sep: char)
    ensures
        split_on(s, sep).len() >= 1,
    decreases s.len(),
{
    if s.len() > 0 {
        lemma_split_nonempty(s.drop_last(), sep);
    }
}

/// How many times `c` occurs in `s`.
pub open spec fn count_char(s: Seq<char>, c: char) -> nat
    decreases s.len(),
{
    if s.len() == 0 {
        0
    } else {
        count_char(s.drop_last(), c) + if s.last() == c {
            1nat
        } else {
            0nat
        }
    }
}

/// The pieces `ps` put back together with `sep` between each two.
pub open spec fn join_with(ps: Seq<Seq<char>>, sep: char) -> Seq<char>
    decreases ps.len(),
{
    if ps.len() <= 1 {
        if ps.len() == 1 {
            ps[0]
        } else {
            Seq::empty()
        }
    } else {
        join_with(ps.drop_last(), sep) + seq![sep] + ps.last()
    }
}

proof fn lemma_join_extend_last(ps: Seq<Seq<char>>, sep: char, c: char)
    requires
        ps.len() >= 1,
    ensures
        join_with(ps.update(ps.len() - 1, ps.last().push(c)), sep) == join_with(ps, sep).push(c),
{
    let qs = ps.update(ps.len() - 1, ps.last().push(c));
    if ps.len() > 1 {
        assert(qs.drop_last() =~= ps.drop_last());
        assert(join_with(qs, sep) =~= join_with(ps, sep).push(c));
    }
}

/// Law: `split_on` cuts at every separator, however many there are: it gives
/// one more piece than `s` holds separators, no piece holds the separator,
/// and the pieces joined again with the separator give back `s`.
pub proof fn lemma_split_cuts_everywhere(s: Seq<char>, sep: char)
    ensures
        split_on(s, sep).len() == count_char(s, sep) + 1,
        forall|i: int| 0 <= i < split_on(s, sep).len() ==> !(#[trigger] split_on(s, sep)[i]).contains(sep),
        join_with(split_on(s, sep), sep) == s,
    decreases s.len(),
{
    if s.len() > 0 {
        let t = s.drop_last();
        let c = s.last();
        lemma_split_cuts_everywhere(t, sep);
        let r = split_on(t, sep);
        if c == sep {
            let q = r.push(Seq::<char>::empty());
            assert(q.drop_last() =~= r);
            assert(join_with(q, sep) =~= t + seq![sep]);
            assert(t + seq![sep] =~= s);
            assert forall|i: int| 0 <= i < q.len() implies !(#[trigger] q[i]).contains(sep) by {
                if i < r.len() {
                    assert(q[i] == r[i]);
                }
            }
        } else {
            let q = r.update(r.len() - 1, r.last().push(c));
            lemma_join_extend_last(r, sep, c);
            assert(t.push(c) =~= s);
            assert forall|i: int| 0 <= i < q.len() implies !(#[trigger] q[i]).contains(sep) by {
                if i < r.len() - 1 {
                    assert(q[i] == r[i]);
                } else {
                    let x = r.last().push(c);
                    assert(!r[r.len() - 1].contains(sep));
                    if x.contains(sep) {
                        let k = choose|k: int| 0 <= k < x.len() && x[k] == sep;
                        if k < x.len() - 1 {
                            assert(r.last()[k] == sep);
                        }
                    }
                }
            }
        }
    }
}

/// Law: there is one candidate for each directory of `PATH`, in order: the
/// `i`-th is `name` joined to the `i`-th piece between the colons.
pub proof fn lemma_one_candidate_per_directory(path_var: Seq<char>, name: Seq<char>)
    ensures
        path_candidates_of(path_var, name).len() == count_char(path_var, ':') + 1,
        forall|i: int|
            0 <= i < path_candidates_of(path_var, name).len() ==> #[trigger] path_candidates_of(
                path_var,
                name,
            )[i] == join_path(split_on(path_var, ':')[i], name),
        join_with(split_on(path_var, ':'), ':') == path_var,
{
    lemma_split_cuts_everywhere(path_var, ':');
}

/// Joins two paths as `Path::join` does on Unix.
pub fn join(dir: &str, name: &str) -> (r: String)
    ensures
        r@ == join_path(dir@, name@),
{
    if name.unicode_len() > 0 && name.get_char(0) == '/' {
        return String::from_str(name);
    }
    let mut r = String::from_str(dir);
    let dl = dir.unicode_len();
    if dl == 0 || dir.get_char(dl - 1) == '/' {
        r.append(name);
    } else {
        push_char(&mut r, '/');
        r.append(name);
    }
    r
}

/// Splits `s` at each `sep`, as `str::split` with a character does.
pub fn split(s: &str, sep: char) -> (parts: Vec<String>)
    ensures
        parts@.map_values(|p: String| p@) == split_on(s@, sep),
{
    let mut parts: Vec<String> = Vec::new();
    let mut cur = String::new();
    let ghost mut seen: Seq<char> = Seq::empty();
    for c in it: s.chars()
        invariant
            it.seq() == s@,
            seen == it.seq().take(it.index() as int),
            split_on(seen, sep) == parts@.map_values(|p: String| p@).push(cur@),
    {
        let ghost old_parts = parts@.map_values(|p: String| p@);
        let ghost old_cur = cur@;
        proof {
            assert(seen.push(c).drop_last() =~= seen);
            lemma_split_nonempty(seen, sep);
        }
        if c == sep {
            parts.push(cur);
            cur = String::new();
            proof {
                assert(parts@.map_values(|p: String| p@) =~= old_parts.push(old_cur));
                assert(split_on(seen.push(c), sep) =~= parts@.map_values(|p: String| p@).push(cur@));
            }
        } else {
            push_char(&mut cur, c);
            proof {
                assert(parts@.map_values(|p: String| p@) =~= old_parts);
                assert(split_on(seen.push(c), sep) =~= parts@.map_values(|p: String| p@).push(cur@));
            }
        }
        proof {
            seen = seen.push(c);
        }
    }
    proof {
        assert(seen =~= s@);
    }
    parts.push(cur);
    proof {
        assert(parts@.map_values(|p: String| p@) =~= split_on(s@, sep));
    }
    parts
}


/// The view of an optional string.
pub open spec fn opt_seq(s: Option<String>) -> Option<Seq<char>> {
    match s {
        Some(t) => Some(t@),
        None => None,
    }
}

/// The views of a list of strings.
pub open spec fn seq_views(v: Seq<String>) -> Seq<Seq<char>> {
    v.map_values(|s: String| s@)
}

/// `i` is the first index below `n` that `marks` sets; indices past the end
/// of `marks` count as unset.
pub open spec fn is_first_marked(marks: Seq<bool>, n: int, i: int) -> bool {
    &&& 0 <= i < n
    &&& i < marks.len()
    &&& marks[i]
    &&& forall|j: int| 0 <= j < i ==> !(#[trigger] marks[j])
}

/// The first of `candidates` whose mark is set.
pub open spec fn first_marked(candidates: Seq<Seq<char>>, marks: Seq<bool>) -> Option<Seq<char>> {
    if exists|i: int| #[trigger] is_first_marked(marks, candidates.len() as int, i) {
        Some(candidates[choose|i: int| #[trigger] is_first_marked(marks, candidates.len() as int, i)])
    } else {
        None
    }
}

/// Law: the choice is the candidate at the first index whose mark is set
/// (indices past the end of `marks` count as unset), and there is none
/// exactly when no index within both lists is marked.
pub proof fn lemma_first_marked_is_first(candidates: Seq<Seq<char>>, marks: Seq<bool>)
    ensures
        forall|i: int|
            0 <= i < candidates.len() && i < marks.len() && #[trigger] marks[i] && (forall|j: int|
                0 <= j < i ==> !marks[j]) ==> first_marked(candidates, marks) == Some(candidates[i]),
        (forall|i: int| 0 <= i < candidates.len() && i < marks.len() ==> !#[trigger] marks[i])
            ==> first_marked(candidates, marks) is None,
        first_marked(candidates, marks) is None ==> forall|i: int|
            0 <= i < candidates.len() && i < marks.len() ==> !#[trigger] marks[i],
{
    let n = candidates.len() as int;
    assert forall|i: int|
        0 <= i < candidates.len() && i < marks.len() && #[trigger] marks[i] && (forall|j: int|
            0 <= j < i ==> !marks[j]) implies first_marked(candidates, marks) == Some(candidates[i]) by {
        assert(is_first_marked(marks, n, i));
        let k = choose|k: int| #[trigger] is_first_marked(marks, n, k);
        if k < i {
            assert(!marks[k]);
        }
        if i < k {
            assert(!marks[i]);
        }
    }
    if first_marked(candidates, marks) is None {
        assert forall|i: int| 0 <= i < candidates.len() && i < marks.len() implies !#[trigger] marks[i] by {
            if marks[i] {
                lemma_some_marked_has_first(marks, n, i);
            }
        }
    }
}

proof fn lemma_some_marked_has_first(marks: Seq<bool>, n: int, i: int)
    requires
        0 <= i < n,
        i < marks.len(),
        marks[i],
    ensures
        exists|k: int| #[trigger] is_first_marked(marks, n, k),
    decreases i,
{
    if exists|j: int| 0 <= j < i && marks[j] {
        let j = choose|j: int| 0 <= j < i && marks[j];
        lemma_some_marked_has_first(marks, n, j);
    } else {
        assert(is_first_marked(marks, n, i));
    }
}

/// Law: a relative name joined to a directory ends the result and is preceded
/// by the directory and exactly one `/` (none for an empty directory, no
/// extra one when the directory already ends with `/`); an absolute name
/// stands alone.
pub proof fn lemma_join_path_shape(dir: Seq<char>, name: Seq<char>)
    ensures
        name.len() > 0 && name[0] == '/' ==> join_path(dir, name) == name,
        !(name.len() > 0 && name[0] == '/') ==> {
            let r = join_path(dir, name);
            &&& r.len() >= dir.len() + name.len()
            &&& r.subrange(0, dir.len() as int) == dir
            &&& r.subrange(r.len() - name.len(), r.len() as int) == name
            &&& (dir.len() > 0 ==> r[dir.len() + (if dir.last() == '/' { 0int } else { 1int }) - 1] == '/')
            &&& r.len() == dir.len() + name.len() + (if dir.len() > 0 && dir.last() != '/' { 1int } else { 0int })
        },
{
    if !(name.len() > 0 && name[0] == '/') {
        let r = join_path(dir, name);
        assert(r.subrange(0, dir.len() as int) =~= dir);
        assert(r.subrange(r.len() - name.len(), r.len() as int) =~= name);
    }
}

/// The files that the directories of a `PATH` value would hold under `name`.
pub open spec fn path_candidates_of(path_var: Seq<char>, name: Seq<char>) -> Seq<Seq<char>> {
    split_on(path_var, ':').map_values(|d: Seq<char>| join_path(d, name))
}

/// The first of `candidates` whose mark is set.
pub fn first_marked_of(candidates: &Vec<String>, marks: &Vec<bool>) -> (r: Option<String>)
    ensures
        opt_seq(r) == first_marked(seq_views(candidates@), marks@),
{
    let ghost c = seq_views(candidates@);
    let mut i: usize = 0;
    while i < candidates.len()
        invariant
            i <= candidates@.len(),
            c == seq_views(candidates@),
            forall|j: int| 0 <= j < i && j < marks@.len() ==> !(#[trigger] marks@[j]),
        decreases candidates@.len() - i,
    {
        if i < marks.len() && marks[i] {
            proof {
                assert(is_first_marked(marks@, c.len() as int, i as int));
                let k = choose|k: int| #[trigger] is_first_marked(marks@, c.len() as int, k);
                if k < i {
                    assert(!marks@[k]);
                }
                if i < k {
                    assert(!marks@[i as int]);
                }
            }
            return Some(candidates[i].clone());
        }
        i = i + 1;
    }
    proof {
        assert forall|k: int| !#[trigger] is_first_marked(marks@, c.len() as int, k) by {
            if is_first_marked(marks@, c.len() as int, k) {
                assert(!marks@[k]);
            }
        }
    }
    None
}

/// The files that the directories of `path_var` would hold under `name`, in order.
pub fn path_candidates(path_var: &str, name: &str) -> (c: Vec<String>)
    ensures
        seq_views(c@) == path_candidates_of(path_var@, name@),
{
    let dirs = split(path_var, ':');
    let ghost d = split_on(path_var@, ':');
    let mut c: Vec<String> = Vec::new();
    let mut i: usize = 0;
    while i < dirs.len()
        invariant
            i <= dirs@.len(),
            seq_views(dirs@) == d,
            seq_views(c@) == d.take(i as int).map_values(|x: Seq<char>| join_path(x, name@)),
        decreases dirs@.len() - i,
    {
        let p = join(dirs[i].as_str(), name);
        let ghost before = seq_views(c@);
        c.push(p);
        proof {
            assert(d[i as int] == dirs@[i as int]@);
            assert(seq_views(c@) =~= before.push(p@));
            assert(d.take(i + 1).map_values(|x: Seq<char>| join_path(x, name@)) =~= d.take(
                i as int,
            ).map_values(|x: Seq<char>| join_path(x, name@)).push(join_path(d[i as int], name@)));
        }
        i = i + 1;
    }
    proof {
        assert(d.take(i as int) =~= d);
    }
    c
}

/// The first file named `name` in the directories of `path_var` that is an
/// executable file. `executable[i]` tells whether the `i`-th of
/// `path_candidates(path_var, name)` is a file with an execute permission
/// bit; candidates past the end of `executable` count as not executable.
pub fn find_on_path(path_var: &str, name: &str, executable: &Vec<bool>) -> (r: Option<String>)
    ensures
        opt_seq(r) == first_marked(path_candidates_of(path_var@, name@), executable@),
{
    let candidates = path_candidates(path_var, name);
    first_marked_of(&candidates, executable)
}

/// The first of `candidates` that is an executable file; `executable[i]`
/// tells whether `candidates[i]` is one (missing entries count as no).
pub fn find_node(candidates: &Vec<String>, executable: &Vec<bool>) -> (r: Option<String>)
    ensures
        opt_seq(r) == first_marked(seq_views(candidates@), executable@),
{
    first_marked_of(candidates, executable)
}


/// Where, under an entry of the npx cache, the `dsh` launcher script lies.
pub open spec fn npx_script_rel() -> Seq<char> {
    "node_modules/@deepseek-ai/dsh/lib/bin.js"@
}

/// The launcher script under the npx cache entry `name` of `root`.
pub open spec fn npx_script_of(root: Seq<char>, name: Seq<char>) -> Seq<char> {
    join_path(join_path(root, name), npx_script_rel())
}

/// The npx cache directory under a home directory.
pub open spec fn npx_root_of(home: Seq<char>) -> Seq<char> {
    join_path(home, ".npm/_npx"@)
}

/// The path of the launcher script under the npx cache entry `name` of `root`.
pub fn npx_script(root: &str, name: &str) -> (r: String)
    ensures
        r@ == npx_script_of(root@, name@),
{
    let dir = join(root, name);
    join(dir.as_str(), "node_modules/@deepseek-ai/dsh/lib/bin.js")
}

/// The npx cache directory under the home directory `home`.
pub fn npx_root(home: &str) -> (r: String)
    ensures
        r@ == npx_root_of(home@),
{
    join(home, ".npm/_npx")
}

/// What the file system says of one entry of the npx cache directory.
#[derive(Debug)]
pub struct NpxEntry {
    /// The entry's name in the cache directory.
    pub name: String,
    /// Whether the launcher script under the entry is a file.
    pub script_is_file: bool,
    /// The script's modification time in nanoseconds from the Unix epoch
    /// (negative before it), when the file system reports one.
    pub modified: Option<i128>,
}

/// The time a script is held at while the scan compares: its modification
/// time, or the Unix epoch when that is unknown.
pub open spec fn held_time(e: NpxEntry) -> i128 {
    match e.modified {
        Some(m) => m,
        None => 0,
    }
}

/// The entry that the scan of the first `n` entries holds as the newest, with
/// the time it holds it at. The first script that is a file is taken; a later
/// one replaces it only when its modification time is known and later.
pub open spec fn newest_among(entries: Seq<NpxEntry>, n: int) -> Option<(int, i128)>
    decreases n,
{
    if n <= 0 {
        None
    } else {
        let prev = newest_among(entries, n - 1);
        let e = entries[n - 1];
        if !e.script_is_file {
            prev
        } else {
            match prev {
                None => Some((n - 1, held_time(e))),
                Some((i, t)) => match e.modified {
                    Some(m) => if m > t {
                        Some((n - 1, m))
                    } else {
                        prev
                    },
                    None => prev,
                },
            }
        }
    }
}

/// The newest launcher script of the npx cache, as `find_dsh_in_npx` chooses it.
pub open spec fn newest_script(root: Seq<char>, entries: Seq<NpxEntry>) -> Option<Seq<char>> {
    match newest_among(entries, entries.len() as int) {
        Some((i, _)) => Some(npx_script_of(root, entries[i].name@)),
        None => None,
    }
}

/// Law: the scan finds a script exactly when some entry holds one that is a
/// file; the one it takes is such a file, held at its own time, and no script
/// with a known modification time is later than it.
pub proof fn lemma_newest_is_newest(entries: Seq<NpxEntry>, n: int)
    requires
        0 <= n <= entries.len(),
    ensures
        match newest_among(entries, n) {
            None => forall|j: int| 0 <= j < n ==> !(#[trigger] entries[j]).script_is_file,
            Some((i, t)) => {
                &&& 0 <= i < n
                &&& entries[i].script_is_file
                &&& t == held_time(entries[i])
                &&& forall|j: int|
                    0 <= j < n && (#[trigger] entries[j]).script_is_file && entries[j].modified
                        is Some ==> entries[j].modified->0 <= t
            },
        },
    decreases n,
{
    if n > 0 {
        lemma_newest_is_newest(entries, n - 1);
    }
}

/// The newest launcher script in the npx cache at `root`, given what the file
/// system says of each cache entry, in the order the directory lists them.
pub fn find_dsh_in_npx(root: &str, entries: &Vec<NpxEntry>) -> (r: Option<String>)
    ensures
        opt_seq(r) == newest_script(root@, entries@),
{
    let mut best: Option<(usize, i128)> = None;
    let mut k: usize = 0;
    while k < entries.len()
        invariant
            k <= entries@.len(),
            match best {
                Some((i, t)) => newest_among(entries@, k as int) == Some((i as int, t)),
                None => newest_among(entries@, k as int) is None,
            },
        decreases entries@.len() - k,
    {
        let e = &entries[k];
        if e.script_is_file {
            let better = match (&best, e.modified) {
                (None, _) => true,
                (Some((_, t)), Some(m)) => m > *t,
                (Some(_), None) => false,
            };
            if better {
                let held = match e.modified {
                    Some(m) => m,
                    None => 0,
                };
                best = Some((k, held));
            }
        }
        k = k + 1;
    }
    proof {
        lemma_newest_is_newest(entries@, entries@.len() as int);
    }
    match best {
        Some((i, _)) => Some(npx_script(root, entries[i].name.as_str())),
        None => None,
    }
}

} // verus!
