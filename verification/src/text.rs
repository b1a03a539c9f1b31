//! Text helpers on `&str`: comparison, suffixes, and the file name and
//! extension of a `/`-separated path, each with its meaning as a spec function
//! over the characters.

use vstd::prelude::*;

verus! {

/// The index of the last occurrence of `c` in `s`, or -1.
pub open spec fn last_index_of(s: Seq<char>, c: char) -> int
    decreases s.len(),
{
    if s.len() == 0 {
        -1
    } else if s.last() == c {
        s.len() - 1
    } else {
        last_index_of(s.drop_last(), c)
    }
}

/// `s` with its trailing separators and trailing `/.` components removed.
pub open spec fn trim_trailing(s: Seq<char>) -> Seq<char>
    decreases s.len(),
{
    if s.len() > 0 && s.last() == '/' {
        trim_trailing(s.drop_last())
    } else if s.len() >= 2 && s.last() == '.' && s[s.len() - 2] == '/' {
        trim_trailing(s.drop_last())
    } else {
        s
    }
}

/// The final component of a path, as `Path::file_name` reads it: `None` when
/// the path is empty, is the root, is `.`, or ends in `..`.
pub open spec fn spec_file_name(path: Seq<char>) -> Option<Seq<char>> {
    let t = trim_trailing(path);
    if t.len() == 0 || t == seq!['.'] {
        None
    } else {
        let p = t.subrange(last_index_of(t, '/') + 1, t.len() as int);
        if p == seq!['.', '.'] {
            None
        } else {
            Some(p)
        }
    }
}

/// The extension of a file name: what follows its last `.`, when that dot is
/// not the first character.
pub open spec fn name_extension(name: Seq<char>) -> Option<Seq<char>> {
    let i = last_index_of(name, '.');
    if i <= 0 {
        None
    } else {
        Some(name.subrange(i + 1, name.len() as int))
    }
}

/// The extension of a path, as `Path::extension` reads it.
pub open spec fn spec_extension(path: Seq<char>) -> Option<Seq<char>> {
    match spec_file_name(path) {
        Some(name) => name_extension(name),
        None => None,
    }
}

/// `s` ends with `suffix`.
pub open spec fn has_suffix(s: Seq<char>, suffix: Seq<char>) -> bool {
    suffix.len() <= s.len() && s.subrange(s.len() - suffix.len(), s.len() as int) == suffix
}

/// ASCII lower-casing of one character; other characters are kept.
pub open spec fn ascii_lower(c: char) -> char {
    if 'A' <= c && c <= 'Z' {
        ((c as u32) + 32) as char
    } else {
        c
    }
}

/// `a` and `b` are equal when ASCII letters are compared without case.
pub open spec fn eq_ignore_ascii_case(a: Seq<char>, b: Seq<char>) -> bool {
    a.len() == b.len() && forall|i: int| 0 <= i < a.len() ==> ascii_lower(#[trigger] a[i]) == ascii_lower(b[i])
}

/// `a` sorts strictly before `b`, character by character.
pub open spec fn seq_lt(a: Seq<char>, b: Seq<char>) -> bool
    decreases a.len(),
{
    if a.len() == 0 {
        b.len() > 0
    } else if b.len() == 0 {
        false
    } else if a[0] != b[0] {
        (a[0] as int) < (b[0] as int)
    } else {
        seq_lt(a.drop_first(), b.drop_first())
    }
}

/// `seq_lt` is a strict total order.
pub proof fn lemma_seq_lt_irreflexive(a: Seq<char>)
    ensures
        !seq_lt(a, a),
    decreases a.len(),
{
    if a.len() > 0 {
        lemma_seq_lt_irreflexive(a.drop_first());
    }
}

/// `seq_lt` is a strict total order.
pub proof fn lemma_seq_lt_total(a: Seq<char>, b: Seq<char>)
    ensures
        a != b ==> seq_lt(a, b) || seq_lt(b, a),
        !(seq_lt(a, b) && seq_lt(b, a)),
    decreases a.len(),
{
    if a.len() > 0 && b.len() > 0 {
        if a[0] == b[0] {
            lemma_seq_lt_total(a.drop_first(), b.drop_first());
            if a.drop_first() == b.drop_first() {
                assert(a =~= seq![a[0]] + a.drop_first());
                assert(b =~= seq![b[0]] + b.drop_first());
            }
        } else {
            assert((a[0] as int) != (b[0] as int));
        }
    } else if a.len() == 0 && b.len() == 0 {
        assert(a =~= b);
    }
}

/// `seq_lt` is a strict total order.
pub proof fn lemma_seq_lt_transitive(a: Seq<char>, b: Seq<char>, c: Seq<char>)
    requires
        seq_lt(a, b),
        seq_lt(b, c),
    ensures
        seq_lt(a, c),
    decreases a.len(),
{
    if a.len() > 0 && b.len() > 0 && c.len() > 0 && a[0] == b[0] && b[0] == c[0] {
        lemma_seq_lt_transitive(a.drop_first(), b.drop_first(), c.drop_first());
    }
}

proof fn lemma_last_index_bounds(s: Seq<char>, c: char)
    ensures
        -1 <= last_index_of(s, c) < s.len(),
        last_index_of(s, c) >= 0 ==> s[last_index_of(s, c)] == c,
        forall|j: int| last_index_of(s, c) < j < s.len() ==> s[j] != c,
    decreases s.len(),
{
    if s.len() > 0 && s.last() != c {
        lemma_last_index_bounds(s.drop_last(), c);
        assert forall|j: int| last_index_of(s, c) < j < s.len() implies s[j] != c by {
            if j < s.len() - 1 {
                assert(s[j] == s.drop_last()[j]);
            }
        }
    }
}

proof fn lemma_last_index_prefix(s: Seq<char>, c: char, n: int)
    requires
        0 <= n <= s.len(),
        forall|j: int| n <= j < s.len() ==> s[j] != c,
    ensures
        last_index_of(s, c) == last_index_of(s.subrange(0, n), c),
    decreases s.len(),
{
    if s.len() > n {
        assert(s.drop_last().subrange(0, n) == s.subrange(0, n));
        lemma_last_index_prefix(s.drop_last(), c, n);
    } else {
        assert(s.subrange(0, n) == s);
    }
}

proof fn lemma_trim_is_prefix(s: Seq<char>)
    ensures
        trim_trailing(s).len() <= s.len(),
        trim_trailing(s) == s.subrange(0, trim_trailing(s).len() as int),
    decreases s.len(),
{
    if s.len() > 0 && s.last() == '/' {
        lemma_trim_is_prefix(s.drop_last());
        assert(s.drop_last().subrange(0, trim_trailing(s).len() as int) == s.subrange(
            0,
            trim_trailing(s).len() as int,
        ));
    } else if s.len() >= 2 && s.last() == '.' && s[s.len() - 2] == '/' {
        lemma_trim_is_prefix(s.drop_last());
        assert(s.drop_last().subrange(0, trim_trailing(s).len() as int) == s.subrange(
            0,
            trim_trailing(s).len() as int,
        ));
    } else {
        assert(s.subrange(0, s.len() as int) == s);
    }
}

/// Every file name of a path is no longer than the path.
pub proof fn lemma_file_name_shorter(path: Seq<char>)
    ensures
        spec_file_name(path) matches Some(f) ==> f.len() <= path.len(),
{
    lemma_trim_is_prefix(path);
    let t = trim_trailing(path);
    lemma_last_index_bounds(t, '/');
}

proof fn lemma_last_index_at(s: Seq<char>, c: char, k: int)
    requires
        0 <= k < s.len(),
        s[k] == c,
        forall|j: int| k < j < s.len() ==> s[j] != c,
    ensures
        last_index_of(s, c) == k,
    decreases s.len(),
{
    if s.last() != c {
        assert forall|j: int| k < j < s.drop_last().len() implies s.drop_last()[j] != c by {
            assert(s.drop_last()[j] == s[j]);
        }
        lemma_last_index_at(s.drop_last(), c, k);
    }
}

proof fn lemma_last_index_absent(s: Seq<char>, c: char)
    requires
        forall|j: int| 0 <= j < s.len() ==> s[j] != c,
    ensures
        last_index_of(s, c) == -1,
    decreases s.len(),
{
    if s.len() > 0 {
        assert forall|j: int| 0 <= j < s.drop_last().len() implies s.drop_last()[j] != c by {
            assert(s.drop_last()[j] == s[j]);
        }
        lemma_last_index_absent(s.drop_last(), c);
    }
}

/// The file name of `dir/name` is `name`, whatever the directories, and a
/// bare name is its own file name; `name` holds no separator and is neither
/// `.` nor `..`.
pub proof fn law_file_name_is_last_component(dir: Seq<char>, name: Seq<char>)
    requires
        name.len() > 0,
        forall|j: int| 0 <= j < name.len() ==> name[j] != '/',
        name != seq!['.'],
        name != seq!['.', '.'],
    ensures
        spec_file_name(dir + seq!['/'] + name) == Some(name),
        spec_file_name(name) == Some(name),
{
    let p = dir + seq!['/'] + name;
    assert(p.last() == name.last());
    assert(trim_trailing(p) == p) by {
        if name.len() >= 2 {
            assert(p[p.len() - 2] == name[name.len() - 2]);
        } else {
            assert(p[p.len() - 2] == '/');
            assert(name =~= seq![name[0]]);
        }
    }
    let k = dir.len() as int;
    assert(p[k] == '/');
    assert forall|j: int| k < j < p.len() implies p[j] != '/' by {
        assert(p[j] == name[j - k - 1]);
    }
    lemma_last_index_at(p, '/', k);
    assert(p.subrange(k + 1, p.len() as int) =~= name);
    assert(trim_trailing(name) == name) by {
        if name.len() >= 2 {
            assert(name[name.len() - 2] != '/');
        }
    }
    lemma_last_index_absent(name, '/');
    assert(name.subrange(0, name.len() as int) =~= name);
    assert(p.len() > 0 && p != seq!['.']);
}

/// The extension of a file name is what follows its last dot, when something
/// precedes that dot: `a.tar.gz` has `gz`.
pub proof fn law_extension_follows_last_dot(stem: Seq<char>, ext: Seq<char>)
    requires
        stem.len() > 0,
        forall|j: int| 0 <= j < ext.len() ==> ext[j] != '.',
    ensures
        name_extension(stem + seq!['.'] + ext) == Some(ext),
{
    let n = stem + seq!['.'] + ext;
    let k = stem.len() as int;
    assert(n[k] == '.');
    assert forall|j: int| k < j < n.len() implies n[j] != '.' by {
        assert(n[j] == ext[j - k - 1]);
    }
    lemma_last_index_at(n, '.', k);
    assert(n.subrange(k + 1, n.len() as int) =~= ext);
}

/// A name without a dot, or whose only dot is its first character
/// (`.bashrc`), has no extension.
pub proof fn law_no_extension_without_inner_dot(name: Seq<char>)
    requires
        forall|j: int| 0 < j < name.len() ==> name[j] != '.',
    ensures
        name_extension(name) is None,
{
    lemma_last_index_bounds(name, '.');
}

/// The extension of `dir/stem.ext` is `ext`: only the file name counts, and
/// in it only what follows the last dot.
pub proof fn law_path_extension(dir: Seq<char>, stem: Seq<char>, ext: Seq<char>)
    requires
        stem.len() > 0,
        stem[0] != '.',
        forall|j: int| 0 <= j < stem.len() ==> stem[j] != '/',
        forall|j: int| 0 <= j < ext.len() ==> ext[j] != '.' && ext[j] != '/',
    ensures
        spec_extension(dir + seq!['/'] + (stem + seq!['.'] + ext)) == Some(ext),
{
    let name = stem + seq!['.'] + ext;
    assert forall|j: int| 0 <= j < name.len() implies name[j] != '/' by {
        if j < stem.len() {
            assert(name[j] == stem[j]);
        } else if j > stem.len() {
            assert(name[j] == ext[j - stem.len() - 1]);
        }
    }
    assert(name[0] == stem[0]);
    law_file_name_is_last_component(dir, name);
    law_extension_follows_last_dot(stem, ext);
}

/// A trailing separator does not change a path's file name (`dir/name/`).
pub proof fn law_trailing_separator_is_ignored(path: Seq<char>)
    ensures
        spec_file_name(path + seq!['/']) == spec_file_name(path),
{
    assert((path + seq!['/']).drop_last() =~= path);
}

/// File extensions are compared without ASCII case: two texts of one length
/// whose characters are equal or are the upper- and lower-case forms of one
/// ASCII letter match.
pub proof fn law_ascii_case_is_ignored(a: Seq<char>, b: Seq<char>)
    requires
        a.len() == b.len(),
        forall|i: int|
            0 <= i < a.len() ==> #[trigger] a[i] == b[i] || ('A' <= a[i] <= 'Z' && (b[i] as int) == (a[i] as int)
                + 32) || ('A' <= b[i] <= 'Z' && (a[i] as int) == (b[i] as int) + 32),
    ensures
        eq_ignore_ascii_case(a, b),
{
    assert forall|i: int| 0 <= i < a.len() implies ascii_lower(#[trigger] a[i]) == ascii_lower(b[i]) by {
        if a[i] != b[i] {
            if 'A' <= a[i] <= 'Z' && (b[i] as int) == (a[i] as int) + 32 {
                assert(!('A' <= b[i] <= 'Z'));
                assert(ascii_lower(a[i]) == b[i]);
            } else {
                assert(!('A' <= a[i] <= 'Z'));
                assert(ascii_lower(b[i]) == a[i]);
            }
        }
    }
}

/// Characters other than ASCII letters must be equal for texts to match
/// without case, and texts of different lengths never match.
pub proof fn law_other_characters_must_be_equal(a: Seq<char>, b: Seq<char>, i: int)
    requires
        0 <= i < a.len(),
        i < b.len(),
        a[i] != b[i],
        !('A' <= a[i] <= 'Z' || 'a' <= a[i] <= 'z'),
        !('A' <= b[i] <= 'Z' || 'a' <= b[i] <= 'z'),
    ensures
        !eq_ignore_ascii_case(a, b),
{
    assert(ascii_lower(a[i]) == a[i]);
    assert(ascii_lower(b[i]) == b[i]);
}

/// The characters of `s`, in order.
pub fn chars_of(s: &str) -> (v: Vec<char>)
    ensures
        v@ == s@,
{
    let n = s.unicode_len();
    let mut v: Vec<char> = Vec::new();
    let mut i: usize = 0;
    while i < n
        invariant
            n == s@.len(),
            i <= n,
            v@ == s@.subrange(0, i as int),
        decreases n - i,
    {
        let c = s.get_char(i);
        v.push(c);
        i = i + 1;
        assert(v@ == s@.subrange(0, i as int));
    }
    assert(v@ == s@);
    v
}

/// Whether two strings hold the same characters.
pub fn str_eq(a: &str, b: &str) -> (r: bool)
    ensures
        r == (a@ == b@),
{
    let x = chars_of(a);
    let y = chars_of(b);
    if x.len() != y.len() {
        return false;
    }
    let mut i: usize = 0;
    while i < x.len()
        invariant
            x@ == a@,
            y@ == b@,
            x.len() == y.len(),
            i <= x.len(),
            forall|j: int| 0 <= j < i ==> x@[j] == y@[j],
        decreases x.len() - i,
    {
        if x[i] != y[i] {
            return false;
        }
        i = i + 1;
    }
    assert(x@ == y@);
    true
}

/// Whether `a` sorts strictly before `b`, character by character.
pub fn str_lt(a: &str, b: &str) -> (r: bool)
    ensures
        r == seq_lt(a@, b@),
{
    let x = chars_of(a);
    let y = chars_of(b);
    let mut i: usize = 0;
    assert(a@.subrange(0, a@.len() as int) == a@);
    assert(b@.subrange(0, b@.len() as int) == b@);
    while i < x.len() && i < y.len()
        invariant
            x@ == a@,
            y@ == b@,
            i <= x.len(),
            i <= y.len(),
            seq_lt(a@, b@) == seq_lt(a@.subrange(i as int, a@.len() as int), b@.subrange(i as int, b@.len() as int)),
        decreases x.len() - i,
    {
        let ghost sa = a@.subrange(i as int, a@.len() as int);
        let ghost sb = b@.subrange(i as int, b@.len() as int);
        if x[i] != y[i] {
            assert(sa[0] == x@[i as int] && sb[0] == y@[i as int]);
            return x[i] < y[i];
        }
        assert(sa.drop_first() == a@.subrange(i + 1, a@.len() as int));
        assert(sb.drop_first() == b@.subrange(i + 1, b@.len() as int));
        i = i + 1;
    }
    y.len() > i
}

/// `s` with `suffix` removed from its end, when it ends with it.
pub fn strip_suffix<'a>(s: &'a str, suffix: &str) -> (r: Option<&'a str>)
    ensures
        r is Some <==> has_suffix(s@, suffix@),
        r matches Some(t) ==> t@ == s@.subrange(0, s@.len() - suffix@.len()),
{
    let x = chars_of(s);
    let y = chars_of(suffix);
    if y.len() > x.len() {
        return None;
    }
    let start = x.len() - y.len();
    let mut i: usize = 0;
    while i < y.len()
        invariant
            x@ == s@,
            y@ == suffix@,
            start == x.len() - y.len(),
            i <= y.len(),
            forall|j: int| 0 <= j < i ==> x@[start + j] == y@[j],
        decreases y.len() - i,
    {
        if x[start + i] != y[i] {
            assert(s@.subrange(start as int, s@.len() as int)[i as int] != suffix@[i as int]);
            return None;
        }
        i = i + 1;
    }
    assert(s@.subrange(start as int, s@.len() as int) == suffix@);
    Some(s.substring_char(0, start))
}

/// The index of the last `c` in `v`, or `None`.
fn find_last(v: &Vec<char>, c: char, end: usize) -> (r: Option<usize>)
    requires
        end <= v.len(),
    ensures
        r is None ==> last_index_of(v@.subrange(0, end as int), c) == -1,
        r matches Some(i) ==> last_index_of(v@.subrange(0, end as int), c) == i && i < end,
{
    let mut k: usize = end;
    while k > 0
        invariant
            k <= end <= v.len(),
            forall|j: int| k <= j < end ==> v@[j] != c,
        decreases k,
    {
        if v[k - 1] == c {
            proof {
                let s = v@.subrange(0, end as int);
                lemma_last_index_prefix(s, c, k as int);
                assert(s.subrange(0, k as int).last() == c);
            }
            return Some(k - 1);
        }
        k = k - 1;
    }
    proof {
        let s = v@.subrange(0, end as int);
        lemma_last_index_prefix(s, c, 0);
    }
    None
}

/// The length of `trim_trailing` of the first `n` characters.
fn trimmed_len(v: &Vec<char>) -> (n: usize)
    ensures
        n <= v.len(),
        trim_trailing(v@) == v@.subrange(0, n as int),
{
    let mut n: usize = v.len();
    assert(v@.subrange(0, n as int) == v@);
    while n > 0
        invariant
            n <= v.len(),
            trim_trailing(v@) == trim_trailing(v@.subrange(0, n as int)),
        decreases n,
    {
        let ghost s = v@.subrange(0, n as int);
        if v[n - 1] == '/' {
            assert(s.drop_last() == v@.subrange(0, n - 1));
            n = n - 1;
        } else if n >= 2 && v[n - 1] == '.' && v[n - 2] == '/' {
            assert(s.drop_last() == v@.subrange(0, n - 1));
            n = n - 1;
        } else {
            return n;
        }
    }
    n
}

/// The final component of a path, as `Path::file_name` gives it.
pub fn file_name<'a>(path: &'a str) -> (r: Option<&'a str>)
    ensures
        r is Some <==> spec_file_name(path@) is Some,
        r matches Some(f) ==> spec_file_name(path@) == Some(f@),
{
    let v = chars_of(path);
    let n = trimmed_len(&v);
    let ghost t = v@.subrange(0, n as int);
    if n == 0 || (n == 1 && v[0] == '.') {
        assert(n == 1 ==> t == seq!['.']);
        return None;
    }
    assert(t.len() == 1 ==> t[0] == v@[0]);
    assert(t != seq!['.']);
    let start = match find_last(&v, '/', n) {
        Some(i) => i + 1,
        None => 0,
    };
    proof {
        lemma_last_index_bounds(t, '/');
    }
    assert(t.subrange(start as int, n as int) == v@.subrange(start as int, n as int));
    if n - start == 2 && v[start] == '.' && v[start + 1] == '.' {
        assert(v@.subrange(start as int, n as int) == seq!['.', '.']);
        return None;
    }
    let f = path.substring_char(start, n);
    proof {
        if v@.subrange(start as int, n as int) == seq!['.', '.'] {
            assert(v@.subrange(start as int, n as int)[0] == v@[start as int]);
            assert(v@.subrange(start as int, n as int)[1] == v@[start + 1]);
        }
    }
    Some(f)
}

/// The extension of a file name as `name_extension` reads it.
pub fn extension_of_name<'a>(name: &'a str) -> (r: Option<&'a str>)
    ensures
        r is Some <==> name_extension(name@) is Some,
        r matches Some(e) ==> name_extension(name@) == Some(e@),
{
    let v = chars_of(name);
    match find_last(&v, '.', v.len()) {
        Some(i) => {
            assert(v@.subrange(0, v.len() as int) == v@);
            if i == 0 {
                None
            } else {
                Some(name.substring_char(i + 1, v.len()))
            }
        },
        None => {
            assert(v@.subrange(0, v.len() as int) == v@);
            None
        },
    }
}

/// The extension of a path, as `Path::extension` gives it.
pub fn extension<'a>(path: &'a str) -> (r: Option<&'a str>)
    ensures
        r is Some <==> spec_extension(path@) is Some,
        r matches Some(e) ==> spec_extension(path@) == Some(e@),
{
    match file_name(path) {
        Some(f) => extension_of_name(f),
        None => None,
    }
}

/// `a` followed by `b`, as a new string.
pub fn concat(a: &str, b: &str) -> (r: String)
    ensures
        r@ == a@ + b@,
{
    let mut s = String::from_str(a);
    s.append(b);
    s
}

} // verus!
