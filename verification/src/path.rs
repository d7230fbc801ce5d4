//! Filesystem paths as strings, with the Unix conventions of `std::path`: `/`
//! separates components, a leading `/` makes a path absolute, repeated or
//! trailing separators do not start new components, and a `.` segment is no
//! component except at the start of a relative path, where it stands for the
//! current directory. `..` is a component of its own, never a file name.
//! Only `/` separates: a `\` is an ordinary character, as on Unix; Windows
//! prefixes and separators are not modelled.
use vstd::prelude::*;
use crate::text::{
    chars_eq, chars_of, concat_chars, index_of, index_of_chars, lemma_index_of_bounds, push_all,
    slice_chars, string_from, trim_end_char, trim_end_char_chars, trim_start_char,
    trim_start_char_chars,
};

verus! {

pub open spec fn is_absolute(p: Seq<char>) -> bool {
    p.len() > 0 && p[0] == '/'
}

/// `Path::join` (`PathBuf::push`): an absolute `part` replaces `base`; otherwise a
/// separator is added between them unless `base` is empty or already ends in one.
pub open spec fn join(base: Seq<char>, part: Seq<char>) -> Seq<char> {
    if is_absolute(part) {
        part
    } else if base.len() == 0 || base.last() == '/' {
        base + part
    } else {
        base + seq!['/'] + part
    }
}

/// `s` read from the back as `std::path` reads it: without trailing separators
/// and without trailing `.` components (a `.` right after a separator). A lone
/// `.` at the start, the current directory, stays.
pub open spec fn trim_back(s: Seq<char>) -> Seq<char>
    decreases s.len(),
{
    let t = trim_end_char(s, '/');
    if t.len() >= 2 && t.last() == '.' && t[t.len() - 2] == '/' {
        proof {
            lemma_trim_end_char_shape(s, '/');
        }
        trim_back(t.drop_last())
    } else {
        t
    }
}

/// `s` read from the front past separators and `.` components, as
/// `std::path` skips them between the components of a path.
pub open spec fn trim_front(s: Seq<char>) -> Seq<char>
    decreases s.len(),
{
    let t = trim_start_char(s, '/');
    if t.len() >= 1 && t[0] == '.' && (t.len() == 1 || t[1] == '/') {
        proof {
            lemma_trim_start_char_shape(s, '/');
        }
        trim_front(t.drop_first())
    } else {
        t
    }
}

/// `t` without its trailing run of non-separator characters.
pub open spec fn drop_name(t: Seq<char>) -> Seq<char>
    decreases t.len(),
{
    if t.len() > 0 && t.last() != '/' {
        drop_name(t.drop_last())
    } else {
        t
    }
}

/// The last name of `t` (which has no trailing separator).
pub open spec fn last_name(t: Seq<char>) -> Seq<char> {
    t.skip(drop_name(t).len() as int)
}

/// `Path::parent`: `None` for the empty path and the root, otherwise the path
/// without its last component (`""` for a single relative name, `/` for a single
/// absolute one), read from the back past separators and `.` components.
pub open spec fn parent(p: Seq<char>) -> Option<Seq<char>> {
    let t = trim_back(p);
    if t.len() == 0 {
        None
    } else {
        let body = drop_name(t);
        if body.len() == 0 {
            Some(Seq::<char>::empty())
        } else {
            let h = trim_back(body);
            if h.len() == 0 {
                Some(seq!['/'])
            } else {
                Some(h)
            }
        }
    }
}

/// `Path::file_name`: the last component, if it is a name: not for the empty
/// path, the root, `.` or a path ending in `..`.
pub open spec fn file_name(p: Seq<char>) -> Option<Seq<char>> {
    let t = trim_back(p);
    if t.len() == 0 {
        None
    } else {
        let n = last_name(t);
        if n == seq!['.'] || n == seq!['.', '.'] {
            None
        } else {
            Some(n)
        }
    }
}

/// Index of the last `.` in `s`, or `-1`.
pub open spec fn last_dot(s: Seq<char>) -> int
    decreases s.len(),
{
    if s.len() == 0 {
        -1
    } else if s.last() == '.' {
        s.len() - 1
    } else {
        last_dot(s.drop_last())
    }
}

/// `Path::file_stem`: the file name up to its last `.`, unless that `.` is the
/// first character (then the whole name).
pub open spec fn file_stem(p: Seq<char>) -> Option<Seq<char>> {
    match file_name(p) {
        Some(name) => {
            let d = last_dot(name);
            if d > 0 {
                Some(name.take(d))
            } else {
                Some(name)
            }
        },
        None => None,
    }
}

/// `Path::extension`: the file name after its last `.`, when that `.` is not the
/// first character.
pub open spec fn extension(p: Seq<char>) -> Option<Seq<char>> {
    match file_name(p) {
        Some(name) => {
            let d = last_dot(name);
            if d > 0 {
                Some(name.skip(d + 1))
            } else {
                None
            }
        },
        None => None,
    }
}

/// `path` ends with the components of the relative path `suffix`.
pub open spec fn ends_with_relative(path: Seq<char>, suffix: Seq<char>) -> bool
    decreases suffix.len(),
{
    let s1 = trim_back(suffix);
    if s1.len() == 0 {
        true
    } else {
        let p1 = trim_back(path);
        proof {
            lemma_trim_back_shape(suffix);
            lemma_drop_name_shape(s1);
            if drop_name(s1).len() == s1.len() {
                assert(drop_name(s1) =~= s1);
            }
        }
        &&& last_name(p1) == last_name(s1)
        &&& ends_with_relative(drop_name(p1), drop_name(s1))
    }
}

/// The leading name of `s` (which has no leading separator).
pub open spec fn first_name(s: Seq<char>) -> Seq<char> {
    s.take(index_of(s, '/'))
}

/// What follows the leading name of `s`.
pub open spec fn after_first_name(s: Seq<char>) -> Seq<char> {
    s.skip(index_of(s, '/'))
}

/// Strips the components of `base` from the front of `p`, both read past
/// leading separators and `.` components.
pub open spec fn strip_relative(p: Seq<char>, base: Seq<char>) -> Option<Seq<char>>
    decreases base.len(),
{
    let b1 = trim_front(base);
    let p1 = trim_front(p);
    if b1.len() == 0 {
        Some(trim_back(p1))
    } else if first_name(p1) == first_name(b1) {
        proof {
            lemma_after_first_name_shorter(base);
        }
        strip_relative(after_first_name(p1), after_first_name(b1))
    } else {
        None
    }
}

/// `Path::strip_prefix`: `p` relative to `base`, when `base`'s components start
/// `p`'s (both absolute or both relative). The first component of a relative
/// path is compared as it stands, so a leading `.` matches only a leading `.`.
pub open spec fn strip_prefix(p: Seq<char>, base: Seq<char>) -> Option<Seq<char>> {
    if base.len() == 0 {
        let t = trim_back(p);
        Some(
            if t.len() == 0 && is_absolute(p) {
                seq!['/']
            } else {
                t
            },
        )
    } else if is_absolute(base) != is_absolute(p) {
        None
    } else if is_absolute(base) {
        strip_relative(p, base)
    } else if first_name(p) == first_name(base) {
        strip_relative(after_first_name(p), after_first_name(base))
    } else {
        None
    }
}

// ---------------------------------------------------------------------------
/// Removing trailing `c` leaves a prefix that does not end with `c`.
pub proof fn lemma_trim_end_char_shape(s: Seq<char>, c: char)
    ensures
        trim_end_char(s, c).len() <= s.len(),
        trim_end_char(s, c) == s.take(trim_end_char(s, c).len() as int),
        trim_end_char(s, c).len() == 0 || trim_end_char(s, c).last() != c,
    decreases s.len(),
{
    if s.len() > 0 && s.last() == c {
        lemma_trim_end_char_shape(s.drop_last(), c);
        assert(s.drop_last().take(trim_end_char(s, c).len() as int) =~= s.take(
            trim_end_char(s, c).len() as int,
        ));
    } else {
        assert(s.take(s.len() as int) =~= s);
    }
}

/// Removing leading `c` leaves a suffix that does not start with `c`.
pub proof fn lemma_trim_start_char_shape(s: Seq<char>, c: char)
    ensures
        trim_start_char(s, c).len() <= s.len(),
        trim_start_char(s, c) == s.skip(s.len() - trim_start_char(s, c).len()),
        trim_start_char(s, c).len() == 0 || trim_start_char(s, c)[0] != c,
    decreases s.len(),
{
    if s.len() > 0 && s[0] == c {
        lemma_trim_start_char_shape(s.drop_first(), c);
        assert(s.drop_first().skip(s.drop_first().len() - trim_start_char(s, c).len())
            =~= s.skip(s.len() - trim_start_char(s, c).len()));
    } else {
        assert(s.skip(0) =~= s);
    }
}

/// Reading from the back leaves a prefix with no trailing separator and no
/// trailing `.` component.
pub proof fn lemma_trim_back_shape(s: Seq<char>)
    ensures
        trim_back(s).len() <= s.len(),
        trim_back(s) == s.take(trim_back(s).len() as int),
        trim_back(s).len() == 0 || trim_back(s).last() != '/',
        !(trim_back(s).len() >= 2 && trim_back(s).last() == '.' && trim_back(s)[trim_back(s).len()
            - 2] == '/'),
    decreases s.len(),
{
    lemma_trim_end_char_shape(s, '/');
    let t = trim_end_char(s, '/');
    if t.len() >= 2 && t.last() == '.' && t[t.len() - 2] == '/' {
        lemma_trim_back_shape(t.drop_last());
        let r = trim_back(s);
        assert(t.drop_last().take(r.len() as int) =~= s.take(r.len() as int));
    }
}

/// A path that ends in neither a separator nor a `.` component reads from the
/// back as it is.
pub proof fn lemma_trim_back_plain(s: Seq<char>)
    requires
        s.len() > 0,
        s.last() != '/',
        !(s.len() >= 2 && s.last() == '.' && s[s.len() - 2] == '/'),
    ensures
        trim_back(s) == s,
{
}

/// Reading from the front leaves a suffix that starts with neither a separator
/// nor a `.` component.
pub proof fn lemma_trim_front_shape(s: Seq<char>)
    ensures
        trim_front(s).len() <= s.len(),
        trim_front(s) == s.skip(s.len() - trim_front(s).len()),
        trim_front(s).len() == 0 || trim_front(s)[0] != '/',
        !(trim_front(s).len() >= 1 && trim_front(s)[0] == '.' && (trim_front(s).len() == 1
            || trim_front(s)[1] == '/')),
    decreases s.len(),
{
    lemma_trim_start_char_shape(s, '/');
    let t = trim_start_char(s, '/');
    if t.len() >= 1 && t[0] == '.' && (t.len() == 1 || t[1] == '/') {
        lemma_trim_front_shape(t.drop_first());
        let r = trim_front(s);
        assert(t.drop_first().skip(t.drop_first().len() - r.len()) =~= s.skip(s.len() - r.len()));
    }
}

/// Dropping the last name leaves a prefix that is empty or ends with a
/// separator, and the part dropped holds no separator.
pub proof fn lemma_drop_name_shape(t: Seq<char>)
    ensures
        drop_name(t).len() <= t.len(),
        drop_name(t) == t.take(drop_name(t).len() as int),
        drop_name(t).len() == 0 || drop_name(t).last() == '/',
        forall|k: int| drop_name(t).len() <= k < t.len() ==> #[trigger] t[k] != '/',
    decreases t.len(),
{
    if t.len() > 0 && t.last() != '/' {
        lemma_drop_name_shape(t.drop_last());
        assert(t.drop_last().take(drop_name(t).len() as int) =~= t.take(
            drop_name(t).len() as int,
        ));
        assert forall|k: int| drop_name(t).len() <= k < t.len() implies #[trigger] t[k] != '/' by {
            if k < t.len() - 1 {
                assert(t[k] == t.drop_last()[k]);
            }
        }
    } else {
        assert(t.take(t.len() as int) =~= t);
    }
}

proof fn lemma_drop_name_at(t: Seq<char>, j: int)
    requires
        0 <= j <= t.len(),
        forall|k: int| j <= k < t.len() ==> #[trigger] t[k] != '/',
        j == 0 || t[j - 1] == '/',
    ensures
        drop_name(t) == t.take(j),
    decreases t.len() - j,
{
    if j < t.len() {
        assert forall|k: int| j <= k < t.len() - 1 implies #[trigger] t.drop_last()[k] != '/' by {
            assert(t.drop_last()[k] == t[k]);
        }
        lemma_drop_name_at(t.drop_last(), j);
        assert(t.drop_last().take(j) =~= t.take(j));
    } else {
        assert(t.take(j) =~= t);
    }
}

/// The last `.` is an index of the text, or `-1`.
pub proof fn lemma_last_dot_bounds(s: Seq<char>)
    ensures
        -1 <= last_dot(s) < s.len(),
    decreases s.len(),
{
    if s.len() > 0 && s.last() != '.' {
        lemma_last_dot_bounds(s.drop_last());
    }
}

proof fn lemma_last_dot_at(s: Seq<char>, j: int)
    requires
        -1 <= j < s.len(),
        forall|k: int| j < k < s.len() ==> #[trigger] s[k] != '.',
        j == -1 || s[j] == '.',
    ensures
        last_dot(s) == j,
    decreases s.len(),
{
    if s.len() > 0 && j < s.len() - 1 {
        assert forall|k: int| j < k < s.len() - 1 implies #[trigger] s.drop_last()[k] != '.' by {
            assert(s.drop_last()[k] == s[k]);
        }
        lemma_last_dot_at(s.drop_last(), j);
    }
}

/// An extension is no longer than the path it is read from.
pub proof fn lemma_extension_len(p: Seq<char>)
    ensures
        extension(p) matches Some(e) ==> e.len() <= p.len(),
{
    lemma_trim_back_shape(p);
    let t = trim_back(p);
    lemma_drop_name_shape(t);
    lemma_last_dot_bounds(last_name(t));
}

/// What follows the leading name of a path is shorter than the path.
pub proof fn lemma_after_first_name_shorter(base: Seq<char>)
    ensures
        trim_front(base).len() > 0 ==> after_first_name(trim_front(base)).len() < base.len(),
{
    let b1 = trim_front(base);
    lemma_trim_front_shape(base);
    if b1.len() > 0 {
        lemma_index_of_bounds(b1, '/');
        assert(index_of(b1, '/') >= 1);
    }
}

// ---------------------------------------------------------------------------
/// `Path::join` on strings.
pub fn join_chars(base: &[char], part: &[char]) -> (r: Vec<char>)
    ensures
        r@ == join(base@, part@),
{
    if part.len() > 0 && part[0] == '/' {
        slice_chars(part, 0, part.len())
    } else if base.len() == 0 || base[base.len() - 1] == '/' {
        concat_chars(base, part)
    } else {
        let mut out = slice_chars(base, 0, base.len());
        out.push('/');
        push_all(&mut out, part);
        out
    }
}

/// `Path::join` on strings, as a `String`.
pub fn join_str(base: &str, part: &str) -> (r: String)
    ensures
        r@ == join(base@, part@),
{
    let b = chars_of(base);
    let p = chars_of(part);
    let j = join_chars(b.as_slice(), p.as_slice());
    string_from(j.as_slice())
}

/// `s` read from the back past separators and `.` components.
pub fn trim_back_chars(s: &[char]) -> (r: Vec<char>)
    ensures
        r@ == trim_back(s@),
{
    let mut t: Vec<char> = slice_chars(s, 0, s.len());
    assert(t@ =~= s@);
    loop
        invariant
            trim_back(s@) == trim_back(t@),
        decreases t@.len(),
    {
        let u = trim_end_char_chars(t.as_slice(), '/');
        proof {
            lemma_trim_end_char_shape(t@, '/');
        }
        if u.len() >= 2 && u[u.len() - 1] == '.' && u[u.len() - 2] == '/' {
            let v = slice_chars(u.as_slice(), 0, u.len() - 1);
            assert(v@ =~= u@.drop_last());
            t = v;
        } else {
            return u;
        }
    }
}

/// `s` read from the front past separators and `.` components.
pub fn trim_front_chars(s: &[char]) -> (r: Vec<char>)
    ensures
        r@ == trim_front(s@),
{
    let mut t: Vec<char> = slice_chars(s, 0, s.len());
    assert(t@ =~= s@);
    loop
        invariant
            trim_front(s@) == trim_front(t@),
        decreases t@.len(),
    {
        let u = trim_start_char_chars(t.as_slice(), '/');
        proof {
            lemma_trim_start_char_shape(t@, '/');
        }
        if u.len() >= 1 && u[0] == '.' && (u.len() == 1 || u[1] == '/') {
            let v = slice_chars(u.as_slice(), 1, u.len());
            assert(v@ =~= u@.drop_first());
            t = v;
        } else {
            return u;
        }
    }
}

/// Whether `n` is `.` or `..`, the names that are no file name.
fn is_dot_name(n: &[char]) -> (r: bool)
    ensures
        r == (n@ == seq!['.'] || n@ == seq!['.', '.']),
{
    if n.len() == 1 {
        let r = n[0] == '.';
        assert(r ==> n@ =~= seq!['.']);
        r
    } else if n.len() == 2 {
        let r = n[0] == '.' && n[1] == '.';
        assert(r ==> n@ =~= seq!['.', '.']);
        r
    } else {
        false
    }
}

/// The length of `t` without its last name.
pub fn drop_name_len(t: &[char]) -> (r: usize)
    ensures
        r == drop_name(t@).len(),
{
    let mut j: usize = t.len();
    while j > 0 && t[j - 1] != '/'
        invariant
            j <= t@.len(),
            forall|k: int| j <= k < t@.len() ==> #[trigger] t@[k] != '/',
        decreases j,
    {
        j = j - 1;
    }
    proof {
        lemma_drop_name_at(t@, j as int);
    }
    j
}

/// `Path::parent` on strings.
pub fn parent_chars(p: &[char]) -> (r: Option<Vec<char>>)
    ensures
        match parent(p@) {
            Some(q) => r matches Some(v) && v@ == q,
            None => r is None,
        },
{
    let t = trim_back_chars(p);
    if t.len() == 0 {
        return None;
    }
    let n = drop_name_len(t.as_slice());
    proof {
        lemma_drop_name_shape(t@);
    }
    if n == 0 {
        return Some(Vec::new());
    }
    let body = slice_chars(t.as_slice(), 0, n);
    let h = trim_back_chars(body.as_slice());
    if h.len() == 0 {
        let mut v: Vec<char> = Vec::new();
        v.push('/');
        assert(v@ =~= seq!['/']);
        Some(v)
    } else {
        Some(h)
    }
}

/// `Path::file_name` on strings.
pub fn file_name_chars(p: &[char]) -> (r: Option<Vec<char>>)
    ensures
        match file_name(p@) {
            Some(q) => r matches Some(v) && v@ == q,
            None => r is None,
        },
{
    let t = trim_back_chars(p);
    if t.len() == 0 {
        return None;
    }
    let n = drop_name_len(t.as_slice());
    proof {
        lemma_drop_name_shape(t@);
        assert(t@.skip(n as int) =~= t@.subrange(n as int, t@.len() as int));
    }
    let name = slice_chars(t.as_slice(), n, t.len());
    if is_dot_name(name.as_slice()) {
        None
    } else {
        Some(name)
    }
}

/// One past the index of the last `.` in `s`, or `0` when there is none.
pub fn last_dot_end(s: &[char]) -> (r: usize)
    ensures
        r == last_dot(s@) + 1,
{
    let mut j: usize = s.len();
    while j > 0 && s[j - 1] != '.'
        invariant
            j <= s@.len(),
            forall|k: int| j <= k < s@.len() ==> #[trigger] s@[k] != '.',
        decreases j,
    {
        j = j - 1;
    }
    proof {
        lemma_last_dot_at(s@, j - 1);
    }
    j
}

/// `Path::file_stem` on strings.
pub fn file_stem_chars(p: &[char]) -> (r: Option<Vec<char>>)
    ensures
        match file_stem(p@) {
            Some(q) => r matches Some(v) && v@ == q,
            None => r is None,
        },
{
    match file_name_chars(p) {
        Some(name) => {
            proof {
                lemma_trim_back_shape(p@);
                lemma_drop_name_shape(trim_back(p@));
            }
            let e = last_dot_end(name.as_slice());
            proof {
                lemma_last_dot_bounds(name@);
            }
            if e > 1 {
                Some(slice_chars(name.as_slice(), 0, e - 1))
            } else {
                Some(name)
            }
        },
        None => None,
    }
}

/// `Path::extension` on strings.
pub fn extension_chars(p: &[char]) -> (r: Option<Vec<char>>)
    ensures
        match extension(p@) {
            Some(q) => r matches Some(v) && v@ == q,
            None => r is None,
        },
{
    match file_name_chars(p) {
        Some(name) => {
            proof {
                lemma_trim_back_shape(p@);
                lemma_drop_name_shape(trim_back(p@));
            }
            let e = last_dot_end(name.as_slice());
            proof {
                lemma_last_dot_bounds(name@);
            }
            if e > 1 {
                proof {
                    assert(name@.skip(e as int) =~= name@.subrange(e as int, name@.len() as int));
                }
                Some(slice_chars(name.as_slice(), e, name.len()))
            } else {
                None
            }
        },
        None => None,
    }
}

/// Whether `path` ends with the components of the relative path `suffix`.
pub fn ends_with_relative_chars(path: &[char], suffix: &[char]) -> (r: bool)
    ensures
        r == ends_with_relative(path@, suffix@),
    decreases suffix@.len(),
{
    let s1 = trim_back_chars(suffix);
    if s1.len() == 0 {
        return true;
    }
    let p1 = trim_back_chars(path);
    proof {
        lemma_trim_back_shape(suffix@);
        lemma_trim_back_shape(path@);
        lemma_drop_name_shape(s1@);
        lemma_drop_name_shape(p1@);
    }
    let ns = drop_name_len(s1.as_slice());
    let np = drop_name_len(p1.as_slice());
    let name_s = slice_chars(s1.as_slice(), ns, s1.len());
    let name_p = slice_chars(p1.as_slice(), np, p1.len());
    proof {
        assert(s1@.skip(ns as int) =~= name_s@);
        assert(p1@.skip(np as int) =~= name_p@);
    }
    if !chars_eq(name_p.as_slice(), name_s.as_slice()) {
        return false;
    }
    let rest_s = slice_chars(s1.as_slice(), 0, ns);
    let rest_p = slice_chars(p1.as_slice(), 0, np);
    proof {
        assert(s1@.take(ns as int) =~= rest_s@);
        assert(p1@.take(np as int) =~= rest_p@);
        if ns == s1@.len() {
            assert(s1@.last() != '/');
            assert(false);
        }
    }
    ends_with_relative_chars(rest_p.as_slice(), rest_s.as_slice())
}

/// Strips the components of the relative `base` from the front of `p`.
pub fn strip_relative_chars(p: &[char], base: &[char]) -> (r: Option<Vec<char>>)
    ensures
        match strip_relative(p@, base@) {
            Some(q) => r matches Some(v) && v@ == q,
            None => r is None,
        },
    decreases base@.len(),
{
    let b1 = trim_front_chars(base);
    let p1 = trim_front_chars(p);
    if b1.len() == 0 {
        return Some(trim_back_chars(p1.as_slice()));
    }
    let ib = index_of_chars(b1.as_slice(), '/');
    let ip = index_of_chars(p1.as_slice(), '/');
    proof {
        lemma_index_of_bounds(b1@, '/');
        lemma_index_of_bounds(p1@, '/');
        lemma_after_first_name_shorter(base@);
    }
    let name_b = slice_chars(b1.as_slice(), 0, ib);
    let name_p = slice_chars(p1.as_slice(), 0, ip);
    proof {
        assert(b1@.take(ib as int) =~= name_b@);
        assert(p1@.take(ip as int) =~= name_p@);
    }
    if !chars_eq(name_p.as_slice(), name_b.as_slice()) {
        return None;
    }
    let rest_b = slice_chars(b1.as_slice(), ib, b1.len());
    let rest_p = slice_chars(p1.as_slice(), ip, p1.len());
    proof {
        assert(b1@.skip(ib as int) =~= rest_b@);
        assert(p1@.skip(ip as int) =~= rest_p@);
    }
    strip_relative_chars(rest_p.as_slice(), rest_b.as_slice())
}

/// `Path::strip_prefix` on strings.
pub fn strip_prefix_chars(p: &[char], base: &[char]) -> (r: Option<Vec<char>>)
    ensures
        match strip_prefix(p@, base@) {
            Some(q) => r matches Some(v) && v@ == q,
            None => r is None,
        },
{
    if base.len() == 0 {
        let t = trim_back_chars(p);
        if t.len() == 0 && p.len() > 0 && p[0] == '/' {
            let mut root: Vec<char> = Vec::new();
            root.push('/');
            assert(root@ =~= seq!['/']);
            return Some(root);
        }
        return Some(t);
    }
    let abs_b = base[0] == '/';
    let abs_p = p.len() > 0 && p[0] == '/';
    if abs_b != abs_p {
        return None;
    }
    if abs_b {
        return strip_relative_chars(p, base);
    }
    let ib = index_of_chars(base, '/');
    let ip = index_of_chars(p, '/');
    proof {
        lemma_index_of_bounds(base@, '/');
        lemma_index_of_bounds(p@, '/');
    }
    let name_b = slice_chars(base, 0, ib);
    let name_p = slice_chars(p, 0, ip);
    proof {
        assert(base@.take(ib as int) =~= name_b@);
        assert(p@.take(ip as int) =~= name_p@);
    }
    if !chars_eq(name_p.as_slice(), name_b.as_slice()) {
        return None;
    }
    let rest_b = slice_chars(base, ib, base.len());
    let rest_p = slice_chars(p, ip, p.len());
    proof {
        assert(base@.skip(ib as int) =~= rest_b@);
        assert(p@.skip(ip as int) =~= rest_p@);
    }
    strip_relative_chars(rest_p.as_slice(), rest_b.as_slice())
}

} // verus!
