//! Text-level model of paths and patterns.
//!
//! Paths are plain UTF-8 strings whose segments are separated by `/`.  The
//! traversal engine and the sync executor state their contracts over the
//! character sequences of those strings, using the spec functions below.

use vstd::prelude::*;
use vstd::string::StrSliceExecFns;

verus! {

// ---------------------------------------------------------------------
// Spec-level predicates over character sequences
// ---------------------------------------------------------------------

/// `p` is a prefix of `s`.
pub open spec fn is_prefix_of(p: Seq<char>, s: Seq<char>) -> bool {
    p.len() <= s.len() && s.subrange(0, p.len() as int) == p
}

/// `pat` occurs in `s` starting at position `i`.
pub open spec fn occurs_at(s: Seq<char>, pat: Seq<char>, i: int) -> bool {
    0 <= i && i + pat.len() <= s.len() && s.subrange(i, i + pat.len()) == pat
}

/// `pat` occurs somewhere in `s` (plain substring containment).
pub open spec fn contains_pat(s: Seq<char>, pat: Seq<char>) -> bool {
    exists|i: int| occurs_at(s, pat, i)
}

/// `p` lies under the root `root`: it is the root itself, or the root
/// followed by `/` and more text.
pub open spec fn under_root(root: Seq<char>, p: Seq<char>) -> bool {
    &&& is_prefix_of(root, p)
    &&& p.len() > root.len() ==> p[root.len() as int] == '/'
}

/// Number of `/` characters in `s`.
pub open spec fn slash_count(s: Seq<char>) -> nat
    decreases s.len(),
{
    if s.len() == 0 {
        0
    } else {
        (if s[0] == '/' { 1nat } else { 0nat }) + slash_count(s.drop_first())
    }
}

/// Depth of an entry relative to the traversal root: the number of path
/// separators that follow the root prefix.  The root itself has depth 0,
/// `root/a` has depth 1, `root/a/b` has depth 2, and so on.
pub open spec fn rel_depth(root: Seq<char>, p: Seq<char>) -> nat {
    slash_count(p.skip(root.len() as int))
}

/// A directory-entry name as the operating system reports it: non-empty
/// and free of path separators.
pub open spec fn valid_name(n: Seq<char>) -> bool {
    n.len() > 0 && forall|i: int| 0 <= i < n.len() ==> n[i] != '/'
}

// ---------------------------------------------------------------------
// Lemmas about the predicates
// ---------------------------------------------------------------------

/// Counting slashes distributes over concatenation.
pub proof fn lemma_slash_count_concat(a: Seq<char>, b: Seq<char>)
    ensures
        slash_count(a + b) == slash_count(a) + slash_count(b),
    decreases a.len(),
{
    if a.len() == 0 {
        assert(a + b =~= b);
    } else {
        assert((a + b).drop_first() =~= a.drop_first() + b);
        lemma_slash_count_concat(a.drop_first(), b);
    }
}

/// A sequence without separators adds nothing to the slash count.
pub proof fn lemma_no_slash(n: Seq<char>)
    requires
        forall|i: int| 0 <= i < n.len() ==> n[i] != '/',
    ensures
        slash_count(n) == 0,
    decreases n.len(),
{
    if n.len() > 0 {
        lemma_no_slash(n.drop_first());
    }
}

/// A pattern that occurs in `s` still occurs in any extension of `s`.
pub proof fn lemma_contains_extends(s: Seq<char>, ext: Seq<char>, pat: Seq<char>)
    requires
        is_prefix_of(s, ext),
        contains_pat(s, pat),
    ensures
        contains_pat(ext, pat),
{
    let i = choose|i: int| occurs_at(s, pat, i);
    assert(ext.subrange(i, i + pat.len() as int) =~= s.subrange(i, i + pat.len() as int)) by {
        assert forall|k: int| 0 <= k < pat.len() implies #[trigger] ext.subrange(
            i,
            i + pat.len() as int,
        )[k] == s.subrange(i, i + pat.len() as int)[k] by {
            assert(ext[i + k] == ext.subrange(0, s.len() as int)[i + k]);
        }
    }
    assert(occurs_at(ext, pat, i));
}

// ---------------------------------------------------------------------
// Executable primitives
// ---------------------------------------------------------------------

/// Character-for-character equality of two string slices.
pub fn eq_str(a: &str, b: &str) -> (r: bool)
    ensures
        r == (a@ == b@),
{
    let alen = a.unicode_len();
    let blen = b.unicode_len();
    if alen != blen {
        return false;
    }
    let mut i: usize = 0;
    while i < alen
        invariant
            i <= alen,
            alen == a@.len(),
            alen == b@.len(),
            forall|j: int| 0 <= j < i ==> a@[j] == b@[j],
        decreases alen - i,
    {
        if a.get_char(i) != b.get_char(i) {
            return false;
        }
        i += 1;
    }
    proof {
        assert(a@ =~= b@);
    }
    true
}

/// Whether `pat` occurs in `s` starting at position `i`.
pub fn pattern_at(s: &str, pat: &str, i: usize) -> (r: bool)
    requires
        i + pat@.len() <= s@.len(),
    ensures
        r == occurs_at(s@, pat@, i as int),
{
    let plen = pat.unicode_len();
    let slen = s.unicode_len();
    let mut k: usize = 0;
    while k < plen
        invariant
            k <= plen,
            plen == pat@.len(),
            slen == s@.len(),
            i + plen <= slen,
            forall|j: int| 0 <= j < k ==> s@[i + j] == pat@[j],
        decreases plen - k,
    {
        if s.get_char(i + k) != pat.get_char(k) {
            proof {
                assert(s@.subrange(i as int, i + plen) != pat@) by {
                    assert(s@.subrange(i as int, i + plen)[k as int] == s@[i + k]);
                }
            }
            return false;
        }
        k += 1;
    }
    proof {
        assert(s@.subrange(i as int, i + plen) =~= pat@);
    }
    true
}

/// Substring containment: whether `pat` occurs anywhere in `s`.
pub fn contains_str(s: &str, pat: &str) -> (r: bool)
    ensures
        r == contains_pat(s@, pat@),
{
    let slen = s.unicode_len();
    let plen = pat.unicode_len();
    if plen > slen {
        return false;
    }
    if plen == 0 {
        proof {
            assert(occurs_at(s@, pat@, 0)) by {
                assert(s@.subrange(0, 0) =~= pat@);
            }
        }
        return true;
    }
    let mut i: usize = 0;
    while i <= slen - plen
        invariant
            1 <= plen <= slen,
            slen == s@.len(),
            plen == pat@.len(),
            i <= slen - plen + 1,
            forall|j: int| 0 <= j < i ==> !occurs_at(s@, pat@, j),
        decreases slen - plen - i + 1,
    {
        if pattern_at(s, pat, i) {
            return true;
        }
        i += 1;
    }
    false
}

// ---------------------------------------------------------------------
// Trusted wrappers for string building
// ---------------------------------------------------------------------

/// Relies on String::push: appends the given character to the end of the
/// string.
#[verifier::external_body]
fn push_char(s: &mut String, c: char)
    ensures
        final(s)@ == old(s)@.push(c),
{
    s.push(c)
}

/// Relies on String::push_str: appends the given string slice to the end
/// of the string.
#[verifier::external_body]
fn push_str_onto(s: &mut String, t: &str)
    ensures
        final(s)@ == old(s)@ + t@,
{
    s.push_str(t)
}

/// The path of a child entry: `dir`, a separator, then `name`.
pub fn join_path(dir: &str, name: &str) -> (r: String)
    ensures
        r@ == dir@ + seq!['/'] + name@,
{
    let mut r = dir.to_owned();
    push_char(&mut r, '/');
    push_str_onto(&mut r, name);
    proof {
        assert(dir@.push('/') + name@ =~= dir@ + seq!['/'] + name@);
    }
    r
}

/// Relative remainder of `p` under `root`: `Some("")` when `p` is `root`
/// itself, the text after `root/` when `p` extends it, `None` when `p`
/// does not lie under `root`.
pub fn strip_root<'a>(p: &'a str, root: &str) -> (r: Option<&'a str>)
    ensures
        match r {
            Some(rest) => under_root(root@, p@) && (p@.len() == root@.len() ==> rest@
                =~= Seq::<char>::empty()) && (p@.len() > root@.len() ==> p@ =~= root@
                + seq!['/'] + rest@),
            None => !under_root(root@, p@),
        },
{
    let plen = p.unicode_len();
    let rlen = root.unicode_len();
    if plen < rlen {
        return None;
    }
    let pre = p.substring_char(0, rlen);
    if !eq_str(pre, root) {
        return None;
    }
    if plen == rlen {
        let rest = p.substring_char(plen, plen);
        return Some(rest);
    }
    if p.get_char(rlen) != '/' {
        return None;
    }
    let rest = p.substring_char(rlen + 1, plen);
    proof {
        assert(p@ =~= root@ + seq!['/'] + rest@);
    }
    Some(rest)
}

// ---------------------------------------------------------------------
// Last occurrence of a character, parents and extensions
// ---------------------------------------------------------------------

/// Index of the last occurrence of `c` in `s`, or -1 when absent.
pub open spec fn last_index_of(s: Seq<char>, c: char) -> int
    decreases s.len(),
{
    if s.len() == 0 {
        -1
    } else if s.last() == c {
        s.len() - 1
    } else {
        last_index_of(s.drop_last(), c)
    }
}

proof fn lemma_last_index_at(s: Seq<char>, c: char, k: int)
    requires
        0 <= k < s.len(),
        s[k] == c,
        forall|j: int| k < j < s.len() ==> s[j] != c,
    ensures
        last_index_of(s, c) == k,
    decreases s.len(),
{
    if k < s.len() - 1 {
        assert(s.drop_last()[k] == c);
        lemma_last_index_at(s.drop_last(), c, k);
    }
}

proof fn lemma_last_index_none(s: Seq<char>, c: char)
    requires
        forall|j: int| 0 <= j < s.len() ==> s[j] != c,
    ensures
        last_index_of(s, c) == -1,
    decreases s.len(),
{
    if s.len() > 0 {
        lemma_last_index_none(s.drop_last(), c);
    }
}

/// The position right after the last separator: where the file name of a
/// path begins.
pub open spec fn file_name_start(p: Seq<char>) -> int {
    last_index_of(p, '/') + 1
}

/// The extension of a path, following the usual file-name rules: the text
/// after the last dot of the final segment, provided that dot is neither
/// absent nor the segment's first character.
pub open spec fn ext_of(p: Seq<char>) -> Option<Seq<char>> {
    let name = p.skip(file_name_start(p));
    let d = last_index_of(name, '.');
    if d <= 0 {
        None
    } else {
        Some(name.skip(d + 1))
    }
}

/// Scan for the last occurrence of `c` at or after position `from`.
/// Returns its index, or `None` when `c` does not occur there.
fn rfind_from(p: &str, c: char, from: usize) -> (r: Option<usize>)
    requires
        from <= p@.len(),
    ensures
        match r {
            Some(k) => from <= k < p@.len() && p@[k as int] == c && forall|j: int|
                k < j < p@.len() ==> p@[j] != c,
            None => forall|j: int| from <= j < p@.len() ==> p@[j] != c,
        },
{
    let len = p.unicode_len();
    let mut i: usize = len;
    while i > from
        invariant
            from <= i <= len,
            len == p@.len(),
            forall|j: int| i <= j < len ==> p@[j] != c,
        decreases i,
    {
        if p.get_char(i - 1) == c {
            return Some(i - 1);
        }
        i -= 1;
    }
    None
}

/// The path with its final `/name` segment removed.  `None` when the path
/// holds no separator or when nothing precedes the last one.
pub fn parent_dir<'a>(p: &'a str) -> (r: Option<&'a str>)
    ensures
        match r {
            Some(par) => last_index_of(p@, '/') > 0 && par@ == p@.subrange(
                0,
                last_index_of(p@, '/'),
            ),
            None => last_index_of(p@, '/') <= 0,
        },
{
    match rfind_from(p, '/', 0) {
        Some(k) => {
            proof {
                lemma_last_index_at(p@, '/', k as int);
            }
            if k == 0 {
                None
            } else {
                Some(p.substring_char(0, k))
            }
        },
        None => {
            proof {
                lemma_last_index_none(p@, '/');
            }
            None
        },
    }
}

/// The extension of the path's file name, or `None` when it has none.
pub fn extension_of<'a>(p: &'a str) -> (r: Option<&'a str>)
    ensures
        match r {
            Some(e) => ext_of(p@) == Some(e@),
            None => ext_of(p@) is None,
        },
{
    let len = p.unicode_len();
    let start: usize = match rfind_from(p, '/', 0) {
        Some(k) => {
            proof {
                lemma_last_index_at(p@, '/', k as int);
            }
            k + 1
        },
        None => {
            proof {
                lemma_last_index_none(p@, '/');
            }
            0
        },
    };
    let ghost name = p@.skip(start as int);
    match rfind_from(p, '.', start) {
        Some(d) => {
            proof {
                assert(name[d - start] == '.');
                assert(forall|j: int| d - start < j < name.len() ==> name[j] != '.');
                lemma_last_index_at(name, '.', d - start);
            }
            if d == start {
                None
            } else {
                let e = p.substring_char(d + 1, len);
                proof {
                    assert(e@ =~= name.skip(d - start + 1));
                }
                Some(e)
            }
        },
        None => {
            proof {
                assert(forall|j: int| 0 <= j < name.len() ==> name[j] != '.');
                lemma_last_index_none(name, '.');
            }
            None
        },
    }
}

// ---------------------------------------------------------------------
// Splitting on separator characters
// ---------------------------------------------------------------------

/// Index of the first character satisfying `f`, or -1 when none does.
pub open spec fn first_index_where(s: Seq<char>, f: spec_fn(char) -> bool) -> int
    decreases s.len(),
{
    if s.len() == 0 {
        -1
    } else if f(s[0]) {
        0
    } else {
        let r = first_index_where(s.drop_first(), f);
        if r == -1 {
            -1
        } else {
            r + 1
        }
    }
}

proof fn lemma_first_index_at(s: Seq<char>, f: spec_fn(char) -> bool, k: int)
    requires
        0 <= k < s.len(),
        f(s[k]),
        forall|j: int| 0 <= j < k ==> !f(s[j]),
    ensures
        first_index_where(s, f) == k,
    decreases s.len(),
{
    if k > 0 {
        assert(forall|j: int| 0 <= j < k - 1 ==> s.drop_first()[j] == s[j + 1]);
        lemma_first_index_at(s.drop_first(), f, k - 1);
    }
}

proof fn lemma_first_index_none(s: Seq<char>, f: spec_fn(char) -> bool)
    requires
        forall|j: int| 0 <= j < s.len() ==> !f(s[j]),
    ensures
        first_index_where(s, f) == -1,
    decreases s.len(),
{
    if s.len() > 0 {
        lemma_first_index_none(s.drop_first(), f);
    }
}

/// Split `s` at every character satisfying `f`.  Every piece is kept,
/// empty pieces included, so the result always holds one piece more than
/// `s` holds separators.
pub open spec fn split_where(s: Seq<char>, f: spec_fn(char) -> bool) -> Seq<Seq<char>>
    decreases s.len(),
{
    let i = first_index_where(s, f);
    if 0 <= i < s.len() {
        seq![s.subrange(0, i)] + split_where(s.skip(i + 1), f)
    } else {
        seq![s]
    }
}

/// The separators accepted between entries of an extension list.
pub open spec fn is_ext_sep(c: char) -> bool {
    c == ',' || c == ';' || c == '|' || c == ' '
}

/// How a configured extension string is read: split on every separator.
pub open spec fn split_ext_list(s: Seq<char>) -> Seq<Seq<char>> {
    split_where(s, |c: char| is_ext_sep(c))
}

/// Whether a character ends a line (is the line-feed character).
pub open spec fn is_newline(c: char) -> bool {
    c as u32 == 10
}

/// How a newline-delimited pattern file is read: split on newlines, with
/// a final empty piece (from a trailing newline) dropped.
pub open spec fn split_lines_spec(s: Seq<char>) -> Seq<Seq<char>> {
    if s.len() == 0 {
        Seq::empty()
    } else {
        let pieces = split_where(s, |c: char| is_newline(c));
        if is_newline(s.last()) {
            pieces.drop_last()
        } else {
            pieces
        }
    }
}

/// Split `s` at every character satisfying the spec predicate `f`, which
/// the exec predicate `sep` must implement exactly.
fn split_chars<F: Fn(char) -> bool>(s: &str, sep: F, Ghost(f): Ghost<spec_fn(char) -> bool>) -> (r:
    Vec<String>)
    requires
        forall|c: char| #![all_triggers] sep.requires((c,)),
        forall|c: char, b: bool| sep.ensures((c,), b) ==> b == f(c),
    ensures
        r.deep_view() == split_where(s@, f),
{
    let len = s.unicode_len();
    let mut out: Vec<String> = Vec::new();
    let mut start: usize = 0;
    let mut i: usize = 0;
    proof {
        assert(s@.skip(0) =~= s@);
        assert(out.deep_view() =~= Seq::<Seq<char>>::empty());
        assert(Seq::<Seq<char>>::empty() + split_where(s@, f) =~= split_where(s@, f));
    }
    while i < len
        invariant
            forall|c: char| #![all_triggers] sep.requires((c,)),
            forall|c: char, b: bool| sep.ensures((c,), b) ==> b == f(c),
            start <= i <= len,
            len == s@.len(),
            forall|j: int| start <= j < i ==> !f(s@[j]),
            split_where(s@, f) == out.deep_view() + split_where(s@.skip(start as int), f),
        decreases len - i,
    {
        let c = s.get_char(i);
        if sep(c) {
            let piece = s.substring_char(start, i).to_owned();
            let ghost old_dv = out.deep_view();
            proof {
                let tail = s@.skip(start as int);
                assert(tail[i - start] == s@[i as int]);
                assert(forall|j: int| 0 <= j < i - start ==> tail[j] == s@[start + j]);
                lemma_first_index_at(tail, f, i - start);
                assert(tail.subrange(0, i - start) =~= piece@);
                assert(tail.skip(i - start + 1) =~= s@.skip(i + 1));
                assert(split_where(tail, f) == seq![piece@] + split_where(s@.skip(i + 1), f));
            }
            out.push(piece);
            proof {
                assert(out.deep_view() =~= old_dv.push(piece@));
                assert(old_dv.push(piece@) + split_where(s@.skip(i + 1), f) =~= old_dv + (seq![
                    piece@,
                ] + split_where(s@.skip(i + 1), f)));
            }
            start = i + 1;
        }
        i += 1;
    }
    let piece = s.substring_char(start, len).to_owned();
    let ghost old_dv = out.deep_view();
    proof {
        let tail = s@.skip(start as int);
        assert(forall|j: int| 0 <= j < tail.len() ==> tail[j] == s@[start + j]);
        lemma_first_index_none(tail, f);
        assert(tail =~= piece@);
        assert(split_where(tail, f) == seq![piece@]);
    }
    out.push(piece);
    proof {
        assert(out.deep_view() =~= old_dv.push(piece@));
        assert(old_dv.push(piece@) =~= old_dv + seq![piece@]);
    }
    out
}

/// Exec test for [`is_ext_sep`].
fn ext_sep_exec(c: char) -> (b: bool)
    ensures
        b == is_ext_sep(c),
{
    c == ',' || c == ';' || c == '|' || c == ' '
}

/// Exec test for [`is_newline`].
fn newline_exec(c: char) -> (b: bool)
    ensures
        b == is_newline(c),
{
    c as u32 == 10
}

/// Read a configured extension list: the string split on `,`, `;`, `|`
/// and space, empty entries kept.
pub fn split_extension_list(s: &str) -> (r: Vec<String>)
    ensures
        r.deep_view() == split_ext_list(s@),
{
    split_chars(s, ext_sep_exec, Ghost(|c: char| is_ext_sep(c)))
}

/// Read a newline-delimited pattern file: one piece per line, with no
/// piece for a trailing newline.
pub fn split_lines(s: &str) -> (r: Vec<String>)
    ensures
        r.deep_view() == split_lines_spec(s@),
{
    let len = s.unicode_len();
    if len == 0 {
        let out: Vec<String> = Vec::new();
        proof {
            assert(out.deep_view() =~= split_lines_spec(s@));
        }
        return out;
    }
    let mut out = split_chars(s, newline_exec, Ghost(|c: char| is_newline(c)));
    if s.get_char(len - 1) as u32 == 10 {
        proof {
            lemma_split_where_len(s@, |c: char| is_newline(c));
        }
        out.pop();
        proof {
            assert(out.deep_view() =~= split_lines_spec(s@));
        }
    }
    out
}

/// `split_where` never returns an empty sequence of pieces.
proof fn lemma_split_where_len(s: Seq<char>, f: spec_fn(char) -> bool)
    ensures
        split_where(s, f).len() >= 1,
    decreases s.len(),
{
    let i = first_index_where(s, f);
    if i != -1 {
        lemma_first_index_in_range(s, f);
        lemma_split_where_len(s.skip(i + 1), f);
    }
}

/// When `first_index_where` finds something, the index is in range.
proof fn lemma_first_index_in_range(s: Seq<char>, f: spec_fn(char) -> bool)
    ensures
        first_index_where(s, f) == -1 || (0 <= first_index_where(s, f) < s.len()),
    decreases s.len(),
{
    if s.len() > 0 && !f(s[0]) {
        lemma_first_index_in_range(s.drop_first(), f);
    }
}

} // verus!
