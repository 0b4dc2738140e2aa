//! Text helpers shared by the rest of the crate: comparison of strings,
//! joining of path components, and scanning for separators.
//!
//! Paths are held as plain text with `/` as the separator.
use vstd::prelude::*;
use vstd::string::*;
use vstd::utf8::*;

verus! {

/// How one text stands with respect to another.
#[derive(Clone, Copy, Debug, PartialEq, Eq, Structural)]
pub enum TextOrder {
    Less,
    Equal,
    Greater,
}

/// `a` is below `b` because of position `k`: they agree before `k`, and at `k`
/// either `a` ends while `b` goes on, or `a` holds the smaller byte.
pub open spec fn less_at(a: Seq<u8>, b: Seq<u8>, k: int) -> bool {
    &&& 0 <= k <= a.len()
    &&& k <= b.len()
    &&& forall|j: int| 0 <= j < k ==> a[j] == b[j]
    &&& if k == a.len() {
        k < b.len()
    } else {
        k < b.len() && a[k] < b[k]
    }
}

/// Lexicographic order on byte sequences.
pub open spec fn bytes_less(a: Seq<u8>, b: Seq<u8>) -> bool {
    exists|k: int| less_at(a, b, k)
}

/// The order of strings: lexicographic by the bytes of their UTF-8 encoding.
pub open spec fn text_less(a: Seq<char>, b: Seq<char>) -> bool {
    bytes_less(encode_utf8(a), encode_utf8(b))
}

/// The three-way comparison that `text_less` induces.
pub open spec fn spec_text_compare(a: Seq<char>, b: Seq<char>) -> TextOrder {
    if a == b {
        TextOrder::Equal
    } else if text_less(a, b) {
        TextOrder::Less
    } else {
        TextOrder::Greater
    }
}

pub proof fn lemma_bytes_less_irreflexive(a: Seq<u8>)
    ensures
        !bytes_less(a, a),
{
    assert forall|k: int| !less_at(a, a, k) by {}
}

pub proof fn lemma_bytes_less_transitive(a: Seq<u8>, b: Seq<u8>, c: Seq<u8>)
    requires
        bytes_less(a, b),
        bytes_less(b, c),
    ensures
        bytes_less(a, c),
{
    let k1 = choose|k: int| less_at(a, b, k);
    let k2 = choose|k: int| less_at(b, c, k);
    let k = if k1 <= k2 {
        k1
    } else {
        k2
    };
    assert(less_at(a, c, k));
}

/// No text is below itself.
pub proof fn lemma_text_less_irreflexive(a: Seq<char>)
    ensures
        !text_less(a, a),
{
    lemma_bytes_less_irreflexive(encode_utf8(a));
}

/// The order of strings is transitive.
pub proof fn lemma_text_less_transitive(a: Seq<char>, b: Seq<char>, c: Seq<char>)
    requires
        text_less(a, b),
        text_less(b, c),
    ensures
        text_less(a, c),
{
    lemma_bytes_less_transitive(encode_utf8(a), encode_utf8(b), encode_utf8(c));
}

/// Two texts are never below each other.
pub proof fn lemma_text_less_asymmetric(a: Seq<char>, b: Seq<char>)
    requires
        text_less(a, b),
    ensures
        !text_less(b, a),
        a != b,
{
    lemma_text_less_irreflexive(a);
    if text_less(b, a) {
        lemma_text_less_transitive(a, b, a);
    }
}

/// Compares two strings by their bytes, as `str`'s own ordering does.
pub fn text_compare(a: &str, b: &str) -> (r: TextOrder)
    ensures
        r == spec_text_compare(a@, b@),
        r == TextOrder::Greater <==> text_less(b@, a@),
{
    let x = a.as_bytes();
    let y = b.as_bytes();
    let n: usize = x.len();
    let m: usize = y.len();
    let mut i: usize = 0;
    while i < n && i < m && x[i] == y[i]
        invariant
            n == x@.len(),
            m == y@.len(),
            i <= n,
            i <= m,
            forall|j: int| 0 <= j < i ==> x@[j] == y@[j],
        decreases n - i,
    {
        i += 1;
    }
    if i == n && i == m {
        proof {
            assert(x@ =~= y@);
            encode_utf8_decode_utf8(a@);
            encode_utf8_decode_utf8(b@);
            lemma_text_less_irreflexive(a@);
        }
        TextOrder::Equal
    } else if i == n || (i < m && x[i] < y[i]) {
        proof {
            assert(less_at(x@, y@, i as int));
            lemma_text_less_asymmetric(a@, b@);
        }
        TextOrder::Less
    } else {
        proof {
            assert(less_at(y@, x@, i as int));
            lemma_text_less_asymmetric(b@, a@);
        }
        TextOrder::Greater
    }
}

/// Whether two string slices hold the same characters.
pub fn same_text(a: &str, b: &str) -> (r: bool)
    ensures
        r == (a@ == b@),
{
    match text_compare(a, b) {
        TextOrder::Equal => true,
        _ => false,
    }
}

/// Copies a list of strings.
pub fn copy_texts(items: &Vec<String>) -> (r: Vec<String>)
    ensures
        r.deep_view() == items.deep_view(),
{
    let mut out: Vec<String> = Vec::new();
    let mut i: usize = 0;
    while i < items.len()
        invariant
            i <= items.len(),
            out.len() == i,
            forall|j: int| 0 <= j < i ==> out[j]@ == items[j]@,
        decreases items.len() - i,
    {
        out.push(items[i].clone());
        i += 1;
    }
    assert(out.deep_view() =~= items.deep_view());
    out
}

/// Whether `list` holds `item`.
pub fn contains_text(list: &Vec<String>, item: &str) -> (r: bool)
    ensures
        r == list.deep_view().contains(item@),
{
    let mut i: usize = 0;
    while i < list.len()
        invariant
            i <= list.len(),
            forall|j: int| 0 <= j < i ==> list.deep_view()[j] != item@,
        decreases list.len() - i,
    {
        assert(list.deep_view()[i as int] == list[i as int]@);
        if same_text(list[i].as_str(), item) {
            return true;
        }
        i += 1;
    }
    false
}

/// The text that results when the component `comp` is pushed onto the path
/// `base`: a component that starts at the root replaces the path; otherwise it
/// is appended, after a separator unless the path is empty or ends in one.
pub open spec fn spec_path_push(base: Seq<char>, comp: Seq<char>) -> Seq<char> {
    if comp.len() > 0 && comp[0] == '/' {
        comp
    } else if base.len() == 0 || base.last() == '/' {
        base + comp
    } else {
        base + seq!['/'] + comp
    }
}

/// Pushes a component onto a path.
pub fn path_push(base: &str, comp: &str) -> (r: String)
    ensures
        r@ == spec_path_push(base@, comp@),
{
    let comp_len: usize = comp.unicode_len();
    if comp_len > 0 && comp.get_char(0) == '/' {
        return comp.to_owned();
    }
    let base_len: usize = base.unicode_len();
    let mut out: String = base.to_owned();
    if base_len > 0 && base.get_char(base_len - 1) != '/' {
        proof {
            reveal_strlit("/");
            assert("/"@ =~= seq!['/']);
        }
        out.append("/");
    }
    out.append(comp);
    out
}

/// Whether `prefix` stands in `value` at position `k`.
pub open spec fn spec_has_at(value: Seq<char>, prefix: Seq<char>, k: int) -> bool {
    &&& 0 <= k
    &&& k + prefix.len() <= value.len()
    &&& value.subrange(k, k + prefix.len()) == prefix
}

fn has_at(value: &str, value_len: usize, prefix: &str, prefix_len: usize, k: usize) -> (r: bool)
    requires
        value_len == value@.len(),
        prefix_len == prefix@.len(),
        k <= value_len,
    ensures
        r == spec_has_at(value@, prefix@, k as int),
{
    if prefix_len > value_len - k {
        return false;
    }
    let mut i: usize = 0;
    while i < prefix_len
        invariant
            value_len == value@.len(),
            prefix_len == prefix@.len(),
            k + prefix_len <= value_len,
            i <= prefix_len,
            forall|j: int| 0 <= j < i ==> value@[k + j] == prefix@[j],
        decreases prefix_len - i,
    {
        if value.get_char(k + i) != prefix.get_char(i) {
            assert(value@.subrange(k as int, k + prefix_len)[i as int] != prefix@[i as int]);
            return false;
        }
        i += 1;
    }
    assert(value@.subrange(k as int, k + prefix_len) =~= prefix@);
    true
}

/// The position at which `value` goes on once every leading repetition of
/// `prefix` from position `k` on has been passed. An empty prefix passes
/// nothing.
pub open spec fn spec_strip_from(value: Seq<char>, prefix: Seq<char>, k: int) -> int
    decreases value.len() - k,
{
    if prefix.len() > 0 && spec_has_at(value, prefix, k) {
        spec_strip_from(value, prefix, k + prefix.len())
    } else {
        k
    }
}

/// `value` without its leading repetitions of `prefix`.
pub open spec fn spec_strip_prefix(value: Seq<char>, prefix: Seq<char>) -> Seq<char> {
    value.subrange(spec_strip_from(value, prefix, 0), value.len() as int)
}

/// Removes every leading repetition of `prefix` from `value`.
pub fn strip_prefix(value: &str, prefix: &str) -> (r: String)
    ensures
        r@ == spec_strip_prefix(value@, prefix@),
{
    let value_len: usize = value.unicode_len();
    let prefix_len: usize = prefix.unicode_len();
    let mut k: usize = 0;
    if prefix_len > 0 {
        while has_at(value, value_len, prefix, prefix_len, k)
            invariant
                value_len == value@.len(),
                prefix_len == prefix@.len(),
                prefix_len > 0,
                k <= value_len,
                spec_strip_from(value@, prefix@, 0) == spec_strip_from(value@, prefix@, k as int),
            decreases value_len - k,
        {
            k += prefix_len;
        }
    }
    value.substring_char(k, value_len).to_owned()
}

/// `value` from position `k` on, with `to` in place of every occurrence of
/// `from`, found from left to right, none overlapping another. An empty
/// `from` occurs before every character and at the end.
pub open spec fn spec_replace_from(
    value: Seq<char>,
    from: Seq<char>,
    to: Seq<char>,
    k: int,
) -> Seq<char>
    decreases value.len() - k,
{
    if k >= value.len() || k < 0 {
        if from.len() == 0 {
            to
        } else {
            Seq::empty()
        }
    } else if from.len() == 0 {
        to + seq![value[k]] + spec_replace_from(value, from, to, k + 1)
    } else if spec_has_at(value, from, k) {
        to + spec_replace_from(value, from, to, k + from.len())
    } else {
        seq![value[k]] + spec_replace_from(value, from, to, k + 1)
    }
}

/// `value` with `to` in place of every occurrence of `from`.
pub open spec fn spec_replace(value: Seq<char>, from: Seq<char>, to: Seq<char>) -> Seq<char> {
    spec_replace_from(value, from, to, 0)
}

/// Puts `to` in place of every occurrence of `from` in `value`, as
/// `str::replace` does.
pub fn replace(value: &str, from: &str, to: &str) -> (r: String)
    ensures
        r@ == spec_replace(value@, from@, to@),
{
    let n: usize = value.unicode_len();
    let m: usize = from.unicode_len();
    let mut out: String = String::new();
    let mut k: usize = 0;
    assert(out@ + spec_replace_from(value@, from@, to@, 0) =~= spec_replace(value@, from@, to@));
    while k < n
        invariant
            n == value@.len(),
            m == from@.len(),
            k <= n,
            out@ + spec_replace_from(value@, from@, to@, k as int) == spec_replace(
                value@,
                from@,
                to@,
            ),
        decreases n - k,
    {
        let ghost before = out@;
        let ghost rest = spec_replace_from(value@, from@, to@, k as int);
        if m == 0 {
            out.append(to);
            out.append(value.substring_char(k, k + 1));
            proof {
                let next = spec_replace_from(value@, from@, to@, k + 1);
                assert(value@.subrange(k as int, k + 1) =~= seq![value@[k as int]]);
                assert(out@ + next =~= before + rest);
            }
            k += 1;
        } else if has_at(value, n, from, m, k) {
            out.append(to);
            proof {
                let next = spec_replace_from(value@, from@, to@, k + m);
                assert(out@ + next =~= before + rest);
            }
            k += m;
        } else {
            out.append(value.substring_char(k, k + 1));
            proof {
                let next = spec_replace_from(value@, from@, to@, k + 1);
                assert(value@.subrange(k as int, k + 1) =~= seq![value@[k as int]]);
                assert(out@ + next =~= before + rest);
            }
            k += 1;
        }
    }
    if m == 0 {
        out.append(to);
    }
    proof {
        let tail = spec_replace_from(value@, from@, to@, n as int);
        if m == 0 {
            assert(tail == to@);
        } else {
            assert(tail == Seq::<char>::empty());
            assert(out@ + tail =~= out@);
        }
    }
    out
}

/// The first position from `from` on at which `s` holds `c`, or the length of
/// `s` where there is none.
pub open spec fn spec_find(s: Seq<char>, c: char, from: int) -> int
    decreases s.len() - from,
{
    if from >= s.len() {
        s.len() as int
    } else if s[from] == c {
        from
    } else {
        spec_find(s, c, from + 1)
    }
}

/// Finds the first `c` in `s` at or after `from`: its position, or the
/// length of `s` where there is none.
pub fn find_char(s: &str, c: char, from: usize) -> (r: usize)
    ensures
        r == spec_find(s@, c, from as int),
        r <= s@.len(),
        from <= s@.len() ==> from <= r,
{
    let s_len: usize = s.unicode_len();
    if from >= s_len {
        return s_len;
    }
    let mut i: usize = from;
    while i < s_len && s.get_char(i) != c
        invariant
            s_len == s@.len(),
            from <= i <= s_len,
            spec_find(s@, c, from as int) == spec_find(s@, c, i as int),
        decreases s_len - i,
    {
        i += 1;
    }
    i
}

/// The length of `s` up to `end` once the `c`s that stand last are left out.
pub open spec fn spec_trim_end(s: Seq<char>, c: char, end: int) -> int
    decreases end,
{
    if end <= 0 {
        0
    } else if s[end - 1] == c {
        spec_trim_end(s, c, end - 1)
    } else {
        end
    }
}

/// The position after the last `c` that stands before `end`, or 0.
pub open spec fn spec_segment_start(s: Seq<char>, c: char, end: int) -> int
    decreases end,
{
    if end <= 0 {
        0
    } else if s[end - 1] == c {
        end
    } else {
        spec_segment_start(s, c, end - 1)
    }
}

/// The last segment of `s` between `/`s, trailing `/`s not counted.
pub open spec fn spec_last_segment(s: Seq<char>) -> Seq<char> {
    let end = spec_trim_end(s, '/', s.len() as int);
    s.subrange(spec_segment_start(s, '/', end), end)
}

/// The name under which what `url` points to is stored: its last path segment.
pub fn last_segment(url: &str) -> (r: String)
    ensures
        r@ == spec_last_segment(url@),
{
    let n: usize = url.unicode_len();
    let mut end: usize = n;
    while end > 0 && url.get_char(end - 1) == '/'
        invariant
            n == url@.len(),
            end <= n,
            spec_trim_end(url@, '/', n as int) == spec_trim_end(url@, '/', end as int),
        decreases end,
    {
        end -= 1;
    }
    let mut start: usize = end;
    while start > 0 && url.get_char(start - 1) != '/'
        invariant
            n == url@.len(),
            start <= end <= n,
            spec_segment_start(url@, '/', end as int) == spec_segment_start(
                url@,
                '/',
                start as int,
            ),
        decreases start,
    {
        start -= 1;
    }
    url.substring_char(start, end).to_owned()
}

/// Where the file name of a path ends when only the first `end` characters
/// are looked at: trailing `/`s and trailing segments that are `.` are not
/// part of it.
pub open spec fn spec_name_end(path: Seq<char>, end: int) -> int
    decreases end,
{
    let e = spec_trim_end(path, '/', end);
    let start = spec_segment_start(path, '/', e);
    if 0 <= start < e <= end && e - start == 1 && path[start] == '.' {
        spec_name_end(path, start)
    } else {
        e
    }
}

/// The file name of a path: its last segment that is not `.`; none where
/// there is no such segment or it is `..`.
pub open spec fn spec_file_name(path: Seq<char>) -> Option<Seq<char>> {
    let end = spec_name_end(path, path.len() as int);
    let name = path.subrange(spec_segment_start(path, '/', end), end);
    if end <= 0 || name == ".."@ {
        None
    } else {
        Some(name)
    }
}

/// The position of the last `.` before `end`, or -1.
pub open spec fn spec_last_dot(name: Seq<char>, end: int) -> int
    decreases end,
{
    if end <= 0 {
        -1
    } else if name[end - 1] == '.' {
        end - 1
    } else {
        spec_last_dot(name, end - 1)
    }
}

/// A file name without its extension: what stands before its last `.`,
/// unless that is the first character or there is none.
pub open spec fn spec_stem(name: Seq<char>) -> Seq<char> {
    let dot = spec_last_dot(name, name.len() as int);
    if dot <= 0 {
        name
    } else {
        name.subrange(0, dot)
    }
}

/// The file name of a path without its extension.
pub open spec fn spec_file_stem(path: Seq<char>) -> Option<Seq<char>> {
    match spec_file_name(path) {
        Some(name) => Some(spec_stem(name)),
        None => None,
    }
}

/// The file name of a path, as `std::path::Path::file_name` gives it for
/// paths with `/` as the separator.
pub fn file_name(path: &str) -> (r: Option<String>)
    ensures
        r.deep_view() == spec_file_name(path@),
{
    let n: usize = path.unicode_len();
    let mut end: usize = n;
    let mut start: usize = n;
    let mut done: bool = false;
    while !done
        invariant
            n == path@.len(),
            start <= end <= n,
            !done ==> spec_name_end(path@, n as int) == spec_name_end(path@, end as int),
            done ==> end == spec_name_end(path@, n as int) && start == spec_segment_start(
                path@,
                '/',
                end as int,
            ),
        decreases end + (if done { 0int } else { 1int }),
    {
        let ghost from = end;
        let mut e: usize = end;
        while e > 0 && path.get_char(e - 1) == '/'
            invariant
                n == path@.len(),
                e <= end <= n,
                spec_trim_end(path@, '/', end as int) == spec_trim_end(path@, '/', e as int),
            decreases e,
        {
            e -= 1;
        }
        let mut st: usize = e;
        while st > 0 && path.get_char(st - 1) != '/'
            invariant
                n == path@.len(),
                st <= e <= n,
                spec_segment_start(path@, '/', e as int) == spec_segment_start(
                    path@,
                    '/',
                    st as int,
                ),
            decreases st,
        {
            st -= 1;
        }
        if e > 0 && e - st == 1 && path.get_char(st) == '.' {
            end = st;
            start = st;
        } else {
            end = e;
            start = st;
            done = true;
        }
    }
    if end == 0 {
        return None;
    }
    let name = path.substring_char(start, end);
    if same_text(name, "..") {
        None
    } else {
        Some(name.to_owned())
    }
}

/// The file name of a path without its extension, as
/// `std::path::Path::file_stem` gives it for paths with `/` as the separator.
pub fn file_stem(path: &str) -> (r: Option<String>)
    ensures
        r.deep_view() == spec_file_stem(path@),
{
    match file_name(path) {
        None => None,
        Some(name) => {
            let n: usize = name.as_str().unicode_len();
            let mut i: usize = n;
            while i > 0 && name.as_str().get_char(i - 1) != '.'
                invariant
                    n == name@.len(),
                    i <= n,
                    spec_last_dot(name@, n as int) == spec_last_dot(name@, i as int),
                decreases i,
            {
                i -= 1;
            }
            // `i` is one past the last dot, or 0 where there is none.
            if i <= 1 {
                Some(name)
            } else {
                Some(name.as_str().substring_char(0, i - 1).to_owned())
            }
        },
    }
}

} // verus!
