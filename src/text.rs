//! Character-level string operations with exact specifications.
use vstd::prelude::*;
use vstd::string::*;

verus! {

/// The character sequences of a list of strings.
pub open spec fn strings_view(v: Seq<String>) -> Seq<Seq<char>> {
    v.map_values(|x: String| x@)
}

/// `p` occurs in `s` starting at index `i`.
pub open spec fn occurs_at(s: Seq<char>, p: Seq<char>, i: int) -> bool {
    0 <= i && i + p.len() <= s.len() && s.subrange(i, i + p.len()) == p
}

/// `p` occurs somewhere in `s`.
pub open spec fn has_substring(s: Seq<char>, p: Seq<char>) -> bool {
    exists|i: int| occurs_at(s, p, i)
}

/// The first index `>= from` at which `p` occurs in `s`, or `-1`.
pub open spec fn find_from(s: Seq<char>, p: Seq<char>, from: int) -> int
    decreases s.len() + 1 - from,
{
    if from < 0 || from + p.len() > s.len() {
        -1
    } else if occurs_at(s, p, from) {
        from
    } else {
        find_from(s, p, from + 1)
    }
}

pub proof fn lemma_find_from(s: Seq<char>, p: Seq<char>, from: int)
    requires
        0 <= from,
    ensures
        find_from(s, p, from) == -1 || (from <= find_from(s, p, from) && occurs_at(
            s,
            p,
            find_from(s, p, from),
        )),
        forall|k: int| from <= k < find_from(s, p, from) ==> !occurs_at(s, p, k),
        find_from(s, p, from) == -1 ==> forall|k: int| from <= k ==> !occurs_at(s, p, k),
    decreases s.len() + 1 - from,
{
    if from + p.len() > s.len() {
    } else if occurs_at(s, p, from) {
    } else {
        lemma_find_from(s, p, from + 1);
        assert forall|k: int| from <= k < find_from(s, p, from) implies !occurs_at(s, p, k) by {
            if k == from {
            }
        }
    }
}

/// The characters of `s`, in order.
pub fn chars_of(s: &str) -> (r: Vec<char>)
    ensures
        r@ == s@,
{
    let n = s.unicode_len();
    let mut r: Vec<char> = Vec::new();
    let mut i: usize = 0;
    while i < n
        invariant
            n == s@.len(),
            i <= n,
            r@ == s@.subrange(0, i as int),
        decreases n - i,
    {
        r.push(s.get_char(i));
        i += 1;
    }
    r
}

fn occurs_at_exec(s: &Vec<char>, p: &Vec<char>, i: usize) -> (r: bool)
    requires
        i + p@.len() <= s@.len(),
    ensures
        r == occurs_at(s@, p@, i as int),
{
    let n = s.len();
    let mut k: usize = 0;
    while k < p.len()
        invariant
            n == s@.len(),
            i + p@.len() <= s@.len(),
            k <= p@.len(),
            forall|t: int| 0 <= t < k ==> s@[i + t] == p@[t],
        decreases p@.len() - k,
    {
        if s[i + k] != p[k] {
            assert(s@.subrange(i as int, i + p@.len())[k as int] != p@[k as int]);
            return false;
        }
        k += 1;
    }
    assert(s@.subrange(i as int, i + p@.len()) =~= p@);
    true
}

/// Index of the first occurrence of `p` in `s` at or after `from`.
pub fn find_chars(s: &Vec<char>, p: &Vec<char>, from: usize) -> (r: Option<usize>)
    ensures
        match r {
            Some(i) => find_from(s@, p@, from as int) == i as int,
            None => find_from(s@, p@, from as int) == -1,
        },
{
    let mut i = from;
    if p.len() > s.len() {
        return None;
    }
    let last = s.len() - p.len();
    while i <= last
        invariant
            from <= i,
            last + p@.len() == s@.len(),
            find_from(s@, p@, from as int) == find_from(s@, p@, i as int),
        decreases last + 1 - i,
    {
        if occurs_at_exec(s, p, i) {
            return Some(i);
        }
        if i == last {
            assert(find_from(s@, p@, i + 1) == -1);
            return None;
        }
        i += 1;
    }
    None
}

/// Index of the first occurrence of `p` in `s`.
pub fn find(s: &str, p: &str) -> (r: Option<usize>)
    ensures
        match r {
            Some(i) => find_from(s@, p@, 0) == i as int,
            None => find_from(s@, p@, 0) == -1,
        },
{
    let sc = chars_of(s);
    let pc = chars_of(p);
    find_chars(&sc, &pc, 0)
}

/// Whether `p` occurs in `s`.
pub fn contains(s: &str, p: &str) -> (r: bool)
    ensures
        r == has_substring(s@, p@),
{
    let found = find(s, p);
    proof {
        lemma_find_from(s@, p@, 0);
    }
    found.is_some()
}

/// Whether `s` begins with `p`.
pub fn starts_with(s: &str, p: &str) -> (r: bool)
    ensures
        r == p@.is_prefix_of(s@),
{
    let sc = chars_of(s);
    let pc = chars_of(p);
    if pc.len() > sc.len() {
        return false;
    }
    let r = occurs_at_exec(&sc, &pc, 0);
    assert(r == p@.is_prefix_of(s@)) by {
        if r {
            assert forall|k: int| 0 <= k < p@.len() implies p@[k] == s@[k] by {
                assert(s@.subrange(0, p@.len() as int)[k] == s@[k]);
            }
        } else if p@.is_prefix_of(s@) {
            assert(s@.subrange(0, p@.len() as int) =~= p@);
        }
    }
    r
}

/// Whether `s` ends with `p`.
pub fn ends_with(s: &str, p: &str) -> (r: bool)
    ensures
        r == p@.is_suffix_of(s@),
{
    let sc = chars_of(s);
    let pc = chars_of(p);
    if pc.len() > sc.len() {
        return false;
    }
    let start = sc.len() - pc.len();
    let r = occurs_at_exec(&sc, &pc, start);
    assert(r == p@.is_suffix_of(s@)) by {
        if r {
            assert forall|k: int| 0 <= k < p@.len() implies p@[k] == s@[s@.len() - p@.len() + k] by {
                assert(s@.subrange(start as int, s@.len() as int)[k] == s@[start + k]);
            }
        } else if p@.is_suffix_of(s@) {
            assert(s@.subrange(start as int, s@.len() as int) =~= p@);
        }
    }
    r
}

/// `s` with every non-overlapping occurrence of a non-empty `from`, scanned
/// left to right from index `start`, replaced by `to`.
pub open spec fn replaced_from(s: Seq<char>, from: Seq<char>, to: Seq<char>, start: int) -> Seq<
    char,
>
    decreases s.len() + 1 - start,
{
    let i = find_from(s, from, start);
    if from.len() == 0 || start < 0 || i < start || i + from.len() > s.len() {
        s.subrange(start, s.len() as int)
    } else {
        s.subrange(start, i) + to + replaced_from(s, from, to, i + from.len())
    }
}

/// `to` inserted before every character of `s` and once at its end.
pub open spec fn interleaved(s: Seq<char>, to: Seq<char>) -> Seq<char>
    decreases s.len(),
{
    if s.len() == 0 {
        to
    } else {
        to + seq![s[0]] + interleaved(s.drop_first(), to)
    }
}

/// `s` with every occurrence of `from` replaced by `to`; an empty `from`
/// matches before every character and at the end.
pub open spec fn replaced(s: Seq<char>, from: Seq<char>, to: Seq<char>) -> Seq<char> {
    if from.len() == 0 {
        interleaved(s, to)
    } else {
        replaced_from(s, from, to, 0)
    }
}

/// `s` with its first occurrence of `from`, if any, replaced by `to`.
pub open spec fn replaced_first(s: Seq<char>, from: Seq<char>, to: Seq<char>) -> Seq<char> {
    let i = find_from(s, from, 0);
    if i < 0 || i + from.len() > s.len() {
        s
    } else {
        s.subrange(0, i) + to + s.subrange(i + from.len(), s.len() as int)
    }
}

/// The pieces of `s` from index `start` on, cut at each occurrence of a
/// non-empty `sep`.
pub open spec fn pieces_from(s: Seq<char>, sep: Seq<char>, start: int) -> Seq<Seq<char>>
    decreases s.len() + 1 - start,
{
    let i = find_from(s, sep, start);
    if sep.len() == 0 || start < 0 || i < start || i + sep.len() > s.len() {
        seq![s.subrange(start, s.len() as int)]
    } else {
        seq![s.subrange(start, i)] + pieces_from(s, sep, i + sep.len())
    }
}

/// Unicode white space, the characters for which `char::is_whitespace` holds.
pub open spec fn is_space(c: char) -> bool {
    let v = c as u32;
    v == 0x20 || (0x9 <= v && v <= 0xd) || v == 0x85 || v == 0xa0 || v == 0x1680 || (0x2000 <= v
        && v <= 0x200a) || v == 0x2028 || v == 0x2029 || v == 0x202f || v == 0x205f || v == 0x3000
}

fn is_space_exec(c: char) -> (r: bool)
    ensures
        r == is_space(c),
{
    let v = c as u32;
    v == 0x20 || (0x9 <= v && v <= 0xd) || v == 0x85 || v == 0xa0 || v == 0x1680 || (0x2000 <= v
        && v <= 0x200a) || v == 0x2028 || v == 0x2029 || v == 0x202f || v == 0x205f || v == 0x3000
}

/// The first index `>= i` that holds no white space (or the length).
pub open spec fn skip_spaces(s: Seq<char>, i: int) -> int
    decreases s.len() - i,
{
    if i < 0 || i >= s.len() {
        i
    } else if is_space(s[i]) {
        skip_spaces(s, i + 1)
    } else {
        i
    }
}

/// The first index `>= i` that holds white space (or the length).
pub open spec fn skip_word(s: Seq<char>, i: int) -> int
    decreases s.len() - i,
{
    if i < 0 || i >= s.len() {
        i
    } else if !is_space(s[i]) {
        skip_word(s, i + 1)
    } else {
        i
    }
}

/// The maximal runs of non-white-space characters of `s` from index `i` on.
pub open spec fn words_from(s: Seq<char>, i: int) -> Seq<Seq<char>>
    decreases s.len() - i,
{
    let a = skip_spaces(s, i);
    let b = skip_word(s, a);
    if i < 0 || a >= s.len() || a < i || b <= a || b > s.len() {
        seq![]
    } else {
        seq![s.subrange(a, b)] + words_from(s, b)
    }
}

/// The white-space separated words of `s`, as `str::split_whitespace` gives them.
pub open spec fn words(s: Seq<char>) -> Seq<Seq<char>> {
    words_from(s, 0)
}

/// The length of `s` once trailing white space is removed.
pub open spec fn trimmed_len(s: Seq<char>, k: int) -> int
    decreases k,
{
    if k <= 0 {
        0
    } else if is_space(s[k - 1]) {
        trimmed_len(s, k - 1)
    } else {
        k
    }
}

/// `s` without trailing white space.
pub open spec fn trim_end_spec(s: Seq<char>) -> Seq<char> {
    s.subrange(0, trimmed_len(s, s.len() as int))
}

/// `l` without a final carriage return.
pub open spec fn strip_cr(l: Seq<char>) -> Seq<char> {
    if l.len() > 0 && l.last() == '\r' {
        l.drop_last()
    } else {
        l
    }
}

/// The lines of `s` from index `start` on, as `str::lines` gives them: cut at
/// each newline, with a carriage return before a newline removed.
pub open spec fn lines_from(s: Seq<char>, start: int) -> Seq<Seq<char>>
    decreases s.len() - start,
{
    let i = find_from(s, seq!['\n'], start);
    if start < 0 || start >= s.len() {
        seq![]
    } else if i < start || i >= s.len() {
        seq![s.subrange(start, s.len() as int)]
    } else {
        seq![strip_cr(s.subrange(start, i))] + lines_from(s, i + 1)
    }
}

/// A copy of the characters `from..to` of `s`.
fn piece(s: &str, from: usize, to: usize) -> (r: String)
    requires
        from <= to <= s@.len(),
    ensures
        r@ == s@.subrange(from as int, to as int),
{
    String::from_str(s.substring_char(from, to))
}

/// `s` with every occurrence of `from` replaced by `to`, as `str::replace` does.
pub fn replace(s: &str, from: &str, to: &str) -> (r: String)
    ensures
        r@ == replaced(s@, from@, to@),
{
    let sc = chars_of(s);
    let fc = chars_of(from);
    let n = sc.len();
    let mut r = String::new();
    if fc.len() == 0 {
        let mut i: usize = 0;
        assert(s@.subrange(0, n as int) =~= s@);
        assert(r@ + interleaved(s@, to@) =~= interleaved(s@, to@));
        while i < n
            invariant
                n == s@.len(),
                i <= n,
                r@ + interleaved(s@.subrange(i as int, n as int), to@) == interleaved(s@, to@),
            decreases n - i,
        {
            let ghost rest = s@.subrange(i as int, n as int);
            assert(rest.drop_first() =~= s@.subrange(i + 1, n as int));
            assert(seq![rest[0]] =~= s@.subrange(i as int, i + 1));
            let ghost before = r@;
            r.append(to);
            r.append(s.substring_char(i, i + 1));
            assert(before + interleaved(rest, to@) =~= r@ + interleaved(
                s@.subrange(i + 1, n as int),
                to@,
            ));
            i += 1;
        }
        r.append(to);
        assert(s@.subrange(n as int, n as int) =~= Seq::<char>::empty());
        return r;
    }
    let mut start: usize = 0;
    loop
        invariant
            n == s@.len(),
            fc@ == from@,
            sc@ == s@,
            fc@.len() > 0,
            start <= n,
            r@ + replaced_from(s@, from@, to@, start as int) == replaced(s@, from@, to@),
        decreases n - start,
    {
        proof {
            lemma_find_from(s@, from@, start as int);
        }
        match find_chars(&sc, &fc, start) {
            None => {
                r.append(s.substring_char(start, n));
                return r;
            },
            Some(i) => {
                let ghost before = r@;
                r.append(s.substring_char(start, i));
                r.append(to);
                assert(before + replaced_from(s@, from@, to@, start as int) =~= r@ + replaced_from(
                    s@,
                    from@,
                    to@,
                    i + fc@.len(),
                ));
                start = i + fc.len();
            },
        }
    }
}

/// `s` with its first occurrence of `from`, if any, replaced by `to`.
pub fn replace_first(s: &str, from: &str, to: &str) -> (r: String)
    ensures
        r@ == replaced_first(s@, from@, to@),
{
    proof {
        lemma_find_from(s@, from@, 0);
    }
    match find(s, from) {
        None => String::from_str(s),
        Some(i) => {
            let n = s.unicode_len();
            let flen = from.unicode_len();
            let mut r = piece(s, 0, i);
            r.append(to);
            r.append(s.substring_char(i + flen, n));
            r
        },
    }
}

/// The pieces of `s` between occurrences of a non-empty `sep`, as `str::split` gives them.
pub fn split(s: &str, sep: &str) -> (r: Vec<String>)
    requires
        sep@.len() > 0,
    ensures
        r@.map_values(|x: String| x@) == pieces_from(s@, sep@, 0),
{
    let sc = chars_of(s);
    let pc = chars_of(sep);
    let n = sc.len();
    let mut r: Vec<String> = Vec::new();
    let mut start: usize = 0;
    loop
        invariant
            n == s@.len(),
            pc@ == sep@,
            sc@ == s@,
            pc@.len() > 0,
            start <= n,
            r@.map_values(|x: String| x@) + pieces_from(s@, sep@, start as int) == pieces_from(
                s@,
                sep@,
                0,
            ),
        decreases n - start,
    {
        proof {
            lemma_find_from(s@, sep@, start as int);
        }
        let ghost before = r@.map_values(|x: String| x@);
        match find_chars(&sc, &pc, start) {
            None => {
                r.push(piece(s, start, n));
                assert(r@.map_values(|x: String| x@) =~= before + pieces_from(s@, sep@, start as int));
                return r;
            },
            Some(i) => {
                r.push(piece(s, start, i));
                assert(before + pieces_from(s@, sep@, start as int) =~= r@.map_values(|x: String| x@)
                    + pieces_from(s@, sep@, i + pc@.len()));
                start = i + pc.len();
            },
        }
    }
}

proof fn lemma_skips(s: Seq<char>, i: int)
    requires
        0 <= i <= s.len(),
    ensures
        i <= skip_spaces(s, i) <= s.len(),
        skip_spaces(s, i) <= skip_word(s, skip_spaces(s, i)) <= s.len(),
        skip_spaces(s, i) < s.len() ==> skip_spaces(s, i) < skip_word(s, skip_spaces(s, i)),
    decreases s.len() - i,
{
    if i < s.len() && is_space(s[i]) {
        lemma_skips(s, i + 1);
    } else {
        lemma_skip_word(s, i);
        if i < s.len() {
            lemma_skip_word(s, i + 1);
        }
    }
}

proof fn lemma_skip_word(s: Seq<char>, i: int)
    requires
        0 <= i <= s.len(),
    ensures
        i <= skip_word(s, i) <= s.len(),
    decreases s.len() - i,
{
    if i < s.len() && !is_space(s[i]) {
        lemma_skip_word(s, i + 1);
    }
}

/// The white-space separated words of `s`, as `str::split_whitespace` gives them.
pub fn split_whitespace(s: &str) -> (r: Vec<String>)
    ensures
        r@.map_values(|x: String| x@) == words(s@),
{
    let sc = chars_of(s);
    let n = sc.len();
    let mut r: Vec<String> = Vec::new();
    let mut i: usize = 0;
    assert(r@.map_values(|x: String| x@) + words_from(s@, 0) =~= words(s@));
    while i < n
        invariant
            n == s@.len(),
            sc@ == s@,
            i <= n,
            r@.map_values(|x: String| x@) + words_from(s@, i as int) == words(s@),
        decreases n - i,
    {
        let mut a = i;
        while a < n && is_space_exec(sc[a])
            invariant
                n == s@.len(),
                sc@ == s@,
                i <= a <= n,
                skip_spaces(s@, a as int) == skip_spaces(s@, i as int),
            decreases n - a,
        {
            a += 1;
        }
        let mut b = a;
        while b < n && !is_space_exec(sc[b])
            invariant
                n == s@.len(),
                sc@ == s@,
                a <= b <= n,
                skip_word(s@, b as int) == skip_word(s@, a as int),
            decreases n - b,
        {
            b += 1;
        }
        proof {
            lemma_skips(s@, i as int);
        }
        if a == n {
            assert(words_from(s@, i as int) =~= seq![]);
            assert(words_from(s@, n as int) =~= seq![]);
            i = n;
        } else {
            let ghost before = r@.map_values(|x: String| x@);
            r.push(piece(s, a, b));
            assert(before + words_from(s@, i as int) =~= r@.map_values(|x: String| x@)
                + words_from(s@, b as int));
            i = b;
        }
    }
    assert(words_from(s@, n as int) =~= seq![]);
    assert(r@.map_values(|x: String| x@) =~= words(s@));
    r
}

/// `s` without trailing white space, as `str::trim_end` gives it.
pub fn trim_end(s: &str) -> (r: String)
    ensures
        r@ == trim_end_spec(s@),
{
    let sc = chars_of(s);
    let mut k = sc.len();
    while k > 0 && is_space_exec(sc[k - 1])
        invariant
            sc@ == s@,
            k <= s@.len(),
            trimmed_len(s@, k as int) == trimmed_len(s@, s@.len() as int),
        decreases k,
    {
        k -= 1;
    }
    piece(s, 0, k)
}

/// The lines of `s`, as `str::lines` gives them.
pub fn lines(s: &str) -> (r: Vec<String>)
    ensures
        r@.map_values(|x: String| x@) == lines_from(s@, 0),
{
    let sc = chars_of(s);
    let nl = vec!['\n'];
    let n = sc.len();
    let mut r: Vec<String> = Vec::new();
    let mut start: usize = 0;
    assert(nl@ =~= seq!['\n']);
    loop
        invariant
            n == s@.len(),
            sc@ == s@,
            nl@ == seq!['\n'],
            start <= n,
            r@.map_values(|x: String| x@) + lines_from(s@, start as int) == lines_from(s@, 0),
        decreases n - start,
    {
        if start == n {
            assert(r@.map_values(|x: String| x@) =~= lines_from(s@, 0));
            return r;
        }
        proof {
            lemma_find_from(s@, seq!['\n'], start as int);
        }
        let ghost before = r@.map_values(|x: String| x@);
        match find_chars(&sc, &nl, start) {
            None => {
                r.push(piece(s, start, n));
                assert(r@.map_values(|x: String| x@) =~= before + lines_from(s@, start as int));
                return r;
            },
            Some(i) => {
                let mut end = i;
                if i > start && sc[i - 1] == '\r' {
                    end = i - 1;
                    assert(s@.subrange(start as int, i as int).drop_last() =~= s@.subrange(
                        start as int,
                        i - 1,
                    ));
                }
                r.push(piece(s, start, end));
                assert(before + lines_from(s@, start as int) =~= r@.map_values(|x: String| x@)
                    + lines_from(s@, i + 1));
                start = i + 1;
            },
        }
    }
}

/// Whether `a` and `b` hold the same characters.
pub fn equal(a: &str, b: &str) -> (r: bool)
    ensures
        r == (a@ == b@),
{
    if a.unicode_len() != b.unicode_len() {
        return false;
    }
    let r = starts_with(a, b);
    assert(r ==> a@ =~= b@);
    r
}

/// `a` followed by `b`.
pub fn concat(a: &str, b: &str) -> (r: String)
    ensures
        r@ == a@ + b@,
{
    let mut r = String::from_str(a);
    r.append(b);
    r
}

} // verus!
