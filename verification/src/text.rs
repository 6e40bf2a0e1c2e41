//! Character-sequence utilities shared by the parsers and printers: the
//! trimming, line and field splitting, and decimal conversions that the
//! configuration and state formats are built from.

use vstd::prelude::*;

verus! {

/// The characters that `char::is_whitespace` accepts (Unicode `White_Space`).
pub open spec fn is_space(c: char) -> bool {
    ||| c == '\t' || c == '\n' || c == '\u{0B}' || c == '\u{0C}' || c == '\r' || c == ' '
    ||| c == '\u{85}' || c == '\u{A0}' || c == '\u{1680}'
    ||| ('\u{2000}' <= c && c <= '\u{200A}')
    ||| c == '\u{2028}' || c == '\u{2029}' || c == '\u{202F}' || c == '\u{205F}' || c == '\u{3000}'
}

pub fn is_space_char(c: char) -> (r: bool)
    ensures
        r == is_space(c),
{
    c == '\t' || c == '\n' || c == '\u{0B}' || c == '\u{0C}' || c == '\r' || c == ' '
        || c == '\u{85}' || c == '\u{A0}' || c == '\u{1680}' || ('\u{2000}' <= c && c
        <= '\u{200A}') || c == '\u{2028}' || c == '\u{2029}' || c == '\u{202F}' || c
        == '\u{205F}' || c == '\u{3000}'
}

/// `s` without its leading white space.
pub open spec fn trim_start(s: Seq<char>) -> Seq<char>
    decreases s.len(),
{
    if s.len() > 0 && is_space(s[0]) {
        trim_start(s.drop_first())
    } else {
        s
    }
}

/// `s` without its trailing white space.
pub open spec fn trim_end(s: Seq<char>) -> Seq<char>
    decreases s.len(),
{
    if s.len() > 0 && is_space(s.last()) {
        trim_end(s.drop_last())
    } else {
        s
    }
}

/// `s` without leading and trailing white space, as `str::trim` returns it.
pub open spec fn spec_trim(s: Seq<char>) -> Seq<char> {
    trim_end(trim_start(s))
}

/// Index of the first occurrence of `c` in `s`.
pub open spec fn spec_find_first(s: Seq<char>, c: char) -> Option<int>
    decreases s.len(),
{
    if s.len() == 0 {
        None
    } else if s[0] == c {
        Some(0)
    } else {
        match spec_find_first(s.drop_first(), c) {
            Some(i) => Some(i + 1),
            None => None,
        }
    }
}

/// Index of the last occurrence of `c` in `s`.
pub open spec fn spec_find_last(s: Seq<char>, c: char) -> Option<int>
    decreases s.len(),
{
    if s.len() == 0 {
        None
    } else if s.last() == c {
        Some(s.len() - 1)
    } else {
        spec_find_last(s.drop_last(), c)
    }
}

/// `str::split_once` with a character pattern.
pub open spec fn spec_split_once(s: Seq<char>, c: char) -> Option<(Seq<char>, Seq<char>)> {
    match spec_find_first(s, c) {
        Some(i) => Some((s.take(i), s.skip(i + 1))),
        None => None,
    }
}

/// `str::rsplit_once` with a character pattern.
pub open spec fn spec_rsplit_once(s: Seq<char>, c: char) -> Option<(Seq<char>, Seq<char>)> {
    match spec_find_last(s, c) {
        Some(i) => Some((s.take(i), s.skip(i + 1))),
        None => None,
    }
}

/// The pieces of `str::split` with a character pattern.
pub open spec fn spec_split(s: Seq<char>, c: char) -> Seq<Seq<char>>
    decreases s.len(),
{
    match spec_find_first(s, c) {
        Some(i) => {
            if 0 <= i < s.len() {
                seq![s.take(i)] + spec_split(s.skip(i + 1), c)
            } else {
                seq![s]
            }
        },
        None => seq![s],
    }
}

/// A line as `str::lines` yields it from one piece of `split_inclusive('\n')`.
pub open spec fn strip_line_end(piece: Seq<char>) -> Seq<char> {
    if piece.len() > 0 && piece.last() == '\n' {
        let p = piece.drop_last();
        if p.len() > 0 && p.last() == '\r' {
            p.drop_last()
        } else {
            p
        }
    } else {
        piece
    }
}

/// The lines of `s`, as `str::lines` yields them.
#[verifier::opaque]
pub open spec fn spec_lines(s: Seq<char>) -> Seq<Seq<char>>
    decreases s.len(),
{
    if s.len() == 0 {
        seq![]
    } else {
        match spec_find_first(s, '\n') {
            Some(i) => {
                if 0 <= i < s.len() {
                    seq![strip_line_end(s.take(i + 1))] + spec_lines(s.skip(i + 1))
                } else {
                    seq![s]
                }
            },
            None => seq![s],
        }
    }
}

pub proof fn lemma_find_first(s: Seq<char>, c: char)
    ensures
        match spec_find_first(s, c) {
            Some(i) => 0 <= i < s.len() && s[i] == c && forall|k: int| 0 <= k < i ==> s[k] != c,
            None => forall|k: int| 0 <= k < s.len() ==> s[k] != c,
        },
    decreases s.len(),
{
    if s.len() > 0 && s[0] != c {
        lemma_find_first(s.drop_first(), c);
        match spec_find_first(s.drop_first(), c) {
            Some(i) => {
                assert forall|k: int| 0 <= k < i + 1 implies s[k] != c by {
                    if k > 0 {
                        assert(s[k] == s.drop_first()[k - 1]);
                    }
                }
            },
            None => {
                assert forall|k: int| 0 <= k < s.len() implies s[k] != c by {
                    if k > 0 {
                        assert(s[k] == s.drop_first()[k - 1]);
                    }
                }
            },
        }
    }
}

/// The first occurrence is characterised by its position alone.
pub proof fn lemma_find_first_at(s: Seq<char>, c: char, i: int)
    requires
        0 <= i < s.len(),
        s[i] == c,
        forall|k: int| 0 <= k < i ==> s[k] != c,
    ensures
        spec_find_first(s, c) == Some(i),
{
    lemma_find_first(s, c);
    match spec_find_first(s, c) {
        Some(j) => {
            if j < i {
                assert(s[j] != c);
            } else if j > i {
                assert(s[i] != c);
            }
        },
        None => {
            assert(s[i] != c);
        },
    }
}

pub proof fn lemma_find_first_none(s: Seq<char>, c: char)
    requires
        forall|k: int| 0 <= k < s.len() ==> s[k] != c,
    ensures
        spec_find_first(s, c) == None::<int>,
{
    lemma_find_first(s, c);
    match spec_find_first(s, c) {
        Some(j) => {
            assert(s[j] != c);
        },
        None => {},
    }
}

pub proof fn lemma_find_last(s: Seq<char>, c: char)
    ensures
        match spec_find_last(s, c) {
            Some(i) => 0 <= i < s.len() && s[i] == c && forall|k: int| i < k < s.len() ==> s[k]
                != c,
            None => forall|k: int| 0 <= k < s.len() ==> s[k] != c,
        },
    decreases s.len(),
{
    if s.len() > 0 && s.last() != c {
        lemma_find_last(s.drop_last(), c);
        assert forall|k: int| 0 <= k < s.len() - 1 implies s[k] == s.drop_last()[k] by {}
    }
}

pub proof fn lemma_find_last_at(s: Seq<char>, c: char, i: int)
    requires
        0 <= i < s.len(),
        s[i] == c,
        forall|k: int| i < k < s.len() ==> s[k] != c,
    ensures
        spec_find_last(s, c) == Some(i),
{
    lemma_find_last(s, c);
    match spec_find_last(s, c) {
        Some(j) => {
            if j < i {
                assert(s[i] != c);
            } else if j > i {
                assert(s[j] != c);
            }
        },
        None => {
            assert(s[i] != c);
        },
    }
}

pub proof fn lemma_find_last_none(s: Seq<char>, c: char)
    requires
        forall|k: int| 0 <= k < s.len() ==> s[k] != c,
    ensures
        spec_find_last(s, c) == None::<int>,
{
    lemma_find_last(s, c);
    match spec_find_last(s, c) {
        Some(j) => {
            assert(s[j] != c);
        },
        None => {},
    }
}

/// Turns characters back into a `String` with `String::from_iter`; the
/// contract states what its documentation says: the string holds those
/// characters, in order.
#[verifier::external_body]
pub(crate) fn string_of(v: Vec<char>) -> (s: String)
    ensures
        s@ == v@,
{
    String::from_iter(v)
}

/// Copies the characters of a string slice into a vector.
pub fn chars_of(s: &str) -> (v: Vec<char>)
    ensures
        v@ == s@,
{
    let mut v: Vec<char> = Vec::new();
    for c in it: s.chars()
        invariant
            v@ == it.seq().take(it.index() as int),
            it.seq() == s@,
    {
        v.push(c);
    }
    v
}

/// Appends the characters of `s` to `out`.
pub fn push_str(out: &mut Vec<char>, s: &str)
    ensures
        final(out)@ == old(out)@ + s@,
{
    let cs = chars_of(s);
    push_chars(out, &cs);
}

/// Appends `cs` to `out`.
pub fn push_chars(out: &mut Vec<char>, cs: &Vec<char>)
    ensures
        final(out)@ == old(out)@ + cs@,
{
    let mut i: usize = 0;
    while i < cs.len()
        invariant
            i <= cs@.len(),
            out@ == old(out)@ + cs@.take(i as int),
        decreases cs@.len() - i,
    {
        out.push(cs[i]);
        proof {
            assert(cs@.take(i + 1) == cs@.take(i as int).push(cs@[i as int]));
        }
        i = i + 1;
    }
    proof {
        assert(cs@.take(cs@.len() as int) == cs@);
    }
}

/// Whether two character vectors hold the same characters.
pub fn same_chars(a: &Vec<char>, b: &Vec<char>) -> (r: bool)
    ensures
        r == (a@ == b@),
{
    if a.len() != b.len() {
        return false;
    }
    let mut i: usize = 0;
    while i < a.len()
        invariant
            i <= a@.len() == b@.len(),
            forall|k: int| 0 <= k < i ==> a@[k] == b@[k],
        decreases a@.len() - i,
    {
        if a[i] != b[i] {
            return false;
        }
        i = i + 1;
    }
    proof {
        assert(a@ =~= b@);
    }
    true
}

/// Whether the characters of `v` are those of `lit`.
pub fn chars_are(v: &Vec<char>, lit: &str) -> (r: bool)
    ensures
        r == (v@ == lit@),
{
    let l = chars_of(lit);
    same_chars(v, &l)
}

/// The characters `v[lo..hi]`.
pub fn slice_chars(v: &Vec<char>, lo: usize, hi: usize) -> (r: Vec<char>)
    requires
        lo <= hi <= v@.len(),
    ensures
        r@ == v@.subrange(lo as int, hi as int),
{
    let mut r: Vec<char> = Vec::new();
    let mut i = lo;
    while i < hi
        invariant
            lo <= i <= hi <= v@.len(),
            r@ == v@.subrange(lo as int, i as int),
        decreases hi - i,
    {
        r.push(v[i]);
        i = i + 1;
    }
    r
}

pub proof fn lemma_trim_start_skip(s: Seq<char>, i: int)
    requires
        0 <= i <= s.len(),
        forall|k: int| 0 <= k < i ==> is_space(#[trigger] s[k]),
    ensures
        trim_start(s) == trim_start(s.skip(i)),
    decreases i,
{
    if i > 0 {
        assert(s.skip(1) == s.drop_first());
        assert forall|k: int| 0 <= k < i - 1 implies is_space(#[trigger] s.drop_first()[k]) by {
            assert(s.drop_first()[k] == s[k + 1]);
        }
        lemma_trim_start_skip(s.drop_first(), i - 1);
        assert(s.drop_first().skip(i - 1) == s.skip(i));
    } else {
        assert(s.skip(0) == s);
    }
}

pub proof fn lemma_trim_end_take(s: Seq<char>, j: int)
    requires
        0 <= j <= s.len(),
        forall|k: int| j <= k < s.len() ==> is_space(#[trigger] s[k]),
    ensures
        trim_end(s) == trim_end(s.take(j)),
    decreases s.len() - j,
{
    if j < s.len() {
        assert(is_space(s[s.len() - 1]));
        assert forall|k: int| j <= k < s.len() - 1 implies is_space(#[trigger] s.drop_last()[k]) by {
            assert(s.drop_last()[k] == s[k]);
        }
        lemma_trim_end_take(s.drop_last(), j);
        assert(s.drop_last().take(j) == s.take(j));
    } else {
        assert(s.take(j) == s);
    }
}

/// `str::trim`.
pub fn trim(v: &Vec<char>) -> (r: Vec<char>)
    ensures
        r@ == spec_trim(v@),
{
    let n = v.len();
    let mut lo: usize = 0;
    while lo < n && is_space_char(v[lo])
        invariant
            lo <= n == v@.len(),
            forall|k: int| 0 <= k < lo ==> is_space(#[trigger] v@[k]),
        decreases n - lo,
    {
        lo = lo + 1;
    }
    let mut hi: usize = n;
    while hi > lo && is_space_char(v[hi - 1])
        invariant
            lo <= hi <= n == v@.len(),
            forall|k: int| hi <= k < n ==> is_space(#[trigger] v@[k]),
        decreases hi - lo,
    {
        hi = hi - 1;
    }
    proof {
        let s = v@;
        lemma_trim_start_skip(s, lo as int);
        let t = s.skip(lo as int);
        if lo < n {
            assert(!is_space(s[lo as int]));
            assert(t[0] == s[lo as int]);
            assert(trim_start(t) == t);
        } else {
            assert(t.len() == 0);
        }
        assert forall|k: int| hi - lo <= k < t.len() implies is_space(#[trigger] t[k]) by {
            assert(t[k] == s[k + lo]);
        }
        lemma_trim_end_take(t, hi - lo);
        let u = t.take(hi - lo);
        if hi > lo {
            assert(u.last() == s[hi - 1]);
            assert(!is_space(u.last()));
        }
        assert(trim_end(u) == u);
        assert(u == s.subrange(lo as int, hi as int));
    }
    slice_chars(v, lo, hi)
}

/// Position of the first `c` in `v`, if any.
pub fn find_first(v: &Vec<char>, c: char) -> (r: Option<usize>)
    ensures
        match r {
            Some(i) => spec_find_first(v@, c) == Some(i as int),
            None => spec_find_first(v@, c) == None::<int>,
        },
{
    let n = v.len();
    let mut i: usize = 0;
    while i < n
        invariant
            i <= n == v@.len(),
            forall|k: int| 0 <= k < i ==> v@[k] != c,
        decreases n - i,
    {
        if v[i] == c {
            proof {
                lemma_find_first_at(v@, c, i as int);
            }
            return Some(i);
        }
        i = i + 1;
    }
    proof {
        lemma_find_first_none(v@, c);
    }
    None
}

/// Position of the last `c` in `v`, if any.
pub fn find_last(v: &Vec<char>, c: char) -> (r: Option<usize>)
    ensures
        match r {
            Some(i) => spec_find_last(v@, c) == Some(i as int),
            None => spec_find_last(v@, c) == None::<int>,
        },
{
    let n = v.len();
    let mut i: usize = n;
    while i > 0
        invariant
            i <= n == v@.len(),
            forall|k: int| i <= k < n ==> v@[k] != c,
        decreases i,
    {
        if v[i - 1] == c {
            proof {
                lemma_find_last_at(v@, c, i - 1);
            }
            return Some(i - 1);
        }
        i = i - 1;
    }
    proof {
        lemma_find_last_none(v@, c);
    }
    None
}

/// `str::split_once` with a character pattern.
pub fn split_once(v: &Vec<char>, c: char) -> (r: Option<(Vec<char>, Vec<char>)>)
    ensures
        match r {
            Some((a, b)) => spec_split_once(v@, c) == Some((a@, b@)),
            None => spec_split_once(v@, c) == None::<(Seq<char>, Seq<char>)>,
        },
{
    proof {
        lemma_find_first(v@, c);
    }
    match find_first(v, c) {
        Some(i) => {
            assert(i < v.len());
            let a = slice_chars(v, 0, i);
            let b = slice_chars(v, i + 1, v.len());
            proof {
                assert(a@ == v@.take(i as int));
                assert(b@ == v@.skip(i + 1));
            }
            Some((a, b))
        },
        None => None,
    }
}

/// `str::rsplit_once` with a character pattern.
pub fn rsplit_once(v: &Vec<char>, c: char) -> (r: Option<(Vec<char>, Vec<char>)>)
    ensures
        match r {
            Some((a, b)) => spec_rsplit_once(v@, c) == Some((a@, b@)),
            None => spec_rsplit_once(v@, c) == None::<(Seq<char>, Seq<char>)>,
        },
{
    proof {
        lemma_find_last(v@, c);
    }
    match find_last(v, c) {
        Some(i) => {
            assert(i < v.len());
            let a = slice_chars(v, 0, i);
            let b = slice_chars(v, i + 1, v.len());
            proof {
                assert(a@ == v@.take(i as int));
                assert(b@ == v@.skip(i + 1));
            }
            Some((a, b))
        },
        None => None,
    }
}


/// Index of the first white-space character of `s`, or its length.
pub open spec fn first_space(s: Seq<char>) -> int
    decreases s.len(),
{
    if s.len() == 0 || is_space(s[0]) {
        0
    } else {
        1 + first_space(s.drop_first())
    }
}

/// The fields of `s`, as `str::split_whitespace` yields them.
pub open spec fn spec_words(s: Seq<char>) -> Seq<Seq<char>>
    decreases s.len(),
{
    if s.len() == 0 {
        seq![]
    } else if is_space(s[0]) {
        spec_words(s.drop_first())
    } else {
        let j = first_space(s);
        if 0 < j <= s.len() {
            seq![s.take(j)] + spec_words(s.skip(j))
        } else {
            seq![s]
        }
    }
}

proof fn lemma_first_space(s: Seq<char>, j: int)
    requires
        0 <= j <= s.len(),
        forall|k: int| 0 <= k < j ==> !is_space(#[trigger] s[k]),
        j == s.len() || is_space(s[j]),
    ensures
        first_space(s) == j,
    decreases j,
{
    if j > 0 {
        assert forall|k: int| 0 <= k < j - 1 implies !is_space(#[trigger] s.drop_first()[k]) by {
            assert(s.drop_first()[k] == s[k + 1]);
        }
        if j < s.len() {
            assert(s.drop_first()[j - 1] == s[j]);
        }
        lemma_first_space(s.drop_first(), j - 1);
    }
}

/// The character sequences that a vector of character vectors holds.
pub open spec fn views(r: Seq<Vec<char>>) -> Seq<Seq<char>> {
    Seq::new(r.len(), |i: int| r[i]@)
}

/// The pieces of `v` between occurrences of `c` (`str::split`).
pub fn split(v: &Vec<char>, c: char) -> (r: Vec<Vec<char>>)
    ensures
        views(r@) == spec_split(v@, c),
{
    let n = v.len();
    let mut r: Vec<Vec<char>> = Vec::new();
    let mut start: usize = 0;
    let mut i: usize = 0;
    proof {
        assert(v@.skip(0) == v@);
        assert(views(r@) =~= Seq::<Seq<char>>::empty());
    }
    while i < n
        invariant
            start <= i <= n == v@.len(),
            forall|k: int| start <= k < i ==> v@[k] != c,
            spec_split(v@, c) == views(r@) + spec_split(v@.skip(start as int), c),
        decreases n - i,
    {
        if v[i] == c {
            let piece = slice_chars(v, start, i);
            proof {
                let t = v@.skip(start as int);
                assert forall|k: int| 0 <= k < i - start implies t[k] != c by {
                    assert(t[k] == v@[k + start]);
                }
                lemma_find_first_at(t, c, i - start);
                assert(t.take(i - start) == piece@);
                assert(t.skip(i - start + 1) == v@.skip(i + 1));
            }
            let ghost before = views(r@);
            r.push(piece);
            proof {
                assert(views(r@) =~= before.push(piece@));
                assert(before.push(piece@) == before + seq![piece@]);
            }
            start = i + 1;
        }
        i = i + 1;
    }
    let last = slice_chars(v, start, n);
    proof {
        let t = v@.skip(start as int);
        assert forall|k: int| 0 <= k < t.len() implies t[k] != c by {
            assert(t[k] == v@[k + start]);
        }
        lemma_find_first_none(t, c);
        assert(t == last@);
    }
    let ghost before = views(r@);
    r.push(last);
    proof {
        assert(views(r@) =~= before.push(last@));
        assert(before.push(last@) == before + seq![last@]);
    }
    r
}

/// The lines of `v` (`str::lines`).
pub fn lines(v: &Vec<char>) -> (r: Vec<Vec<char>>)
    ensures
        views(r@) == spec_lines(v@),
{
    reveal(spec_lines);
    let n = v.len();
    let mut r: Vec<Vec<char>> = Vec::new();
    let mut start: usize = 0;
    let mut i: usize = 0;
    proof {
        assert(v@.skip(0) == v@);
        assert(views(r@) =~= Seq::<Seq<char>>::empty());
    }
    while i < n
        invariant
            start <= i <= n == v@.len(),
            forall|k: int| start <= k < i ==> v@[k] != '\n',
            spec_lines(v@) == views(r@) + spec_lines(v@.skip(start as int)),
        decreases n - i,
    {
        if v[i] == '\n' {
            let mut end = i;
            if end > start && v[end - 1] == '\r' {
                end = end - 1;
            }
            let piece = slice_chars(v, start, end);
            proof {
                reveal(spec_lines);
                let t = v@.skip(start as int);
                assert forall|k: int| 0 <= k < i - start implies t[k] != '\n' by {
                    assert(t[k] == v@[k + start]);
                }
                lemma_find_first_at(t, '\n', i - start);
                let p = t.take(i - start + 1);
                assert(p.drop_last() == v@.subrange(start as int, i as int));
                if i > start {
                    assert(p.drop_last().last() == v@[i - 1]);
                }
                assert(strip_line_end(p) == piece@);
                assert(t.skip(i - start + 1) == v@.skip(i + 1));
            }
            let ghost before = views(r@);
            r.push(piece);
            proof {
                assert(views(r@) =~= before.push(piece@));
                assert(before.push(piece@) == before + seq![piece@]);
            }
            start = i + 1;
        }
        i = i + 1;
    }
    if start < n {
        let last = slice_chars(v, start, n);
        proof {
            reveal(spec_lines);
            let t = v@.skip(start as int);
            assert forall|k: int| 0 <= k < t.len() implies t[k] != '\n' by {
                assert(t[k] == v@[k + start]);
            }
            lemma_find_first_none(t, '\n');
            assert(t == last@);
        }
        let ghost before = views(r@);
        r.push(last);
        proof {
            assert(views(r@) =~= before.push(last@));
            assert(before.push(last@) == before + seq![last@]);
        }
    } else {
        proof {
            reveal(spec_lines);
            assert(v@.skip(start as int).len() == 0);
            assert(views(r@) + seq![] == views(r@));
        }
    }
    r
}

/// The white-space separated fields of `v` (`str::split_whitespace`).
pub fn words(v: &Vec<char>) -> (r: Vec<Vec<char>>)
    ensures
        views(r@) == spec_words(v@),
{
    let n = v.len();
    let mut r: Vec<Vec<char>> = Vec::new();
    let mut i: usize = 0;
    proof {
        assert(v@.skip(0) == v@);
        assert(views(r@) =~= Seq::<Seq<char>>::empty());
    }
    while i < n
        invariant
            i <= n == v@.len(),
            spec_words(v@) == views(r@) + spec_words(v@.skip(i as int)),
        decreases n - i,
    {
        if is_space_char(v[i]) {
            proof {
                let t = v@.skip(i as int);
                assert(t.drop_first() == v@.skip(i + 1));
            }
            i = i + 1;
        } else {
            let mut j = i;
            while j < n && !is_space_char(v[j])
                invariant
                    i <= j <= n == v@.len(),
                    forall|k: int| i <= k < j ==> !is_space(#[trigger] v@[k]),
                decreases n - j,
            {
                j = j + 1;
            }
            let piece = slice_chars(v, i, j);
            proof {
                let t = v@.skip(i as int);
                assert forall|k: int| 0 <= k < j - i implies !is_space(#[trigger] t[k]) by {
                    assert(t[k] == v@[k + i]);
                }
                if j < n {
                    assert(t[j - i] == v@[j as int]);
                }
                lemma_first_space(t, j - i);
                assert(t.take(j - i) == piece@);
                assert(t.skip(j - i) == v@.skip(j as int));
            }
            let ghost before = views(r@);
            r.push(piece);
            proof {
                assert(views(r@) =~= before.push(piece@));
                assert(before.push(piece@) == before + seq![piece@]);
            }
            i = j;
        }
    }
    proof {
        assert(v@.skip(i as int).len() == 0);
        assert(views(r@) + seq![] == views(r@));
    }
    r
}

pub open spec fn is_digit(c: char) -> bool {
    '0' <= c && c <= '9'
}

pub open spec fn digit_value(c: char) -> int {
    c as int - '0' as int
}

pub open spec fn all_digits(s: Seq<char>) -> bool {
    forall|k: int| 0 <= k < s.len() ==> is_digit(#[trigger] s[k])
}

/// The number that a string of decimal digits denotes.
pub open spec fn digits_value(s: Seq<char>) -> int
    decreases s.len(),
{
    if s.len() == 0 {
        0
    } else {
        digits_value(s.drop_last()) * 10 + digit_value(s.last())
    }
}

/// What `str::parse` gives for an unsigned integer type whose largest value is `max`:
/// an optional `+`, then one or more decimal digits, denoting at most `max`.
pub open spec fn spec_parse_unsigned(s: Seq<char>, max: int) -> Option<int> {
    let d = if s.len() > 0 && s[0] == '+' {
        s.drop_first()
    } else {
        s
    };
    if d.len() > 0 && all_digits(d) && digits_value(d) <= max {
        Some(digits_value(d))
    } else {
        None
    }
}

proof fn lemma_digits_value_nonneg(s: Seq<char>)
    requires
        all_digits(s),
    ensures
        digits_value(s) >= 0,
    decreases s.len(),
{
    if s.len() > 0 {
        assert(is_digit(s[s.len() - 1]));
        lemma_digits_value_nonneg(s.drop_last());
    }
}

proof fn lemma_digits_value_prefix(s: Seq<char>, j: int)
    requires
        all_digits(s),
        0 <= j <= s.len(),
    ensures
        digits_value(s.take(j)) <= digits_value(s),
    decreases s.len() - j,
{
    if j < s.len() {
        assert(all_digits(s.drop_last()));
        lemma_digits_value_prefix(s.drop_last(), j);
        assert(s.drop_last().take(j) == s.take(j));
        lemma_digits_value_nonneg(s.drop_last());
        assert(is_digit(s[s.len() - 1]));
    } else {
        assert(s.take(j) == s);
    }
}

fn digit_of(c: char) -> (r: u64)
    requires
        is_digit(c),
    ensures
        r == digit_value(c),
        r < 10,
{
    if c == '0' { 0 } else if c == '1' { 1 } else if c == '2' { 2 } else if c == '3' { 3 }
    else if c == '4' { 4 } else if c == '5' { 5 } else if c == '6' { 6 } else if c == '7' { 7 }
    else if c == '8' { 8 } else { 9 }
}

/// `str::parse` for an unsigned integer no larger than `max`.
pub fn parse_unsigned(v: &Vec<char>, max: u64) -> (r: Option<u64>)
    ensures
        match r {
            Some(x) => spec_parse_unsigned(v@, max as int) == Some(x as int),
            None => spec_parse_unsigned(v@, max as int) == None::<int>,
        },
{
    let n = v.len();
    let start: usize = if n > 0 && v[0] == '+' { 1 } else { 0 };
    let ghost d = if v@.len() > 0 && v@[0] == '+' { v@.drop_first() } else { v@ };
    proof {
        assert(d == v@.skip(start as int));
    }
    if start == n {
        proof {
            assert(d.len() == 0);
        }
        return None;
    }
    let mut acc: u64 = 0;
    let mut i: usize = start;
    while i < n
        invariant
            start <= i <= n == v@.len(),
            d == v@.skip(start as int),
            d == (if v@.len() > 0 && v@[0] == '+' { v@.drop_first() } else { v@ }),
            all_digits(d.take(i - start)),
            acc == digits_value(d.take(i - start)),
            acc <= max,
        decreases n - i,
    {
        let c = v[i];
        if !(('0' <= c) && (c <= '9')) {
            proof {
                assert(d[i - start] == c);
                assert(!is_digit(d[i - start]));
                assert(!all_digits(d));
            }
            return None;
        }
        let dv = digit_of(c);
        let next: u128 = acc as u128 * 10 + dv as u128;
        proof {
            let p = d.take(i - start + 1);
            assert(p.drop_last() == d.take(i - start));
            assert(p.last() == c);
            assert(all_digits(p)) by {
                assert forall|k: int| 0 <= k < p.len() implies is_digit(#[trigger] p[k]) by {
                    if k < p.len() - 1 {
                        assert(p[k] == d.take(i - start)[k]);
                    }
                }
            }
        }
        if next > max as u128 {
            proof {
                let p = d.take(i - start + 1);
                if all_digits(d) {
                    lemma_digits_value_prefix(d, i - start + 1);
                }
            }
            return None;
        }
        acc = next as u64;
        i = i + 1;
    }
    proof {
        assert(d.take(n - start) == d);
    }
    Some(acc)
}

/// The character of a decimal digit.
pub open spec fn digit_char(d: int) -> char {
    if d == 0 { '0' } else if d == 1 { '1' } else if d == 2 { '2' } else if d == 3 { '3' }
    else if d == 4 { '4' } else if d == 5 { '5' } else if d == 6 { '6' } else if d == 7 { '7' }
    else if d == 8 { '8' } else { '9' }
}

/// The decimal representation of `n`, without leading zeros.
pub open spec fn decimal(n: nat) -> Seq<char>
    decreases n,
{
    if n < 10 {
        seq![digit_char(n as int)]
    } else {
        decimal(n / 10).push(digit_char((n % 10) as int))
    }
}

fn digit_char_exec(d: u64) -> (c: char)
    requires
        d < 10,
    ensures
        c == digit_char(d as int),
{
    if d == 0 { '0' } else if d == 1 { '1' } else if d == 2 { '2' } else if d == 3 { '3' }
    else if d == 4 { '4' } else if d == 5 { '5' } else if d == 6 { '6' } else if d == 7 { '7' }
    else if d == 8 { '8' } else { '9' }
}

/// Appends the decimal representation of `n` to `out`.
pub fn push_decimal(out: &mut Vec<char>, n: u64)
    ensures
        final(out)@ == old(out)@ + decimal(n as nat),
    decreases n,
{
    if n >= 10 {
        push_decimal(out, n / 10);
    }
    out.push(digit_char_exec(n % 10));
    proof {
        if n < 10 {
            assert(old(out)@ + decimal(n as nat) == old(out)@.push(digit_char(n as int)));
        }
    }
}

proof fn lemma_digit_char(d: int)
    requires
        0 <= d < 10,
    ensures
        is_digit(digit_char(d)),
        digit_value(digit_char(d)) == d,
        digit_char(d) != '+',
{
}

/// Text that ends in a line feed splits into the lines before it.
pub proof fn lemma_lines_empty()
    ensures
        spec_lines(Seq::<char>::empty()) == Seq::<Seq<char>>::empty(),
{
    reveal(spec_lines);
}

/// A line feed after a first line without one separates it from the rest.
pub proof fn lemma_lines_split_at(s: Seq<char>, i: int)
    requires
        0 <= i < s.len(),
        s[i] == '\n',
        forall|k: int| 0 <= k < i ==> s[k] != '\n',
    ensures
        spec_lines(s) == seq![strip_line_end(s.take(i + 1))] + spec_lines(s.skip(i + 1)),
{
    reveal(spec_lines);
    lemma_find_first_at(s, '\n', i);
}

/// A decimal representation reads back as the number it represents.
pub proof fn lemma_decimal_digits(n: nat)
    ensures
        all_digits(decimal(n)),
        digits_value(decimal(n)) == n,
        decimal(n).len() > 0,
        decimal(n)[0] != '+',
    decreases n,
{
    lemma_digit_char((n % 10) as int);
    if n >= 10 {
        lemma_decimal_digits(n / 10);
        let s = decimal(n);
        assert(s.drop_last() == decimal(n / 10));
        assert(s[0] == decimal(n / 10)[0]);
        assert(s.last() == digit_char((n % 10) as int));
        assert(n == (n / 10) * 10 + n % 10) by (nonlinear_arith);
        assert(digits_value(s) == digits_value(decimal(n / 10)) * 10 + digit_value(
            digit_char((n % 10) as int),
        ));
        assert(all_digits(s)) by {
            assert forall|k: int| 0 <= k < s.len() implies is_digit(#[trigger] s[k]) by {
                if k < s.len() - 1 {
                    assert(s[k] == decimal(n / 10)[k]);
                }
            }
        }
    } else {
        let s = decimal(n);
        assert(s.drop_last().len() == 0);
        assert(n % 10 == n);
        assert(digits_value(s) == digits_value(s.drop_last()) * 10 + digit_value(s.last()));
    }
}

/// Printing a number and parsing it back gives the number again.
pub proof fn lemma_parse_decimal(n: nat, max: int)
    requires
        n <= max,
    ensures
        spec_parse_unsigned(decimal(n), max) == Some(n as int),
{
    lemma_decimal_digits(n);
}


/// The trimmed text, unless it is empty.
pub fn trimmed_value(content: &str) -> (r: Option<String>)
    ensures
        match r {
            Some(s) => s@ == spec_trim(content@) && s@.len() > 0,
            None => spec_trim(content@).len() == 0,
        },
{
    let t = trim(&chars_of(content));
    if t.len() == 0 {
        None
    } else {
        Some(string_of(t))
    }
}


/// `s` without the prefix `p`, when it starts with it (`str::strip_prefix`).
pub open spec fn spec_strip_prefix(s: Seq<char>, p: Seq<char>) -> Option<Seq<char>> {
    if s.len() >= p.len() && s.take(p.len() as int) == p {
        Some(s.skip(p.len() as int))
    } else {
        None
    }
}

pub fn strip_prefix(v: &Vec<char>, p: &str) -> (r: Option<Vec<char>>)
    ensures
        match r {
            Some(rest) => spec_strip_prefix(v@, p@) == Some(rest@),
            None => spec_strip_prefix(v@, p@) is None,
        },
{
    let pc = chars_of(p);
    if v.len() < pc.len() {
        return None;
    }
    let head = slice_chars(v, 0, pc.len());
    if !same_chars(&head, &pc) {
        proof {
            assert(head@ == v@.take(p@.len() as int));
        }
        return None;
    }
    proof {
        assert(head@ =~= v@.take(p@.len() as int));
        assert(v@.subrange(pc@.len() as int, v@.len() as int) =~= v@.skip(p@.len() as int));
    }
    Some(slice_chars(v, pc.len(), v.len()))
}

/// Whether `t` occurs in `s` (`str::contains`).
pub open spec fn spec_contains(s: Seq<char>, t: Seq<char>) -> bool {
    exists|i: int| 0 <= i && i + t.len() <= s.len() && #[trigger] s.subrange(i, i + t.len()) == t
}

pub fn contains(v: &Vec<char>, t: &str) -> (r: bool)
    ensures
        r == spec_contains(v@, t@),
{
    let tc = chars_of(t);
    let n = v.len();
    let m = tc.len();
    if m > n {
        proof {
            assert forall|i: int| 0 <= i && i + t@.len() <= v@.len() implies #[trigger] v@.subrange(
                i,
                i + t@.len(),
            ) != t@ by {}
        }
        return false;
    }
    if m == 0 {
        proof {
            assert(v@.subrange(0, 0int + t@.len()) =~= t@);
        }
        return true;
    }
    let ends = n - m + 1;
    let mut i: usize = 0;
    while i < ends
        invariant
            m == t@.len(),
            tc@ == t@,
            n == v@.len(),
            0 < m <= n,
            ends == n - m + 1,
            i <= ends,
            forall|k: int| 0 <= k < i ==> #[trigger] v@.subrange(k, k + t@.len()) != t@,
        decreases ends - i,
    {
        let piece = slice_chars(v, i, i + m);
        if same_chars(&piece, &tc) {
            return true;
        }
        i = i + 1;
    }
    false
}

/// The lines of `text`, each trimmed.
pub fn trimmed_lines(text: &str) -> (r: Vec<String>)
    ensures
        r@.len() == spec_lines(text@).len(),
        forall|i: int| 0 <= i < r@.len() ==> #[trigger] r@[i]@ == spec_trim(spec_lines(text@)[i]),
{
    let ls = lines(&chars_of(text));
    let mut r: Vec<String> = Vec::new();
    let mut i: usize = 0;
    while i < ls.len()
        invariant
            i <= ls@.len(),
            views(ls@) == spec_lines(text@),
            r@.len() == i,
            forall|k: int| 0 <= k < i ==> #[trigger] r@[k]@ == spec_trim(spec_lines(text@)[k]),
        decreases ls@.len() - i,
    {
        proof {
            assert(views(ls@)[i as int] == ls@[i as int]@);
        }
        r.push(string_of(trim(&ls[i])));
        i = i + 1;
    }
    r
}


/// The text without its leading and trailing white space (`str::trim`).
pub fn trimmed(s: &str) -> (r: String)
    ensures
        r@ == spec_trim(s@),
{
    string_of(trim(&chars_of(s)))
}

/// `parts` joined with single spaces.
pub open spec fn spaced(parts: Seq<Seq<char>>) -> Seq<char>
    decreases parts.len(),
{
    if parts.len() == 0 {
        Seq::empty()
    } else if parts.len() == 1 {
        parts[0]
    } else {
        spaced(parts.drop_last()) + " "@ + parts.last()
    }
}


/// A value that can stand on a line of its own and be read back unchanged.
pub open spec fn line_safe(s: Seq<char>) -> bool {
    &&& forall|k: int| 0 <= k < s.len() ==> s[k] != '\n'
    &&& (s.len() > 0 ==> s.last() != '\r')
}

/// A line without a line feed, followed by one, is the first line.
pub proof fn lemma_lines_cons(a: Seq<char>, rest: Seq<char>)
    requires
        line_safe(a),
    ensures
        spec_lines(a + "\n"@ + rest) == seq![a] + spec_lines(rest),
{
    reveal_strlit("\n");
    let s = a + "\n"@ + rest;
    let i = a.len() as int;
    assert(s[i] == '\n');
    assert forall|k: int| 0 <= k < i implies s[k] != '\n' by {
        assert(s[k] == a[k]);
    }
    lemma_lines_split_at(s, i);
    assert(s.take(i + 1).drop_last() == a);
    assert(s.skip(i + 1) == rest);
}

/// A last line ended by a line feed is the only line.
pub proof fn lemma_lines_last(x: Seq<char>)
    requires
        line_safe(x),
    ensures
        spec_lines(x + "\n"@) == seq![x],
{
    let e = Seq::<char>::empty();
    assert(x + "\n"@ + e == x + "\n"@);
    lemma_lines_cons(x, e);
    lemma_lines_empty();
    assert(seq![x] + Seq::<Seq<char>>::empty() == seq![x]);
}

/// A non-empty text without a line feed is a single line.
pub proof fn lemma_lines_single(x: Seq<char>)
    requires
        x.len() > 0,
        forall|k: int| 0 <= k < x.len() ==> x[k] != '\n',
    ensures
        spec_lines(x) == seq![x],
{
    reveal(spec_lines);
    lemma_find_first_none(x, '\n');
}

/// A word without white space, then white space `sep`, then `rest`, splits
/// into the word and the fields of `rest`.
pub proof fn lemma_words_cons(w: Seq<char>, sep: char, rest: Seq<char>)
    requires
        w.len() > 0,
        forall|k: int| 0 <= k < w.len() ==> !is_space(#[trigger] w[k]),
        is_space(sep),
    ensures
        spec_words(w + seq![sep] + rest) == seq![w] + spec_words(rest),
{
    let s = w + seq![sep] + rest;
    let n = w.len() as int;
    assert forall|k: int| 0 <= k < n implies !is_space(#[trigger] s[k]) by {
        assert(s[k] == w[k]);
    }
    assert(s[n] == sep);
    lemma_first_space(s, n);
    assert(s[0] == w[0]);
    assert(s.take(n) =~= w);
    let t = s.skip(n);
    assert(t =~= seq![sep] + rest);
    assert(t.drop_first() =~= rest);
    assert(is_space(t[0]));
    assert(spec_words(t) == spec_words(t.drop_first()));
    assert(first_space(s) == n);
    assert(spec_words(s) == seq![s.take(n)] + spec_words(s.skip(n)));
}

/// A word without white space is its only field.
pub proof fn lemma_words_single(w: Seq<char>)
    requires
        w.len() > 0,
        forall|k: int| 0 <= k < w.len() ==> !is_space(#[trigger] w[k]),
    ensures
        spec_words(w) == seq![w],
{
    let n = w.len() as int;
    lemma_first_space(w, n);
    assert(w.take(n) =~= w);
    assert(w.skip(n).len() == 0);
    assert(spec_words(w.skip(n)) == Seq::<Seq<char>>::empty());
    assert(spec_words(w) == seq![w.take(n)] + spec_words(w.skip(n)));
    assert(seq![w] + Seq::<Seq<char>>::empty() =~= seq![w]);
}

/// Trimming the end of `s` keeps at least everything up to a character
/// that is not white space.
pub proof fn lemma_trim_end_keeps(s: Seq<char>, i: int) -> (m: int)
    requires
        0 <= i < s.len(),
        !is_space(s[i]),
    ensures
        i < m <= s.len(),
        trim_end(s) == s.take(m),
    decreases s.len(),
{
    if is_space(s.last()) {
        assert(s.drop_last()[i] == s[i]);
        let m = lemma_trim_end_keeps(s.drop_last(), i);
        assert(s.drop_last().take(m) =~= s.take(m));
        m
    } else {
        assert(s.take(s.len() as int) =~= s);
        s.len() as int
    }
}

/// A text contains each of its middle parts.
pub proof fn lemma_contains_middle(x: Seq<char>, y: Seq<char>, z: Seq<char>)
    ensures
        spec_contains(x + y + z, y),
{
    let s = x + y + z;
    let i = x.len() as int;
    assert(s.subrange(i, i + y.len()) =~= y);
}

} // verus!
