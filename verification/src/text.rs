//! Text primitives: the string operations the rest of the crate is built on,
//! each stated over the sequence of characters a string holds.
use vstd::prelude::*;

verus! {

/// The characters with the Unicode `White_Space` property.
pub open spec fn is_white_space(c: char) -> bool {
    ||| 0x09 <= c as u32 <= 0x0d
    ||| c as u32 == 0x20
    ||| c as u32 == 0x85
    ||| c as u32 == 0xa0
    ||| c as u32 == 0x1680
    ||| 0x2000 <= c as u32 <= 0x200a
    ||| c as u32 == 0x2028
    ||| c as u32 == 0x2029
    ||| c as u32 == 0x202f
    ||| c as u32 == 0x205f
    ||| c as u32 == 0x3000
}

pub fn white_space(c: char) -> (r: bool)
    ensures
        r == is_white_space(c),
{
    let u: u32 = c as u32;
    (0x09 <= u && u <= 0x0d) || u == 0x20 || u == 0x85 || u == 0xa0 || u == 0x1680
        || (0x2000 <= u && u <= 0x200a) || u == 0x2028 || u == 0x2029 || u == 0x202f
        || u == 0x205f || u == 0x3000
}

/// The characters of a string, one by one.
pub fn chars_of(s: &str) -> (r: Vec<char>)
    ensures
        r@ == s@,
{
    let mut out: Vec<char> = Vec::new();
    for c in it: s.chars()
        invariant
            it.seq() == s@,
            out@ == s@.take(it.index()),
    {
        out.push(c);
        assert(s@.take(it.index() + 1) == s@.take(it.index()).push(c));
    }
    assert(s@.take(s@.len() as int) == s@);
    out
}

/// The characters from `from` up to `to`, as a string of their own.
pub fn slice(s: &str, from: usize, to: usize) -> (r: String)
    requires
        from <= to <= s@.len(),
    ensures
        r@ == s@.subrange(from as int, to as int),
{
    s.substring_char(from, to).to_owned()
}

pub fn same(a: &str, b: &str) -> (r: bool)
    ensures
        r == (a@ == b@),
{
    a.to_owned() == b.to_owned()
}


/// The character sequences held by a sequence of strings.
pub open spec fn views(v: Seq<String>) -> Seq<Seq<char>> {
    Seq::new(v.len(), |i: int| v[i]@)
}

/// A copy of a list of strings.
pub fn copy_all(v: &Vec<String>) -> (r: Vec<String>)
    ensures
        views(r@) == views(v@),
{
    let mut out: Vec<String> = Vec::new();
    let mut i: usize = 0;
    while i < v.len()
        invariant
            i <= v.len(),
            views(out@) == views(v@).take(i as int),
        decreases v.len() - i,
    {
        let ghost before = views(out@);
        out.push(v[i].clone());
        assert(views(out@) == before.push(v@[i as int]@));
        assert(views(v@).take(i + 1) == views(v@).take(i as int).push(v@[i as int]@));
        i = i + 1;
    }
    assert(views(v@).take(i as int) == views(v@));
    out
}

/// Whether two lists hold the same strings in the same order.
pub fn same_all(a: &Vec<String>, b: &Vec<String>) -> (r: bool)
    ensures
        r == (views(a@) == views(b@)),
{
    if a.len() != b.len() {
        assert(views(a@).len() != views(b@).len());
        return false;
    }
    let mut i: usize = 0;
    while i < a.len()
        invariant
            i <= a.len() == b.len(),
            forall|k: int| 0 <= k < i ==> a@[k]@ == b@[k]@,
        decreases a.len() - i,
    {
        if !same(a[i].as_str(), b[i].as_str()) {
            assert(views(a@)[i as int] != views(b@)[i as int]);
            return false;
        }
        i = i + 1;
    }
    assert(views(a@) =~= views(b@));
    true
}

/// The text of an optional string.
pub open spec fn opt_view(s: Option<String>) -> Option<Seq<char>> {
    match s {
        Some(t) => Some(t@),
        None => None,
    }
}

/// Whether two optional strings hold the same.
pub fn same_opt(a: &Option<String>, b: &Option<String>) -> (r: bool)
    ensures
        r == (opt_view(*a) == opt_view(*b)),
{
    match (a, b) {
        (Some(x), Some(y)) => same(x.as_str(), y.as_str()),
        (None, None) => true,
        _ => false,
    }
}

/// A copy of an optional string.
pub fn copy_opt(s: &Option<String>) -> (r: Option<String>)
    ensures
        opt_view(r) == opt_view(*s),
{
    match s {
        Some(t) => Some(t.clone()),
        None => None,
    }
}

/// Whether a string is one of a list.
pub fn member(v: &Vec<String>, s: &str) -> (r: bool)
    ensures
        r == views(v@).contains(s@),
{
    let mut i: usize = 0;
    while i < v.len()
        invariant
            i <= v.len(),
            forall|k: int| 0 <= k < i ==> v@[k]@ != s@,
        decreases v.len() - i,
    {
        if same(v[i].as_str(), s) {
            assert(views(v@)[i as int] == s@);
            return true;
        }
        i = i + 1;
    }
    false
}

/// `String::push` appends one character to the end of the string.
pub assume_specification[ String::push ](s: &mut String, c: char)
    ensures
        final(s)@ == old(s)@.push(c),
;

/// The characters of `chars` from `from` up to `to`, as a string.
pub fn string_of(chars: &Vec<char>, from: usize, to: usize) -> (r: String)
    requires
        from <= to <= chars.len(),
    ensures
        r@ == chars@.subrange(from as int, to as int),
{
    let mut out: String = String::new();
    let mut i: usize = from;
    while i < to
        invariant
            from <= i <= to <= chars.len(),
            out@ == chars@.subrange(from as int, i as int),
        decreases to - i,
    {
        out.push(chars[i]);
        i = i + 1;
        assert(chars@.subrange(from as int, i as int) == chars@.subrange(
            from as int,
            i - 1,
        ).push(chars@[i - 1]));
    }
    out
}

/// `a` followed by `b`.
pub fn joined(a: &str, b: &str) -> (r: String)
    ensures
        r@ == a@ + b@,
{
    let mut out: String = a.to_owned();
    let cs: Vec<char> = chars_of(b);
    let mut i: usize = 0;
    while i < cs.len()
        invariant
            i <= cs.len(),
            cs@ == b@,
            out@ == a@ + b@.take(i as int),
        decreases cs.len() - i,
    {
        out.push(cs[i]);
        i = i + 1;
        assert(b@.take(i as int) == b@.take(i - 1).push(b@[i - 1]));
    }
    assert(b@.take(i as int) == b@);
    out
}

// ---------------------------------------------------------------------
// Trimming
// ---------------------------------------------------------------------

/// `s` without its leading white space.
pub open spec fn trim_start(s: Seq<char>) -> Seq<char>
    decreases s.len(),
{
    if s.len() > 0 && is_white_space(s[0]) {
        trim_start(s.skip(1))
    } else {
        s
    }
}

/// `s` without its trailing white space.
pub open spec fn trim_end(s: Seq<char>) -> Seq<char>
    decreases s.len(),
{
    if s.len() > 0 && is_white_space(s.last()) {
        trim_end(s.drop_last())
    } else {
        s
    }
}

/// `s` without white space at either end.
pub open spec fn trimmed(s: Seq<char>) -> Seq<char> {
    trim_end(trim_start(s))
}

pub fn trim(s: &str) -> (r: String)
    ensures
        r@ == trimmed(s@),
{
    let cs: Vec<char> = chars_of(s);
    let mut i: usize = 0;
    assert(s@.skip(0) == s@);
    while i < cs.len() && white_space(cs[i])
        invariant
            i <= cs.len(),
            cs@ == s@,
            trim_start(s@) == trim_start(s@.skip(i as int)),
        decreases cs.len() - i,
    {
        assert(s@.skip(i as int).skip(1) == s@.skip(i + 1));
        i = i + 1;
    }
    let mut j: usize = cs.len();
    assert(s@.subrange(i as int, j as int) == s@.skip(i as int));
    while j > i && white_space(cs[j - 1])
        invariant
            i <= j <= cs.len(),
            cs@ == s@,
            trim_end(s@.skip(i as int)) == trim_end(s@.subrange(i as int, j as int)),
        decreases j,
    {
        assert(s@.subrange(i as int, j as int).drop_last() == s@.subrange(i as int, j - 1));
        j = j - 1;
    }
    string_of(&cs, i, j)
}

// ---------------------------------------------------------------------
// Prefixes and substrings
// ---------------------------------------------------------------------

/// Whether `p` is the beginning of `s`.
pub open spec fn starts(s: Seq<char>, p: Seq<char>) -> bool {
    p.len() <= s.len() && s.take(p.len() as int) == p
}

/// `p` stands in `cs` at position `at`.
fn stands_at(cs: &Vec<char>, p: &Vec<char>, at: usize) -> (r: bool)
    requires
        at + p.len() <= cs.len(),
    ensures
        r == (cs@.subrange(at as int, at + p.len()) == p@),
{
    let mut i: usize = 0;
    while i < p.len()
        invariant
            i <= p.len(),
            at + p.len() <= cs.len(),
            forall|k: int| 0 <= k < i ==> cs@[at + k] == p@[k],
        decreases p.len() - i,
    {
        if cs[at + i] != p[i] {
            assert(cs@.subrange(at as int, at + p.len())[i as int] != p@[i as int]);
            return false;
        }
        i = i + 1;
    }
    assert(cs@.subrange(at as int, at + p.len()) =~= p@);
    true
}

pub fn starts_with(s: &str, p: &str) -> (r: bool)
    ensures
        r == starts(s@, p@),
{
    let cs: Vec<char> = chars_of(s);
    let ps: Vec<char> = chars_of(p);
    if ps.len() > cs.len() {
        return false;
    }
    assert(s@.take(p@.len() as int) == s@.subrange(0, p@.len() as int));
    stands_at(&cs, &ps, 0)
}

/// What follows the prefix `p` of `s`, if `s` begins with it.
pub open spec fn after_prefix(s: Seq<char>, p: Seq<char>) -> Option<Seq<char>> {
    if starts(s, p) {
        Some(s.skip(p.len() as int))
    } else {
        None
    }
}

pub fn strip_prefix(s: &str, p: &str) -> (r: Option<String>)
    ensures
        r matches Some(t) ==> after_prefix(s@, p@) == Some(t@),
        r is None ==> after_prefix(s@, p@) is None,
{
    if starts_with(s, p) {
        let n: usize = s.unicode_len();
        let k: usize = p.unicode_len();
        assert(s@.subrange(k as int, n as int) == s@.skip(k as int));
        Some(slice(s, k, n))
    } else {
        None
    }
}

/// `s` with every leading repetition of `p` removed.
pub open spec fn without_prefixes(s: Seq<char>, p: Seq<char>) -> Seq<char>
    decreases s.len(),
{
    if p.len() > 0 && starts(s, p) {
        without_prefixes(s.skip(p.len() as int), p)
    } else {
        s
    }
}

pub fn trim_start_matches(s: &str, p: &str) -> (r: String)
    ensures
        r@ == without_prefixes(s@, p@),
{
    let cs: Vec<char> = chars_of(s);
    let ps: Vec<char> = chars_of(p);
    let mut i: usize = 0;
    assert(s@.skip(0) == s@);
    while ps.len() > 0 && ps.len() <= cs.len() - i && stands_at(&cs, &ps, i)
        invariant
            i <= cs.len(),
            cs@ == s@,
            ps@ == p@,
            without_prefixes(s@, p@) == without_prefixes(s@.skip(i as int), p@),
        decreases cs.len() - i,
    {
        proof {
            let rest = s@.skip(i as int);
            assert(rest.take(p@.len() as int) == s@.subrange(i as int, i + p@.len()));
            assert(rest.skip(p@.len() as int) == s@.skip(i + p@.len()));
        }
        i = i + ps.len();
    }
    proof {
        let rest = s@.skip(i as int);
        if starts(rest, p@) && p@.len() > 0 {
            assert(rest.take(p@.len() as int) == s@.subrange(i as int, i + p@.len()));
        }
        assert(s@.subrange(i as int, s@.len() as int) == rest);
    }
    string_of(&cs, i, cs.len())
}

/// Whether `p` stands somewhere in `s`.
pub open spec fn has_substring(s: Seq<char>, p: Seq<char>) -> bool {
    exists|i: int| 0 <= i && i + p.len() <= s.len() && #[trigger] s.subrange(i, i + p.len()) == p
}

pub fn contains(s: &str, p: &str) -> (r: bool)
    ensures
        r == has_substring(s@, p@),
{
    let cs: Vec<char> = chars_of(s);
    let ps: Vec<char> = chars_of(p);
    let mut i: usize = 0;
    while i <= cs.len() && ps.len() <= cs.len() - i
        invariant
            i <= cs.len() + 1,
            cs@ == s@,
            ps@ == p@,
            forall|k: int| 0 <= k < i ==> #[trigger] s@.subrange(k, k + p@.len()) != p@,
        decreases cs.len() + 1 - i,
    {
        if stands_at(&cs, &ps, i) {
            return true;
        }
        if i == cs.len() {
            return false;
        }
        i = i + 1;
    }
    false
}

// ---------------------------------------------------------------------
// Splitting
// ---------------------------------------------------------------------

/// The pieces of `s` between the characters that satisfy `sep`.
pub open spec fn split(s: Seq<char>, sep: spec_fn(char) -> bool) -> Seq<Seq<char>>
    decreases s.len(),
{
    if s.len() == 0 {
        seq![Seq::empty()]
    } else {
        let pieces = split(s.drop_last(), sep);
        if sep(s.last()) {
            pieces.push(Seq::empty())
        } else {
            pieces.drop_last().push(pieces.last().push(s.last()))
        }
    }
}

pub proof fn lemma_split_not_empty(s: Seq<char>, sep: spec_fn(char) -> bool)
    ensures
        split(s, sep).len() > 0,
    decreases s.len(),
{
    if s.len() > 0 {
        lemma_split_not_empty(s.drop_last(), sep);
    }
}

/// The pieces of `s` between the occurrences of `c`.
pub open spec fn split_on(s: Seq<char>, c: char) -> Seq<Seq<char>> {
    split(s, |x: char| x == c)
}

pub fn split_char(s: &str, c: char) -> (r: Vec<String>)
    ensures
        views(r@) == split_on(s@, c),
{
    let cs: Vec<char> = chars_of(s);
    let mut out: Vec<String> = Vec::new();
    let mut cur: String = String::new();
    let mut i: usize = 0;
    while i < cs.len()
        invariant
            i <= cs.len(),
            cs@ == s@,
            split_on(s@.take(i as int), c) == views(out@).push(cur@),
        decreases cs.len() - i,
    {
        let x: char = cs[i];
        assert(s@.take(i + 1).drop_last() == s@.take(i as int));
        assert(s@.take(i + 1).last() == x);
        let ghost before = views(out@);
        if x == c {
            out.push(cur);
            cur = String::new();
            assert(views(out@) == before.push(out@.last()@));
        } else {
            cur.push(x);
        }
        i = i + 1;
    }
    assert(s@.take(i as int) == s@);
    let ghost before = views(out@);
    out.push(cur);
    assert(views(out@) == before.push(out@.last()@));
    out
}

/// The non-empty members of `pieces`, in order.
pub open spec fn non_empty(pieces: Seq<Seq<char>>) -> Seq<Seq<char>>
    decreases pieces.len(),
{
    if pieces.len() == 0 {
        Seq::empty()
    } else {
        let r = non_empty(pieces.drop_last());
        if pieces.last().len() > 0 {
            r.push(pieces.last())
        } else {
            r
        }
    }
}

/// The words of `s`: its pieces between white space, without empty ones.
pub open spec fn words(s: Seq<char>) -> Seq<Seq<char>> {
    non_empty(split(s, |c: char| is_white_space(c)))
}

pub fn split_whitespace(s: &str) -> (r: Vec<String>)
    ensures
        views(r@) == words(s@),
{
    let cs: Vec<char> = chars_of(s);
    let mut out: Vec<String> = Vec::new();
    let mut cur: String = String::new();
    let mut i: usize = 0;
    let ghost sep = |x: char| is_white_space(x);
    proof {
        assert(split(s@.take(0), sep) == seq![Seq::<char>::empty()]);
        assert(split(s@.take(0), sep).drop_last() == Seq::<Seq<char>>::empty());
    }
    while i < cs.len()
        invariant
            i <= cs.len(),
            cs@ == s@,
            sep == (|x: char| is_white_space(x)),
            split(s@.take(i as int), sep).len() > 0,
            split(s@.take(i as int), sep).last() == cur@,
            views(out@) == non_empty(split(s@.take(i as int), sep).drop_last()),
        decreases cs.len() - i,
    {
        let x: char = cs[i];
        let ghost pieces = split(s@.take(i as int), sep);
        let ghost next = split(s@.take(i + 1), sep);
        assert(s@.take(i + 1).drop_last() == s@.take(i as int));
        assert(s@.take(i + 1).last() == x);
        if white_space(x) {
            assert(next.drop_last() == pieces);
            if cur.as_str().unicode_len() > 0 {
                let ghost before = views(out@);
                out.push(cur);
                assert(views(out@) == before.push(out@.last()@));
            }
            cur = String::new();
        } else {
            assert(next.drop_last() == pieces.drop_last());
            cur.push(x);
        }
        i = i + 1;
    }
    assert(s@.take(i as int) == s@);
    if cur.as_str().unicode_len() > 0 {
        let ghost before = views(out@);
        out.push(cur);
        assert(views(out@) == before.push(out@.last()@));
    }
    out
}

/// A line without the carriage return that stood before its line feed.
pub open spec fn without_return(line: Seq<char>) -> Seq<char> {
    if line.len() > 0 && line.last() == '\r' {
        line.drop_last()
    } else {
        line
    }
}

/// The lines of `s`: each ended by a line feed, or by a carriage return and
/// a line feed; the end of the last line is optional.
pub open spec fn lines_of(s: Seq<char>) -> Seq<Seq<char>> {
    let pieces = split_on(s, '\n');
    let ended = Seq::new(
        (pieces.len() - 1) as nat,
        |i: int| without_return(pieces[i]),
    );
    if pieces.last().len() > 0 {
        ended.push(pieces.last())
    } else {
        ended
    }
}

pub fn lines(s: &str) -> (r: Vec<String>)
    ensures
        views(r@) == lines_of(s@),
{
    let pieces: Vec<String> = split_char(s, '\n');
    proof {
        lemma_split_not_empty(s@, |x: char| x == '\n');
        assert(views(pieces@).len() == pieces@.len());
    }
    let mut out: Vec<String> = Vec::new();
    let mut i: usize = 0;
    while i + 1 < pieces.len()
        invariant
            i < pieces.len(),
            views(pieces@) == split_on(s@, '\n'),
            views(out@) == Seq::new(
                i as nat,
                |k: int| without_return(split_on(s@, '\n')[k]),
            ),
        decreases pieces.len() - i,
    {
        let p: &str = pieces[i].as_str();
        let n: usize = p.unicode_len();
        let ghost before = views(out@);
        assert(views(pieces@)[i as int] == p@);
        if n > 0 && p.get_char(n - 1) == '\r' {
            assert(p@.subrange(0, n - 1) == p@.drop_last());
            out.push(slice(p, 0, n - 1));
        } else {
            out.push(p.to_owned());
        }
        assert(views(out@) == before.push(out@.last()@));
        i = i + 1;
    }
    assert(views(pieces@)[i as int] == pieces@[i as int]@);
    if pieces[i].as_str().unicode_len() > 0 {
        let ghost before = views(out@);
        out.push(pieces[i].clone());
        assert(views(out@) == before.push(out@.last()@));
    }
    out
}

/// `parts` one after another, with `sep` between neighbours.
pub open spec fn joined_with(parts: Seq<Seq<char>>, sep: Seq<char>) -> Seq<char>
    decreases parts.len(),
{
    if parts.len() == 0 {
        Seq::empty()
    } else if parts.len() == 1 {
        parts[0]
    } else {
        joined_with(parts.drop_last(), sep) + sep + parts.last()
    }
}

pub fn join_from(parts: &Vec<String>, from: usize, sep: &str) -> (r: String)
    requires
        from <= parts.len(),
    ensures
        r@ == joined_with(views(parts@).skip(from as int), sep@),
{
    let mut out: String = String::new();
    let mut i: usize = from;
    let ghost all = views(parts@).skip(from as int);
    assert(all.take(0) == Seq::<Seq<char>>::empty());
    while i < parts.len()
        invariant
            from <= i <= parts.len(),
            all == views(parts@).skip(from as int),
            out@ == joined_with(all.take(i - from), sep@),
        decreases parts.len() - i,
    {
        assert(all.take(i - from + 1).drop_last() == all.take(i - from));
        assert(all.take(i - from + 1).last() == parts@[i as int]@);
        if i == from {
            out = parts[i].clone();
        } else {
            out = joined(joined(out.as_str(), sep).as_str(), parts[i].as_str());
        }
        i = i + 1;
    }
    assert(all.take(i - from) == all);
    out
}

// ---------------------------------------------------------------------
// ASCII case
// ---------------------------------------------------------------------

/// The lower-case form of an ASCII letter; any other character itself.
pub open spec fn ascii_lower(c: char) -> char {
    if 'A' <= c && c <= 'Z' {
        (c as u8 + 32) as char
    } else {
        c
    }
}

pub fn lower(c: char) -> (r: char)
    ensures
        r == ascii_lower(c),
{
    if 'A' <= c && c <= 'Z' {
        (c as u8 + 32) as char
    } else {
        c
    }
}

/// Whether `a` and `b` differ in the case of ASCII letters at most.
pub open spec fn same_but_case(a: Seq<char>, b: Seq<char>) -> bool {
    a.len() == b.len() && forall|i: int|
        0 <= i < a.len() ==> ascii_lower(#[trigger] a[i]) == ascii_lower(b[i])
}

pub fn eq_ignore_ascii_case(a: &str, b: &str) -> (r: bool)
    ensures
        r == same_but_case(a@, b@),
{
    let x: Vec<char> = chars_of(a);
    let y: Vec<char> = chars_of(b);
    if x.len() != y.len() {
        return false;
    }
    let mut i: usize = 0;
    while i < x.len()
        invariant
            i <= x.len() == y.len(),
            x@ == a@,
            y@ == b@,
            forall|k: int| 0 <= k < i ==> ascii_lower(#[trigger] a@[k]) == ascii_lower(b@[k]),
        decreases x.len() - i,
    {
        if lower(x[i]) != lower(y[i]) {
            assert(ascii_lower(a@[i as int]) != ascii_lower(b@[i as int]));
            return false;
        }
        i = i + 1;
    }
    true
}

/// `String::from_utf8_lossy`: the text of bytes, with a replacement character
/// for what is no UTF-8.
pub uninterp spec fn lossy_text(bytes: Seq<u8>) -> Seq<char>;

/// `String::from_utf8_lossy`: the result depends on the bytes alone and is
/// what `lossy_text` names.
#[verifier::external_body]
pub(crate) fn from_utf8_lossy(bytes: &[u8]) -> (r: String)
    ensures
        r@ == lossy_text(bytes@),
{
    String::from_utf8_lossy(bytes).into_owned()
}

/// `std::str::from_utf8`: succeeds on valid UTF-8, and the text is then the
/// one that the bytes encode.
#[verifier::external_body]
pub(crate) fn from_utf8(bytes: &[u8]) -> (r: Option<String>)
    ensures
        r is Some == vstd::utf8::valid_utf8(bytes@),
        r matches Some(s) ==> s@ == vstd::utf8::decode_utf8(bytes@),
{
    std::str::from_utf8(bytes).ok().map(str::to_owned)
}

/// The text of UTF-16 code units: a high surrogate and the low one behind it
/// are one character, and a surrogate without the other half becomes the
/// replacement character.
pub open spec fn lossy_utf16(units: Seq<u16>) -> Seq<char>
    decreases units.len(),
{
    if units.len() == 0 {
        Seq::empty()
    } else if units[0] < 0xD800 || 0xDFFF < units[0] {
        seq![units[0] as char] + lossy_utf16(units.skip(1))
    } else if units[0] < 0xDC00 && units.len() > 1 && 0xDC00 <= units[1] <= 0xDFFF {
        seq![(0x10000 + (units[0] - 0xD800) * 0x400 + (units[1] - 0xDC00)) as char]
            + lossy_utf16(units.skip(2))
    } else {
        seq!['\u{FFFD}'] + lossy_utf16(units.skip(1))
    }
}

/// `String::from_utf16_lossy` decodes UTF-16 code units, with the replacement
/// character for invalid data.
#[verifier::external_body]
pub(crate) fn from_utf16_lossy(units: &[u16]) -> (r: String)
    ensures
        r@ == lossy_utf16(units@),
{
    String::from_utf16_lossy(units)
}

// ---------------------------------------------------------------------
// What the operations keep
// ---------------------------------------------------------------------

/// Among the ASCII characters, white space is the blank and the control
/// characters from tab to carriage return; the blanks beyond ASCII are the
/// next-line, no-break, Ogham, en to hair, line and paragraph, narrow,
/// mathematical and ideographic ones.
pub proof fn law_blanks_are_white_space(c: char)
    ensures
        (c as u32) < 0x80 ==> is_white_space(c) == (c == ' ' || c == '\t' || c == '\n' || c == '\r'
            || c == '\u{b}' || c == '\u{c}'),
        c == '\u{85}' || c == '\u{a0}' || c == '\u{1680}' || c == '\u{2028}' || c == '\u{2029}' || c
            == '\u{202f}' || c == '\u{205f}' || c == '\u{3000}' ==> is_white_space(c),
        '\u{2000}' <= c && c <= '\u{200a}' ==> is_white_space(c),
        '\u{a1}' <= c && c < '\u{1680}' ==> !is_white_space(c),
        '\u{3001}' <= c ==> !is_white_space(c),
        c == '\u{200b}' || c == '\u{feff}' || c == '\u{180e}' ==> !is_white_space(c),
{
}

proof fn lemma_trim_start_cuts(s: Seq<char>) -> (k: int)
    ensures
        0 <= k <= s.len(),
        trim_start(s) == s.skip(k),
        forall|i: int| 0 <= i < k ==> is_white_space(#[trigger] s[i]),
        k < s.len() ==> !is_white_space(s[k]),
    decreases s.len(),
{
    if s.len() > 0 && is_white_space(s[0]) {
        let k = lemma_trim_start_cuts(s.skip(1));
        assert(s.skip(1).skip(k) =~= s.skip(k + 1));
        assert forall|i: int| 0 <= i < k + 1 implies is_white_space(#[trigger] s[i]) by {
            if i > 0 {
                assert(s[i] == s.skip(1)[i - 1]);
            }
        }
        k + 1
    } else {
        assert(s.skip(0) =~= s);
        0
    }
}

proof fn lemma_trim_end_cuts(s: Seq<char>) -> (k: int)
    ensures
        0 <= k <= s.len(),
        trim_end(s) == s.take(k),
        forall|i: int| k <= i < s.len() ==> is_white_space(#[trigger] s[i]),
        k > 0 ==> !is_white_space(s[k - 1]),
    decreases s.len(),
{
    if s.len() > 0 && is_white_space(s.last()) {
        let k = lemma_trim_end_cuts(s.drop_last());
        assert(s.drop_last().take(k) =~= s.take(k));
        assert forall|i: int| k <= i < s.len() implies is_white_space(#[trigger] s[i]) by {
            if i < s.len() - 1 {
                assert(s[i] == s.drop_last()[i]);
            }
        }
        k
    } else {
        assert(s.take(s.len() as int) =~= s);
        s.len() as int
    }
}

/// Trimming takes away all the white space at both ends and nothing else.
pub proof fn law_trimming_cuts_the_ends(s: Seq<char>) -> (cut: (int, int))
    ensures
        0 <= cut.0 <= cut.1 <= s.len(),
        trimmed(s) == s.subrange(cut.0, cut.1),
        forall|i: int| 0 <= i < cut.0 ==> is_white_space(#[trigger] s[i]),
        forall|i: int| cut.1 <= i < s.len() ==> is_white_space(#[trigger] s[i]),
        cut.0 < cut.1 ==> !is_white_space(s[cut.0]) && !is_white_space(s[cut.1 - 1]),
{
    let from = lemma_trim_start_cuts(s);
    let rest = s.skip(from);
    let len = lemma_trim_end_cuts(rest);
    assert(rest.take(len) =~= s.subrange(from, from + len));
    assert forall|i: int| from + len <= i < s.len() implies is_white_space(#[trigger] s[i]) by {
        assert(s[i] == rest[i - from]);
    }
    if len > 0 {
        assert(rest[len - 1] == s[from + len - 1]);
    }
    (from, from + len)
}

/// What stands behind a prefix is found, and a text without the prefix has
/// nothing behind it.
pub proof fn law_rest_stands_behind_the_prefix(p: Seq<char>, rest: Seq<char>, s: Seq<char>)
    ensures
        after_prefix(p + rest, p) == Some(rest),
        after_prefix(s, p) matches Some(t) ==> s == p + t,
        starts(p + rest, p),
        p.len() > 0 ==> without_prefixes(p + rest, p) == without_prefixes(rest, p),
        p.len() > 0 && s.len() < p.len() ==> without_prefixes(s, p) == s,
        (exists|i: int| 0 <= i < p.len() && i < s.len() && s[i] != #[trigger] p[i])
            ==> without_prefixes(s, p) == s && after_prefix(s, p) is None,
{
    assert((p + rest).take(p.len() as int) =~= p);
    assert((p + rest).skip(p.len() as int) =~= rest);
    if starts(s, p) {
        assert(s =~= p + s.skip(p.len() as int));
        assert forall|i: int| 0 <= i < p.len() implies s[i] == #[trigger] p[i] by {
            assert(s.take(p.len() as int)[i] == p[i]);
        }
    }
}

/// Once the prefixes are gone, none stands at the front.
pub proof fn law_no_prefix_is_left(s: Seq<char>, p: Seq<char>)
    requires
        p.len() > 0,
    ensures
        !starts(without_prefixes(s, p), p),
    decreases s.len(),
{
    if starts(s, p) {
        law_no_prefix_is_left(s.skip(p.len() as int), p);
    }
}

/// Joined by the separator again, the pieces are the text, and no piece holds
/// a separator.
pub proof fn law_pieces_make_up_the_text(s: Seq<char>, c: char)
    ensures
        split_on(s, c).len() > 0,
        joined_with(split_on(s, c), seq![c]) == s,
        forall|i: int| 0 <= i < split_on(s, c).len() ==> !(#[trigger] split_on(s, c)[i]).contains(c),
    decreases s.len(),
{
    let sep = |x: char| x == c;
    let pieces = split_on(s, c);
    if s.len() == 0 {
        assert(s =~= Seq::<char>::empty());
        assert(pieces[0] == Seq::<char>::empty());
    } else {
        law_pieces_make_up_the_text(s.drop_last(), c);
        let front = split_on(s.drop_last(), c);
        if s.last() == c {
            assert(pieces == front.push(Seq::empty()));
            assert(pieces.drop_last() =~= front);
            assert(s =~= s.drop_last() + seq![c] + Seq::<char>::empty());
            assert forall|i: int| 0 <= i < pieces.len() implies !(#[trigger] pieces[i]).contains(
                c,
            ) by {
                if i < front.len() {
                    assert(pieces[i] == front[i]);
                }
            }
        } else {
            let last = front.last().push(s.last());
            assert(pieces == front.drop_last().push(last));
            assert(pieces.drop_last() =~= front.drop_last());
            if front.len() == 1 {
                assert(pieces[0] == last);
                assert(s =~= s.drop_last().push(s.last()));
            } else {
                let head = joined_with(front.drop_last(), seq![c]) + seq![c];
                assert(s.drop_last() == head + front.last());
                assert(s =~= s.drop_last().push(s.last()));
                assert((head + front.last()).push(s.last()) =~= head + last);
            }
            assert forall|i: int| 0 <= i < pieces.len() implies !(#[trigger] pieces[i]).contains(
                c,
            ) by {
                if i < front.len() - 1 {
                    assert(pieces[i] == front[i]);
                } else {
                    assert(!front[front.len() - 1].contains(c));
                    if last.contains(c) {
                        let k = choose|k: int| 0 <= k < last.len() && last[k] == c;
                        if k < front.last().len() {
                            assert(front.last()[k] == c);
                        }
                    }
                }
            }
        }
    }
}

proof fn lemma_split_at_separator(
    a: Seq<char>,
    c: char,
    b: Seq<char>,
    sep: spec_fn(char) -> bool,
)
    requires
        sep(c),
    ensures
        split(a + seq![c] + b, sep) == split(a, sep) + split(b, sep),
    decreases b.len(),
{
    let s = a + seq![c] + b;
    if b.len() == 0 {
        assert(s.drop_last() =~= a);
        assert(split(s, sep) =~= split(a, sep) + split(b, sep));
    } else {
        assert(s.drop_last() =~= a + seq![c] + b.drop_last());
        lemma_split_at_separator(a, c, b.drop_last(), sep);
        lemma_split_not_empty(b.drop_last(), sep);
        let whole = split(a, sep) + split(b.drop_last(), sep);
        assert(whole.last() == split(b.drop_last(), sep).last());
        assert(whole.drop_last() =~= split(a, sep) + split(b.drop_last(), sep).drop_last());
        assert(split(s, sep) =~= split(a, sep) + split(b, sep));
    }
}

proof fn lemma_split_without_separator(s: Seq<char>, sep: spec_fn(char) -> bool)
    requires
        forall|i: int| 0 <= i < s.len() ==> !sep(#[trigger] s[i]),
    ensures
        split(s, sep) == seq![s],
    decreases s.len(),
{
    if s.len() == 0 {
        assert(s =~= Seq::<char>::empty());
        assert(split(s, sep) =~= seq![s]);
    } else {
        lemma_split_without_separator(s.drop_last(), sep);
        assert(s.drop_last().push(s.last()) =~= s);
        assert(split(s, sep) =~= seq![s]);
    }
}

proof fn lemma_non_empty_concat(a: Seq<Seq<char>>, b: Seq<Seq<char>>)
    ensures
        non_empty(a + b) == non_empty(a) + non_empty(b),
    decreases b.len(),
{
    if b.len() == 0 {
        assert(a + b =~= a);
        assert(non_empty(a) + non_empty(b) =~= non_empty(a));
    } else {
        assert((a + b).drop_last() =~= a + b.drop_last());
        lemma_non_empty_concat(a, b.drop_last());
        assert(non_empty(a + b) =~= non_empty(a) + non_empty(b));
    }
}

/// A text without white space is one word, white space parts the words before
/// it from those behind it, and a blank text has none.
pub proof fn law_words_stand_between_white_space(a: Seq<char>, c: char, b: Seq<char>)
    requires
        is_white_space(c),
    ensures
        words(a + seq![c] + b) == words(a) + words(b),
        words(Seq::<char>::empty()).len() == 0,
        a.len() > 0 && (forall|i: int| 0 <= i < a.len() ==> !is_white_space(#[trigger] a[i]))
            ==> words(a) == seq![a],
{
    let sep = |x: char| is_white_space(x);
    lemma_split_at_separator(a, c, b, sep);
    lemma_non_empty_concat(split(a, sep), split(b, sep));
    let none = Seq::<char>::empty();
    lemma_split_without_separator(none, sep);
    assert(seq![none].drop_last() =~= Seq::<Seq<char>>::empty());
    assert(non_empty(seq![none]) =~= Seq::<Seq<char>>::empty()) by {
        reveal_with_fuel(non_empty, 2);
    }
    if a.len() > 0 && (forall|i: int| 0 <= i < a.len() ==> !is_white_space(#[trigger] a[i])) {
        lemma_split_without_separator(a, sep);
        assert(seq![a].drop_last() =~= Seq::<Seq<char>>::empty());
        assert(non_empty(seq![a]) =~= seq![a]) by {
            reveal_with_fuel(non_empty, 2);
        }
    }
}

proof fn lemma_split_on_first(a: Seq<char>, c: char, b: Seq<char>)
    requires
        !a.contains(c),
    ensures
        split_on(a, c) == seq![a],
        split_on(a + seq![c] + b, c) == seq![a] + split_on(b, c),
        split_on(b, c).len() > 0,
    decreases a.len() + b.len(),
{
    let s = a + seq![c] + b;
    law_pieces_make_up_the_text(b, c);
    if b.len() > 0 {
        assert(s.drop_last() =~= a + seq![c] + b.drop_last());
        lemma_split_on_first(a, c, b.drop_last());
        let rest = split_on(b.drop_last(), c);
        let whole = seq![a] + rest;
        assert(whole.last() == rest.last());
        assert(whole.drop_last() =~= seq![a] + rest.drop_last());
        assert(split_on(s, c) =~= seq![a] + split_on(b, c));
    } else {
        assert(b =~= Seq::<char>::empty());
        assert(s.drop_last() =~= a);
        if a.len() > 0 {
            let front = a.drop_last();
            assert forall|k: int| 0 <= k < front.len() implies front[k] != c by {
                assert(a.contains(a[k]));
            }
            lemma_split_on_first(front, c, b);
            assert(a.contains(a.last()));
            assert(front.push(a.last()) =~= a);
            assert(split_on(a, c) =~= seq![a]);
        } else {
            assert(a =~= Seq::<char>::empty());
            assert(split_on(a, c) =~= seq![a]);
        }
        assert(split_on(s, c) =~= seq![a] + split_on(b, c));
    }
}

/// The first piece goes to the first separator, and the others are the pieces
/// of the rest.
pub proof fn law_first_piece_goes_to_the_separator(a: Seq<char>, c: char, b: Seq<char>)
    requires
        !a.contains(c),
    ensures
        split_on(a, c) == seq![a],
        split_on(a + seq![c] + b, c) == seq![a] + split_on(b, c),
{
    lemma_split_on_first(a, c, b);
}

/// The first line goes to the first line feed, without a carriage return right
/// before it; the others are the lines of the rest. Text that no line feed
/// ends is a line too, unless it is empty.
pub proof fn law_lines_end_at_line_feeds(a: Seq<char>, b: Seq<char>)
    requires
        !a.contains('\n'),
    ensures
        lines_of(a + seq!['\n'] + b) == seq![
            if a.len() > 0 && a.last() == '\r' {
                a.drop_last()
            } else {
                a
            },
        ] + lines_of(b),
        lines_of(a) == (if a.len() > 0 {
            seq![a]
        } else {
            Seq::empty()
        }),
{
    lemma_split_on_first(a, '\n', b);
    let rest = split_on(b, '\n');
    let all = split_on(a + seq!['\n'] + b, '\n');
    assert(all == seq![a] + rest);
    assert(all.last() == rest.last());
    assert forall|i: int| 1 <= i < all.len() implies #[trigger] all[i] == rest[i - 1] by {}
    assert(lines_of(a + seq!['\n'] + b) =~= seq![without_return(a)] + lines_of(b));
    assert(split_on(a, '\n') == seq![a]);
    assert(lines_of(a) =~= if a.len() > 0 {
        seq![a]
    } else {
        Seq::empty()
    });
}

/// One part joined is itself, and each further part follows a separator.
pub proof fn law_parts_are_joined_by_the_separator(
    parts: Seq<Seq<char>>,
    part: Seq<char>,
    sep: Seq<char>,
)
    ensures
        joined_with(seq![part], sep) == part,
        parts.len() > 0 ==> joined_with(parts.push(part), sep) == joined_with(parts, sep) + sep
            + part,
{
    assert(parts.push(part).drop_last() =~= parts);
}

/// Only the letters from A to Z change, to the small letter of the same place
/// in the alphabet.
pub proof fn law_lower_case_keeps_the_letter(c: char)
    ensures
        'A' <= c && c <= 'Z' ==> ascii_lower(c) as u32 - 'a' as u32 == c as u32 - 'A' as u32,
        !('A' <= c && c <= 'Z') ==> ascii_lower(c) == c,
{
}

/// A text is found inside another exactly where it stands between two rests.
pub proof fn law_substring_stands_between_rests(a: Seq<char>, p: Seq<char>, b: Seq<char>)
    ensures
        has_substring(a + p + b, p),
        p.len() > a.len() ==> !has_substring(a, p),
{
    let s = a + p + b;
    assert(s.subrange(a.len() as int, a.len() as int + p.len()) =~= p);
}

/// A separator parts the pieces before it from those behind it.
pub proof fn law_separator_parts_the_pieces(a: Seq<char>, c: char, b: Seq<char>)
    ensures
        split_on(a + seq![c] + b, c) == split_on(a, c) + split_on(b, c),
    decreases b.len(),
{
    let s = a + seq![c] + b;
    if b.len() == 0 {
        assert(b =~= Seq::<char>::empty());
        assert(s.drop_last() =~= a);
        assert(split_on(s, c) =~= split_on(a, c) + split_on(b, c));
    } else {
        assert(s.drop_last() =~= a + seq![c] + b.drop_last());
        law_separator_parts_the_pieces(a, c, b.drop_last());
        law_pieces_make_up_the_text(b.drop_last(), c);
        let rest = split_on(b.drop_last(), c);
        let whole = split_on(a, c) + rest;
        assert(whole.last() == rest.last());
        assert(whole.drop_last() =~= split_on(a, c) + rest.drop_last());
        assert(split_on(s, c) =~= split_on(a, c) + split_on(b, c));
    }
}

/// What stands behind the last of several separators is the last piece.
pub proof fn law_last_piece_stands_behind_the_separator(
    a: Seq<char>,
    c: char,
    b: Seq<char>,
    sep: spec_fn(char) -> bool,
)
    requires
        sep(c),
        forall|i: int| 0 <= i < b.len() ==> !sep(#[trigger] b[i]),
    ensures
        split(a + seq![c] + b, sep).last() == b,
        split(b, sep).last() == b,
{
    lemma_split_at_separator(a, c, b, sep);
    lemma_split_without_separator(b, sep);
}

/// A unit outside the surrogates is its own character, two surrogates in
/// order are one character, and a surrogate without its other half is shown
/// as the replacement character.
pub proof fn law_utf16_units_are_characters(u: u16, v: u16, rest: Seq<u16>)
    ensures
        !(0xD800 <= u <= 0xDFFF) ==> lossy_utf16(seq![u] + rest) == seq![u as char] + lossy_utf16(
            rest,
        ),
        0xD800 <= u <= 0xDBFF && 0xDC00 <= v <= 0xDFFF ==> lossy_utf16(seq![u, v] + rest) == seq![
            (0x10000 + (u - 0xD800) * 0x400 + (v - 0xDC00)) as char,
        ] + lossy_utf16(rest),
        0xDC00 <= u <= 0xDFFF ==> lossy_utf16(seq![u] + rest) == seq!['\u{FFFD}'] + lossy_utf16(
            rest,
        ),
        0xD800 <= u <= 0xDBFF && (rest.len() == 0 || !(0xDC00 <= rest[0] <= 0xDFFF))
            ==> lossy_utf16(seq![u] + rest) == seq!['\u{FFFD}'] + lossy_utf16(rest),
        lossy_utf16(Seq::<u16>::empty()).len() == 0,
{
    assert((seq![u] + rest).skip(1) =~= rest);
    assert((seq![u, v] + rest).skip(2) =~= rest);
    if rest.len() > 0 {
        assert((seq![u] + rest)[1] == rest[0]);
    }
}

} // verus!
