use vstd::prelude::*;

verus! {

/// Appends one character to a string (std `String::push`).
#[verifier::external_body]
pub(crate) fn push_char(s: &mut String, c: char)
    ensures
        final(s)@ == old(s)@.push(c),
{
    s.push(c);
}

/// The characters of `s`, one per slot.
pub fn chars_of(s: &str) -> (v: Vec<char>)
    ensures
        v@ == s@,
{
    let n = s.unicode_len();
    let mut v: Vec<char> = Vec::new();
    let mut i: usize = 0;
    while i < n
        invariant
            n == s@.len(),
            i <= n,
            v@ == s@.subrange(0, i as int),
        decreases n - i,
    {
        v.push(s.get_char(i));
        i = i + 1;
    }
    v
}

/// Appends `add` to `out`, character by character.
pub fn append_chars(out: &mut String, add: &Vec<char>, from: usize, to: usize)
    requires
        from <= to <= add.len(),
    ensures
        final(out)@ == old(out)@ + add@.subrange(from as int, to as int),
{
    let mut k = from;
    while k < to
        invariant
            from <= k <= to <= add.len(),
            out@ == old(out)@ + add@.subrange(from as int, k as int),
        decreases to - k,
    {
        push_char(out, add[k]);
        k = k + 1;
        assert(add@.subrange(from as int, k as int) =~= add@.subrange(from as int, (k - 1) as int).push(add@[k - 1]));
    }
}

/// Whether two strings hold the same characters.
pub fn text_eq(a: &str, b: &str) -> (r: bool)
    ensures
        r == (a@ == b@),
{
    let x = chars_of(a);
    let y = chars_of(b);
    if x.len() != y.len() {
        return false;
    }
    let mut k: usize = 0;
    while k < x.len()
        invariant
            x@ == a@,
            y@ == b@,
            x.len() == y.len(),
            k <= x.len(),
            forall|t: int| 0 <= t < k ==> x@[t] == y@[t],
        decreases x.len() - k,
    {
        if x[k] != y[k] {
            return false;
        }
        k = k + 1;
    }
    assert(x@ =~= y@);
    true
}

/// The characters that carry the Unicode `White_Space` property.
pub open spec fn is_white_space(c: char) -> bool {
    ||| '\u{9}' <= c <= '\u{d}'
    ||| c == ' '
    ||| c == '\u{85}'
    ||| c == '\u{a0}'
    ||| c == '\u{1680}'
    ||| '\u{2000}' <= c <= '\u{200a}'
    ||| c == '\u{2028}'
    ||| c == '\u{2029}'
    ||| c == '\u{202f}'
    ||| c == '\u{205f}'
    ||| c == '\u{3000}'
}

/// Whether `c` is white space (`char::is_whitespace`).
pub fn white_space(c: char) -> (r: bool)
    ensures
        r == is_white_space(c),
{
    ('\u{9}' <= c && c <= '\u{d}') || c == ' ' || c == '\u{85}' || c == '\u{a0}' || c == '\u{1680}'
        || ('\u{2000}' <= c && c <= '\u{200a}') || c == '\u{2028}' || c == '\u{2029}' || c
        == '\u{202f}' || c == '\u{205f}' || c == '\u{3000}'
}

/// `s` without its leading white space.
pub open spec fn trim_start_spec(s: Seq<char>) -> Seq<char>
    decreases s.len(),
{
    if s.len() > 0 && is_white_space(s[0]) {
        trim_start_spec(s.drop_first())
    } else {
        s
    }
}

/// `s` without its trailing white space.
pub open spec fn trim_end_spec(s: Seq<char>) -> Seq<char>
    decreases s.len(),
{
    if s.len() > 0 && is_white_space(s.last()) {
        trim_end_spec(s.drop_last())
    } else {
        s
    }
}

/// `s` without leading and trailing white space, as `str::trim` returns it.
pub open spec fn trim_spec(s: Seq<char>) -> Seq<char> {
    trim_end_spec(trim_start_spec(s))
}

/// Removes leading and trailing white space.
pub fn trim(s: &str) -> (r: String)
    ensures
        r@ == trim_spec(s@),
{
    let cs = chars_of(s);
    let n = cs.len();
    let mut i: usize = 0;
    assert(cs@.subrange(0, n as int) =~= cs@);
    while i < n && white_space(cs[i])
        invariant
            n == cs@.len(),
            i <= n,
            trim_start_spec(cs@) == trim_start_spec(cs@.subrange(i as int, n as int)),
        decreases n - i,
    {
        assert(cs@.subrange(i as int, n as int).drop_first() =~= cs@.subrange(i + 1, n as int));
        i = i + 1;
    }
    assert(trim_start_spec(cs@) == cs@.subrange(i as int, n as int));
    let mut j: usize = n;
    while j > i && white_space(cs[j - 1])
        invariant
            n == cs@.len(),
            i <= j <= n,
            trim_spec(cs@) == trim_end_spec(cs@.subrange(i as int, j as int)),
        decreases j,
    {
        assert(cs@.subrange(i as int, j as int).drop_last() =~= cs@.subrange(i as int, j - 1));
        j = j - 1;
    }
    let mut out = String::new();
    append_chars(&mut out, &cs, i, j);
    assert(out@ =~= cs@.subrange(i as int, j as int));
    out
}

/// ASCII upper-case letters mapped to lower case, every other character kept.
pub open spec fn ascii_lower(c: char) -> char {
    if 'A' <= c <= 'Z' {
        ((c as u32) + 32) as char
    } else {
        c
    }
}

fn to_ascii_lower(c: char) -> (r: char)
    ensures
        r == ascii_lower(c),
{
    if 'A' <= c && c <= 'Z' {
        let code: u8 = (c as u8) + 32;
        code as char
    } else {
        c
    }
}

/// Equal length, and equal character by character after ASCII lower-casing
/// (`str::eq_ignore_ascii_case`).
pub open spec fn eq_ignore_ascii_case_spec(a: Seq<char>, b: Seq<char>) -> bool {
    &&& a.len() == b.len()
    &&& forall|k: int| 0 <= k < a.len() ==> ascii_lower(#[trigger] a[k]) == ascii_lower(b[k])
}

/// Whether two strings match with ASCII case ignored.
pub fn eq_ignore_ascii_case(a: &str, b: &str) -> (r: bool)
    ensures
        r == eq_ignore_ascii_case_spec(a@, b@),
{
    let x = chars_of(a);
    let y = chars_of(b);
    if x.len() != y.len() {
        return false;
    }
    let mut k: usize = 0;
    while k < x.len()
        invariant
            x@ == a@,
            y@ == b@,
            x.len() == y.len(),
            k <= x.len(),
            forall|t: int| 0 <= t < k ==> ascii_lower(#[trigger] x@[t]) == ascii_lower(y@[t]),
        decreases x.len() - k,
    {
        if to_ascii_lower(x[k]) != to_ascii_lower(y[k]) {
            return false;
        }
        k = k + 1;
    }
    true
}


/// `n` occurs in `h` starting at position `i`.
pub open spec fn occurs_at(h: Seq<char>, n: Seq<char>, i: int) -> bool {
    &&& 0 <= i
    &&& i + n.len() <= h.len()
    &&& h.subrange(i, i + n.len()) == n
}

/// `n` occurs somewhere in `h` (`str::contains`).
pub open spec fn contains_spec(h: Seq<char>, n: Seq<char>) -> bool {
    exists|i: int| occurs_at(h, n, i)
}

fn matches_at(h: &Vec<char>, n: &Vec<char>, i: usize) -> (r: bool)
    ensures
        r == occurs_at(h@, n@, i as int),
{
    if i > h.len() || n.len() > h.len() - i {
        return false;
    }
    let mut k: usize = 0;
    while k < n.len()
        invariant
            i + n.len() <= h.len(),
            k <= n.len(),
            forall|t: int| 0 <= t < k ==> h@[i + t] == #[trigger] n@[t],
        decreases n.len() - k,
    {
        if h[i + k] != n[k] {
            assert(h@.subrange(i as int, i + n.len())[k as int] != n@[k as int]);
            return false;
        }
        k = k + 1;
    }
    assert(h@.subrange(i as int, i + n.len()) =~= n@);
    true
}

/// Whether `needle` occurs in `hay`.
pub fn contains(hay: &str, needle: &str) -> (r: bool)
    ensures
        r == contains_spec(hay@, needle@),
{
    let h = chars_of(hay);
    let n = chars_of(needle);
    if n.len() == 0 {
        assert(occurs_at(h@, n@, 0)) by {
            assert(h@.subrange(0, 0) =~= n@);
        }
        return true;
    }
    let mut i: usize = 0;
    while i < h.len()
        invariant
            h@ == hay@,
            n@ == needle@,
            n.len() > 0,
            i <= h.len(),
            forall|t: int| 0 <= t < i ==> !occurs_at(h@, n@, t),
        decreases h.len() - i,
    {
        if matches_at(&h, &n, i) {
            return true;
        }
        i = i + 1;
    }
    assert forall|t: int| !occurs_at(h@, n@, t) by {
        if 0 <= t < i {
        }
    }
    false
}

/// Every occurrence of `from` in `s`, taken left to right without overlap,
/// replaced by `to` (`str::replace` with a non-empty pattern).
pub open spec fn replace_spec(s: Seq<char>, from: Seq<char>, to: Seq<char>) -> Seq<char>
    decreases s.len(),
{
    if from.len() == 0 || s.len() < from.len() {
        s
    } else if s.subrange(0, from.len() as int) == from {
        to + replace_spec(s.subrange(from.len() as int, s.len() as int), from, to)
    } else {
        seq![s[0]] + replace_spec(s.drop_first(), from, to)
    }
}

/// Replaces every occurrence of `from` in `s` by `to`.
pub fn replace_all(s: &str, from: &str, to: &str) -> (r: String)
    requires
        from@.len() > 0,
    ensures
        r@ == replace_spec(s@, from@, to@),
{
    let h = chars_of(s);
    let f = chars_of(from);
    let t = chars_of(to);
    let n = h.len();
    let mut out = String::new();
    let mut i: usize = 0;
    assert(h@.subrange(0, n as int) =~= h@);
    while i < n && f.len() <= n - i
        invariant
            h@ == s@,
            f@ == from@,
            t@ == to@,
            n == h.len(),
            f.len() > 0,
            i <= n,
            replace_spec(h@, f@, t@) == out@ + replace_spec(h@.subrange(i as int, n as int), f@, t@),
        decreases n - i,
    {
        let rest = Ghost(h@.subrange(i as int, n as int));
        if matches_at(&h, &f, i) {
            assert(rest@.subrange(0, f.len() as int) =~= h@.subrange(i as int, i + f.len()));
            assert(rest@.subrange(f.len() as int, rest@.len() as int) =~= h@.subrange(i + f.len(), n as int));
            append_chars(&mut out, &t, 0, t.len());
            assert(t@.subrange(0, t.len() as int) =~= t@);
            i = i + f.len();
        } else {
            assert(rest@.subrange(0, f.len() as int) != f@) by {
                assert(rest@.subrange(0, f.len() as int) =~= h@.subrange(i as int, i + f.len()));
            }
            assert(rest@.drop_first() =~= h@.subrange(i + 1, n as int));
            push_char(&mut out, h[i]);
            i = i + 1;
        }
    }
    append_chars(&mut out, &h, i, n);
    out
}

/// Replacing a pattern that does not occur leaves the text as it is.
pub proof fn lemma_replace_absent(s: Seq<char>, from: Seq<char>, to: Seq<char>)
    requires
        from.len() > 0,
        !contains_spec(s, from),
    ensures
        replace_spec(s, from, to) == s,
    decreases s.len(),
{
    if s.len() >= from.len() {
        assert(!occurs_at(s, from, 0));
        let rest = s.drop_first();
        assert forall|i: int| !occurs_at(rest, from, i) by {
            if occurs_at(rest, from, i) {
                assert(s.subrange(i + 1, i + 1 + from.len()) =~= rest.subrange(i, i + from.len()));
                assert(occurs_at(s, from, i + 1));
            }
        }
        lemma_replace_absent(rest, from, to);
        assert(seq![s[0]] + rest =~= s);
    }
}

/// The parts after the first, each preceded by `sep`, in order.
pub open spec fn separated_tail(parts: Seq<Seq<char>>, sep: Seq<char>) -> Seq<char>
    decreases parts.len(),
{
    if parts.len() == 0 {
        Seq::empty()
    } else {
        separated_tail(parts.drop_last(), sep) + sep + parts.last()
    }
}

/// The parts joined with `sep` between each two (`[String]::join`).
pub open spec fn join_spec(parts: Seq<Seq<char>>, sep: Seq<char>) -> Seq<char> {
    if parts.len() == 0 {
        Seq::empty()
    } else {
        parts[0] + separated_tail(parts.drop_first(), sep)
    }
}

/// The views of a list of strings.
pub open spec fn string_views(v: Seq<String>) -> Seq<Seq<char>> {
    v.map_values(|p: String| p@)
}

/// Joins the parts with `sep` between each two.
pub fn join(parts: &Vec<String>, sep: &str) -> (r: String)
    ensures
        r@ == join_spec(string_views(parts@), sep@),
{
    let ghost views = string_views(parts@);
    if parts.len() == 0 {
        return String::new();
    }
    let mut out = parts[0].clone();
    let mut i: usize = 1;
    assert(views.drop_first().subrange(0, 0) =~= Seq::<Seq<char>>::empty());
    while i < parts.len()
        invariant
            views == string_views(parts@),
            1 <= i <= parts.len(),
            out@ == views[0] + separated_tail(views.drop_first().subrange(0, i - 1), sep@),
        decreases parts.len() - i,
    {
        out.append(sep);
        out.append(parts[i].as_str());
        assert(views.drop_first().subrange(0, i as int).drop_last() =~= views.drop_first().subrange(0, i - 1));
        i = i + 1;
    }
    assert(views.drop_first().subrange(0, parts.len() - 1) =~= views.drop_first());
    out
}

/// The lower-case hexadecimal digit of `d` (`0 <= d < 16`).
pub open spec fn hex_digit(d: int) -> char {
    if d < 10 {
        (d + 48) as char
    } else {
        (d + 87) as char
    }
}

/// The lower-case hexadecimal encoding of `b`, two digits per byte, high digit first.
pub open spec fn hex_spec(b: Seq<u8>) -> Seq<char> {
    Seq::new(
        2 * b.len(),
        |i: int|
            if i % 2 == 0 {
                hex_digit(b[i / 2] as int / 16)
            } else {
                hex_digit(b[i / 2] as int % 16)
            },
    )
}

fn hex_char(d: u8) -> (c: char)
    requires
        d < 16,
    ensures
        c == hex_digit(d as int),
{
    if d < 10 {
        (d + 48) as char
    } else {
        (d + 87) as char
    }
}

/// Encodes bytes in lower-case hexadecimal.
pub fn to_hex_lower(b: &[u8]) -> (r: String)
    ensures
        r@ == hex_spec(b@),
{
    let mut out = String::new();
    let mut i: usize = 0;
    while i < b.len()
        invariant
            i <= b.len(),
            out@ == hex_spec(b@.subrange(0, i as int)),
        decreases b.len() - i,
    {
        let byte = b[i];
        push_char(&mut out, hex_char(byte / 16));
        push_char(&mut out, hex_char(byte % 16));
        assert(out@ =~= hex_spec(b@.subrange(0, i + 1)));
        i = i + 1;
    }
    assert(b@.subrange(0, b.len() as int) =~= b@);
    out
}

proof fn lemma_hex_digit_injective(x: int, y: int)
    requires
        0 <= x < 16,
        0 <= y < 16,
        hex_digit(x) == hex_digit(y),
    ensures
        x == y,
{
    assert(hex_digit(x) as int == if x < 10 { x + 48 } else { x + 87 });
    assert(hex_digit(y) as int == if y < 10 { y + 48 } else { y + 87 });
}

/// Different byte strings have different hexadecimal encodings.
pub proof fn lemma_hex_injective(a: Seq<u8>, b: Seq<u8>)
    requires
        hex_spec(a) == hex_spec(b),
    ensures
        a == b,
{
    assert(a.len() == b.len()) by {
        assert(hex_spec(a).len() == 2 * a.len());
    }
    assert forall|k: int| 0 <= k < a.len() implies a[k] == b[k] by {
        assert((2 * k) / 2 == k);
        assert((2 * k + 1) / 2 == k);
        assert((2 * k) % 2 == 0);
        assert((2 * k + 1) % 2 == 1);
        assert(hex_spec(a)[2 * k] == hex_digit(a[k] as int / 16));
        assert(hex_spec(b)[2 * k] == hex_digit(b[k] as int / 16));
        assert(hex_spec(a)[2 * k + 1] == hex_digit(a[k] as int % 16));
        assert(hex_spec(b)[2 * k + 1] == hex_digit(b[k] as int % 16));
        lemma_hex_digit_injective(a[k] as int / 16, b[k] as int / 16);
        lemma_hex_digit_injective(a[k] as int % 16, b[k] as int % 16);
    }
    assert(a =~= b);
}

/// Every character of the encoding is a lower-case hexadecimal digit.
pub open spec fn is_lower_hex(s: Seq<char>) -> bool {
    forall|k: int| 0 <= k < s.len() ==> ('0' <= #[trigger] s[k] <= '9' || 'a' <= s[k] <= 'f')
}

/// Encodings consist of lower-case hexadecimal digits only.
pub proof fn lemma_hex_digits(b: Seq<u8>)
    ensures
        is_lower_hex(hex_spec(b)),
        hex_spec(b).len() == 2 * b.len(),
{
    assert forall|k: int| 0 <= k < hex_spec(b).len() implies ('0' <= #[trigger] hex_spec(b)[k] <= '9'
        || 'a' <= hex_spec(b)[k] <= 'f') by {
        let d = if k % 2 == 0 { b[k / 2] as int / 16 } else { b[k / 2] as int % 16 };
        assert(0 <= d < 16);
    }
}


/// `dir` extended by the path `comp`, by the rule that `Path::join` follows on Unix:
/// an absolute `comp` replaces `dir`; otherwise one `/` separates the two unless
/// `dir` is empty or already ends with one.
pub open spec fn join_path_spec(dir: Seq<char>, comp: Seq<char>) -> Seq<char> {
    if comp.len() > 0 && comp[0] == '/' {
        comp
    } else if dir.len() == 0 || dir.last() == '/' {
        dir + comp
    } else {
        dir + seq!['/'] + comp
    }
}

/// Extends the path `dir` by `comp`.
pub fn join_path(dir: &str, comp: &str) -> (r: String)
    ensures
        r@ == join_path_spec(dir@, comp@),
{
    let d = chars_of(dir);
    let c = chars_of(comp);
    let mut out = String::new();
    if c.len() > 0 && c[0] == '/' {
        append_chars(&mut out, &c, 0, c.len());
        assert(c@.subrange(0, c.len() as int) =~= c@);
        return out;
    }
    append_chars(&mut out, &d, 0, d.len());
    assert(d@.subrange(0, d.len() as int) =~= d@);
    if d.len() > 0 && d[d.len() - 1] != '/' {
        push_char(&mut out, '/');
    }
    append_chars(&mut out, &c, 0, c.len());
    assert(c@.subrange(0, c.len() as int) =~= c@);
    out
}

} // verus!
