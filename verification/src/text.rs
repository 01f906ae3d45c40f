//! Character-level text operations with exact specifications.
//!
//! Strings are modelled by their views, `Seq<char>`. Where the client
//! measures or slices text by bytes (as `str::len` and range indexing do),
//! the specifications go through `byte_len`, the length of the UTF-8
//! encoding.
use vstd::prelude::*;
use vstd::utf8::encode_utf8;

verus! {

/// Number of bytes in the UTF-8 encoding of `c`.
pub open spec fn char_width(c: char) -> nat {
    if (c as u32) <= 0x7F {
        1
    } else if (c as u32) <= 0x7FF {
        2
    } else if (c as u32) <= 0xFFFF {
        3
    } else {
        4
    }
}

/// Number of bytes in the UTF-8 encoding of `s` (what `str::len` returns).
pub open spec fn byte_len(s: Seq<char>) -> nat
    decreases s.len(),
{
    if s.len() == 0 {
        0
    } else {
        char_width(s[0]) + byte_len(s.drop_first())
    }
}

pub proof fn lemma_byte_len_concat(a: Seq<char>, b: Seq<char>)
    ensures
        byte_len(a + b) == byte_len(a) + byte_len(b),
    decreases a.len(),
{
    if a.len() == 0 {
        assert(a + b =~= b);
    } else {
        lemma_byte_len_concat(a.drop_first(), b);
        assert((a + b).drop_first() =~= a.drop_first() + b);
    }
}

/// Text of ASCII characters only, so that each character is one byte.
pub open spec fn is_ascii_text(s: Seq<char>) -> bool {
    forall|i: int| 0 <= i < s.len() ==> (#[trigger] s[i] as u32) <= 0x7F
}

pub(crate) proof fn lemma_ascii_byte_len(s: Seq<char>)
    requires
        is_ascii_text(s),
    ensures
        byte_len(s) == s.len(),
    decreases s.len(),
{
    if s.len() > 0 {
        assert((s[0] as u32) <= 0x7F);
        assert forall|i: int| 0 <= i < s.drop_first().len() implies (#[trigger] s.drop_first()[i]
            as u32) <= 0x7F by {
            assert(s.drop_first()[i] == s[i + 1]);
            assert((s[i + 1] as u32) <= 0x7F);
        }
        lemma_ascii_byte_len(s.drop_first());
    }
}

/// The first `n` bytes of ASCII text are its first `n` characters.
pub(crate) proof fn lemma_ascii_prefix_within_bytes(s: Seq<char>, n: int)
    requires
        is_ascii_text(s),
        n >= 0,
    ensures
        prefix_within_bytes(s, n) == s.take(if n < s.len() { n } else { s.len() as int }),
    decreases s.len(),
{
    if s.len() > 0 && n > 0 {
        assert((s[0] as u32) <= 0x7F);
        assert forall|i: int| 0 <= i < s.drop_first().len() implies (#[trigger] s.drop_first()[i]
            as u32) <= 0x7F by {
            assert(s.drop_first()[i] == s[i + 1]);
            assert((s[i + 1] as u32) <= 0x7F);
        }
        lemma_ascii_prefix_within_bytes(s.drop_first(), n - 1);
        let k = if n < s.len() { n } else { s.len() as int };
        assert(seq![s[0]] + s.drop_first().take(k - 1) =~= s.take(k));
    } else if s.len() > 0 {
        assert(s.take(0) =~= Seq::<char>::empty());
    } else {
        assert(s.take(0) =~= Seq::<char>::empty());
    }
}

/// `byte_len` is the length of the UTF-8 encoding that vstd gives `str`.
pub proof fn lemma_byte_len_is_utf8_len(s: Seq<char>)
    ensures
        byte_len(s) == encode_utf8(s).len(),
    decreases s.len(),
{
    if s.len() > 0 {
        lemma_byte_len_is_utf8_len(s.drop_first());
        vstd::utf8::char_is_scalar(s[0]);
        assert(encode_utf8(s) == vstd::utf8::encode_scalar(s[0] as u32) + encode_utf8(s.drop_first()));
    }
}

/// The number of bytes of `s`, as `str::len` gives it.
pub fn byte_length(s: &str) -> (n: usize)
    ensures
        n == byte_len(s@),
{
    proof {
        lemma_byte_len_is_utf8_len(s@);
    }
    let bytes = s.as_bytes();
    bytes.len()
}

/// The characters of `s`, in order.
pub fn chars_of(s: &str) -> (v: Vec<char>)
    ensures
        v@ == s@,
{
    let mut v: Vec<char> = Vec::new();
    for c in it: s.chars()
        invariant
            v@ == it.history(),
            it.seq() == s@,
    {
        v.push(c);
    }
    v
}

/// Appends one character to `s` (`String::push`).
#[verifier::external_body]
pub(crate) fn push_char(s: &mut String, c: char)
    ensures
        final(s)@ == old(s)@.push(c),
{
    s.push(c);
}

/// The string made of the characters of `v`.
pub fn string_from_chars(v: &[char]) -> (s: String)
    ensures
        s@ == v@,
{
    let mut s = String::new();
    let mut i: usize = 0;
    while i < v.len()
        invariant
            i <= v@.len(),
            s@ == v@.take(i as int),
        decreases v@.len() - i,
    {
        push_char(&mut s, v[i]);
        i = i + 1;
        assert(s@ =~= v@.take(i as int));
    }
    assert(v@.take(v@.len() as int) =~= v@);
    s
}

/// Whether two character sequences are equal.
pub fn chars_equal(a: &[char], b: &[char]) -> (r: bool)
    ensures
        r == (a@ == b@),
{
    if a.len() != b.len() {
        return false;
    }
    let mut i: usize = 0;
    while i < a.len()
        invariant
            a@.len() == b@.len(),
            i <= a@.len(),
            forall|j: int| 0 <= j < i ==> a@[j] == b@[j],
        decreases a@.len() - i,
    {
        if a[i] != b[i] {
            return false;
        }
        i = i + 1;
    }
    assert(a@ =~= b@);
    true
}

/// Whether two strings hold the same characters (`==` on `str`).
pub fn str_equal(a: &str, b: &str) -> (r: bool)
    ensures
        r == (a@ == b@),
{
    let va = chars_of(a);
    let vb = chars_of(b);
    chars_equal(va.as_slice(), vb.as_slice())
}

/// `p` is a prefix of `s`.
pub open spec fn has_prefix(s: Seq<char>, p: Seq<char>) -> bool {
    p.len() <= s.len() && s.take(p.len() as int) == p
}

/// Whether `s` starts with `p` (`str::starts_with`).
pub fn starts_with(s: &str, p: &str) -> (r: bool)
    ensures
        r == has_prefix(s@, p@),
{
    let vs = chars_of(s);
    let vp = chars_of(p);
    if vp.len() > vs.len() {
        return false;
    }
    let mut i: usize = 0;
    while i < vp.len()
        invariant
            vs@ == s@,
            vp@ == p@,
            vp@.len() <= vs@.len(),
            i <= vp@.len(),
            forall|j: int| 0 <= j < i ==> vs@[j] == vp@[j],
        decreases vp@.len() - i,
    {
        if vs[i] != vp[i] {
            assert(vs@.take(vp@.len() as int)[i as int] != vp@[i as int]);
            assert(vs@.take(vp@.len() as int) != vp@);
            return false;
        }
        i = i + 1;
    }
    assert(vs@.take(vp@.len() as int) =~= vp@);
    true
}

/// The characters of `v` from index `from` up to `to`.
pub fn string_from_range(v: &[char], from: usize, to: usize) -> (s: String)
    requires
        from <= to <= v@.len(),
    ensures
        s@ == v@.subrange(from as int, to as int),
{
    let mut s = String::new();
    let mut i: usize = from;
    while i < to
        invariant
            from <= i <= to <= v@.len(),
            s@ == v@.subrange(from as int, i as int),
        decreases to - i,
    {
        push_char(&mut s, v[i]);
        i = i + 1;
        assert(s@ =~= v@.subrange(from as int, i as int));
    }
    s
}

/// `s` with every trailing `c` removed (`str::trim_end_matches` with a char).
pub open spec fn trim_end_char(s: Seq<char>, c: char) -> Seq<char>
    decreases s.len(),
{
    if s.len() > 0 && s.last() == c {
        trim_end_char(s.drop_last(), c)
    } else {
        s
    }
}

/// `s` with every leading `c` removed (`str::trim_start_matches` with a char).
pub open spec fn trim_start_char(s: Seq<char>, c: char) -> Seq<char>
    decreases s.len(),
{
    if s.len() > 0 && s[0] == c {
        trim_start_char(s.drop_first(), c)
    } else {
        s
    }
}

/// Removes every trailing `c` from `s`.
pub fn trim_end_matches_char(s: &str, c: char) -> (r: String)
    ensures
        r@ == trim_end_char(s@, c),
{
    let v = chars_of(s);
    let mut j: usize = v.len();
    assert(v@.take(v@.len() as int) =~= v@);
    while j > 0 && v[j - 1] == c
        invariant
            v@ == s@,
            j <= v@.len(),
            trim_end_char(v@, c) == trim_end_char(v@.take(j as int), c),
        decreases j,
    {
        assert(v@.take(j as int).drop_last() =~= v@.take(j - 1));
        j = j - 1;
    }
    let r = string_from_range(v.as_slice(), 0, j);
    assert(v@.subrange(0, j as int) =~= v@.take(j as int));
    r
}

/// Removes every leading `c` from `s`.
pub fn trim_start_matches_char(s: &str, c: char) -> (r: String)
    ensures
        r@ == trim_start_char(s@, c),
{
    let v = chars_of(s);
    let mut i: usize = 0;
    assert(v@.skip(0) =~= v@);
    while i < v.len() && v[i] == c
        invariant
            v@ == s@,
            i <= v@.len(),
            trim_start_char(v@, c) == trim_start_char(v@.skip(i as int), c),
        decreases v@.len() - i,
    {
        assert(v@.skip(i as int).drop_first() =~= v@.skip(i + 1));
        i = i + 1;
    }
    let r = string_from_range(v.as_slice(), i, v.len());
    assert(v@.subrange(i as int, v@.len() as int) =~= v@.skip(i as int));
    r
}

/// At most the first `n` characters of `s` (`s.chars().take(n)`).
pub open spec fn first_chars(s: Seq<char>, n: int) -> Seq<char> {
    if n < s.len() {
        s.take(n)
    } else {
        s
    }
}

/// At most the first `n` characters of `s`.
pub fn char_prefix(s: &str, n: usize) -> (r: String)
    ensures
        r@ == first_chars(s@, n as int),
{
    let v = chars_of(s);
    let end = if n < v.len() {
        n
    } else {
        v.len()
    };
    let r = string_from_range(v.as_slice(), 0, end);
    assert(v@.subrange(0, end as int) =~= first_chars(s@, n as int));
    r
}

/// The longest prefix of `s` whose UTF-8 encoding has at most `n` bytes.
pub open spec fn prefix_within_bytes(s: Seq<char>, n: int) -> Seq<char>
    decreases s.len(),
{
    if s.len() == 0 || char_width(s[0]) > n {
        Seq::empty()
    } else {
        seq![s[0]] + prefix_within_bytes(s.drop_first(), n - char_width(s[0]))
    }
}

/// The byte offset `n` falls on a character boundary of `s`, so `&s[..n]` is defined.
pub open spec fn is_byte_boundary(s: Seq<char>, n: int) -> bool {
    byte_len(prefix_within_bytes(s, n)) == n
}

/// The first `n` bytes of `s` taken as characters: what `&s[..n]` gives
/// where `n` falls on a character boundary.
pub fn byte_prefix(s: &str, n: usize) -> (r: String)
    ensures
        r@ == prefix_within_bytes(s@, n as int),
{
    let v = chars_of(s);
    let mut i: usize = 0;
    let mut used: usize = 0;
    assert(v@.take(0) =~= Seq::<char>::empty());
    assert(v@.skip(0) =~= v@);
    loop
        invariant
            v@ == s@,
            i <= v@.len(),
            used <= n,
            prefix_within_bytes(v@, n as int) == v@.take(i as int) + prefix_within_bytes(
                v@.skip(i as int),
                n - used,
            ),
        ensures
            i == v@.len() || char_width(v@[i as int]) > n - used,
        decreases v@.len() - i,
    {
        if i == v.len() {
            break;
        }
        let w = char_width_of(v[i]);
        if w > n - used {
            break;
        }
        assert(v@.skip(i as int).drop_first() =~= v@.skip(i + 1));
        assert(v@.skip(i as int)[0] == v@[i as int]);
        assert(v@.take(i + 1) =~= v@.take(i as int) + seq![v@[i as int]]);
        used = used + w;
        i = i + 1;
    }
    if i < v.len() {
        assert(v@.skip(i as int)[0] == v@[i as int]);
    }
    assert(prefix_within_bytes(v@.skip(i as int), n - used) =~= Seq::<char>::empty());
    let r = string_from_range(v.as_slice(), 0, i);
    assert(v@.subrange(0, i as int) =~= v@.take(i as int));
    r
}

/// The first `n` bytes of `s`, or all of it when it is shorter: what
/// `&s[..n.min(s.len())]` gives.
pub open spec fn head_bytes(s: Seq<char>, n: int) -> Seq<char> {
    prefix_within_bytes(s, if byte_len(s) < n { byte_len(s) as int } else { n })
}

/// `&s[..n.min(s.len())]` is defined: the cut falls on a character boundary.
pub open spec fn head_bytes_defined(s: Seq<char>, n: int) -> bool {
    is_byte_boundary(s, if byte_len(s) < n { byte_len(s) as int } else { n })
}

/// The first `n` bytes of `s`, or all of it when it is shorter.
pub fn head(s: &str, n: usize) -> (r: String)
    ensures
        r@ == head_bytes(s@, n as int),
{
    let len = byte_length(s);
    let cut = if len < n {
        len
    } else {
        n
    };
    byte_prefix(s, cut)
}

/// The UTF-8 width of one character.
pub fn char_width_of(c: char) -> (w: usize)
    ensures
        w == char_width(c),
{
    let v = c as u32;
    if v <= 0x7F {
        1
    } else if v <= 0x7FF {
        2
    } else if v <= 0xFFFF {
        3
    } else {
        4
    }
}

/// `s` holds `p` at position `i`.
pub open spec fn occurs_at(s: Seq<char>, p: Seq<char>, i: int) -> bool {
    0 <= i && i + p.len() <= s.len() && s.subrange(i, i + p.len()) == p
}

/// `s` holds `p` somewhere (`str::contains` with a string pattern).
pub open spec fn has_infix(s: Seq<char>, p: Seq<char>) -> bool {
    exists|i: int| #[trigger] occurs_at(s, p, i)
}

/// Whether `s` contains `p`.
pub fn contains_str(s: &str, p: &str) -> (r: bool)
    ensures
        r == has_infix(s@, p@),
{
    let vs = chars_of(s);
    let vp = chars_of(p);
    if vp.len() > vs.len() {
        assert forall|i: int| !#[trigger] occurs_at(s@, p@, i) by {}
        return false;
    }
    let total: usize = vs.len();
    let last = total - vp.len();
    let mut i: usize = 0;
    loop
        invariant
            vs@ == s@,
            vp@ == p@,
            vp@.len() <= vs@.len(),
            total == vs@.len(),
            last == vs@.len() - vp@.len(),
            i <= last,
            forall|k: int| 0 <= k < i ==> !#[trigger] occurs_at(s@, p@, k),
        ensures
            i == last,
            forall|k: int| 0 <= k <= last ==> !#[trigger] occurs_at(s@, p@, k),
        decreases last - i,
    {
        let mut j: usize = 0;
        let mut same = true;
        while j < vp.len()
            invariant
                vs@ == s@,
                vp@ == p@,
                vp@.len() <= vs@.len(),
                total == vs@.len(),
                i <= last,
                last == vs@.len() - vp@.len(),
                j <= vp@.len(),
                same == (forall|k: int| 0 <= k < j ==> vs@[i + k] == vp@[k]),
            decreases vp@.len() - j,
        {
            assert(i + j < vs@.len());
            let k: usize = i + j;
            if vs[k] != vp[j] {
                same = false;
            }
            j = j + 1;
        }
        if same {
            assert(vs@.subrange(i as int, i + vp@.len()) =~= vp@);
            assert(occurs_at(s@, p@, i as int));
            return true;
        }
        assert(!occurs_at(s@, p@, i as int)) by {
            let k = choose|k: int| 0 <= k < vp@.len() && vs@[i + k] != vp@[k];
            assert(vs@.subrange(i as int, i + vp@.len())[k] != vp@[k]);
        }
        if i == last {
            break;
        }
        i = i + 1;
    }
    assert forall|k: int| !#[trigger] occurs_at(s@, p@, k) by {
        if 0 <= k <= last {
        }
    }
    false
}

/// The decimal digit character for `d` (0 to 9).
pub open spec fn digit_char(d: int) -> char {
    if d == 0 {
        '0'
    } else if d == 1 {
        '1'
    } else if d == 2 {
        '2'
    } else if d == 3 {
        '3'
    } else if d == 4 {
        '4'
    } else if d == 5 {
        '5'
    } else if d == 6 {
        '6'
    } else if d == 7 {
        '7'
    } else if d == 8 {
        '8'
    } else {
        '9'
    }
}

/// The decimal notation of `n`, without leading zeros (what `{}` prints).
pub open spec fn decimal(n: nat) -> Seq<char>
    decreases n,
{
    if n < 10 {
        seq![digit_char(n as int)]
    } else {
        decimal(n / 10).push(digit_char((n % 10) as int))
    }
}

/// The decimal notation of an integer, with a leading `-` when negative.
pub open spec fn signed_decimal(i: int) -> Seq<char> {
    if i < 0 {
        seq!['-'] + decimal((-i) as nat)
    } else {
        decimal(i as nat)
    }
}

fn digit_to_char(d: u64) -> (c: char)
    requires
        d < 10,
    ensures
        c == digit_char(d as int),
{
    if d == 0 {
        '0'
    } else if d == 1 {
        '1'
    } else if d == 2 {
        '2'
    } else if d == 3 {
        '3'
    } else if d == 4 {
        '4'
    } else if d == 5 {
        '5'
    } else if d == 6 {
        '6'
    } else if d == 7 {
        '7'
    } else if d == 8 {
        '8'
    } else {
        '9'
    }
}

fn push_decimal(out: &mut String, n: u64)
    ensures
        final(out)@ == old(out)@ + decimal(n as nat),
    decreases n,
{
    if n >= 10 {
        push_decimal(out, n / 10);
    }
    push_char(out, digit_to_char(n % 10));
    proof {
        if n >= 10 {
            assert(old(out)@ + decimal(n as nat) =~= old(out)@ + decimal((n / 10) as nat) + seq![
                digit_char((n % 10) as int),
            ]);
        } else {
            assert(old(out)@ + decimal(n as nat) =~= old(out)@ + seq![digit_char(n as int)]);
        }
    }
}

/// `n` in decimal (`n.to_string()` for unsigned integers).
pub fn format_u64(n: u64) -> (s: String)
    ensures
        s@ == decimal(n as nat),
{
    let mut s = String::new();
    push_decimal(&mut s, n);
    assert(s@ =~= decimal(n as nat));
    s
}

/// `i` in decimal (`i.to_string()` for signed integers).
pub fn format_i64(i: i64) -> (s: String)
    ensures
        s@ == signed_decimal(i as int),
{
    let mut s = String::new();
    if i < 0 {
        push_char(&mut s, '-');
        let magnitude: u64 = (0i128 - (i as i128)) as u64;
        push_decimal(&mut s, magnitude);
    } else {
        push_decimal(&mut s, i as u64);
    }
    assert(s@ =~= signed_decimal(i as int));
    s
}

/// `k` copies of `c`.
pub open spec fn repeated(c: char, k: nat) -> Seq<char> {
    Seq::new(k, |_i: int| c)
}

/// `s` padded on the right with spaces to at least `w` characters
/// (what `format!("{:<w$}", s)` gives).
pub open spec fn pad_right(s: Seq<char>, w: int) -> Seq<char> {
    if s.len() < w {
        s + repeated(' ', (w - s.len()) as nat)
    } else {
        s
    }
}

/// `k` copies of `c` as a string (`c.to_string().repeat(k)`).
pub fn repeat_char(c: char, k: usize) -> (s: String)
    ensures
        s@ == repeated(c, k as nat),
{
    let mut s = String::new();
    let mut i: usize = 0;
    while i < k
        invariant
            i <= k,
            s@ == repeated(c, i as nat),
        decreases k - i,
    {
        push_char(&mut s, c);
        i = i + 1;
        assert(s@ =~= repeated(c, i as nat));
    }
    s
}

/// `s` padded on the right with spaces to `w` characters.
pub fn pad_to(s: &str, w: usize) -> (r: String)
    ensures
        r@ == pad_right(s@, w as int),
{
    let n = s.unicode_len();
    let mut r = String::from_str(s);
    if n < w {
        let fill = repeat_char(' ', w - n);
        r.append(fill.as_str());
    }
    r
}

/// The parts joined with `sep` between neighbours (`[..].join(sep)`).
pub open spec fn joined(parts: Seq<Seq<char>>, sep: Seq<char>) -> Seq<char>
    decreases parts.len(),
{
    if parts.len() == 0 {
        Seq::empty()
    } else if parts.len() == 1 {
        parts[0]
    } else {
        joined(parts.drop_last(), sep) + sep + parts.last()
    }
}

/// The views of a vector of strings.
pub open spec fn views(v: Seq<String>) -> Seq<Seq<char>> {
    v.map_values(|s: String| s@)
}

/// The views of a sequence of string slices.
pub open spec fn str_views(v: Seq<&str>) -> Seq<Seq<char>> {
    v.map_values(|s: &str| s@)
}

/// Joins the strings of `parts` with `sep` between neighbours.
pub fn join_strings(parts: &Vec<String>, sep: &str) -> (r: String)
    ensures
        r@ == joined(views(parts@), sep@),
{
    let mut r = String::new();
    let mut i: usize = 0;
    while i < parts.len()
        invariant
            i <= parts@.len(),
            r@ == joined(views(parts@).take(i as int), sep@),
        decreases parts@.len() - i,
    {
        if i > 0 {
            r.append(sep);
        }
        r.append(parts[i].as_str());
        proof {
            let t = views(parts@).take(i + 1);
            assert(t.drop_last() =~= views(parts@).take(i as int));
            if i == 0 {
                assert(r@ =~= t[0]);
            }
        }
        i = i + 1;
    }
    assert(views(parts@).take(parts@.len() as int) =~= views(parts@));
    r
}

/// The characters that `char::is_whitespace` accepts (Unicode `White_Space`).
pub open spec fn is_space(c: char) -> bool {
    ||| '\u{9}' <= c <= '\u{d}'
    ||| c == ' '
    ||| c == '\u{85}'
    ||| c == '\u{a0}'
    ||| c == '\u{1680}'
    ||| '\u{2000}' <= c <= '\u{200a}'
    ||| c == '\u{2028}'
    ||| c == '\u{2029}'
    ||| c == '\u{202f}'
    ||| c == '\u{205f}'
    ||| c == '\u{3000}'
}

/// Whether `c` is whitespace (`char::is_whitespace`).
pub fn is_space_char(c: char) -> (r: bool)
    ensures
        r == is_space(c),
{
    ('\u{9}' <= c && c <= '\u{d}') || c == ' ' || c == '\u{85}' || c == '\u{a0}' || c
        == '\u{1680}' || ('\u{2000}' <= c && c <= '\u{200a}') || c == '\u{2028}' || c
        == '\u{2029}' || c == '\u{202f}' || c == '\u{205f}' || c == '\u{3000}'
}

/// `s` without leading whitespace.
pub open spec fn trim_space_start(s: Seq<char>) -> Seq<char>
    decreases s.len(),
{
    if s.len() > 0 && is_space(s[0]) {
        trim_space_start(s.drop_first())
    } else {
        s
    }
}

/// `s` without trailing whitespace.
pub open spec fn trim_space_end(s: Seq<char>) -> Seq<char>
    decreases s.len(),
{
    if s.len() > 0 && is_space(s.last()) {
        trim_space_end(s.drop_last())
    } else {
        s
    }
}

/// `s` without leading or trailing whitespace (`str::trim`).
pub open spec fn trimmed(s: Seq<char>) -> Seq<char> {
    trim_space_end(trim_space_start(s))
}

/// Removes leading and trailing whitespace.
pub fn trim(s: &str) -> (r: String)
    ensures
        r@ == trimmed(s@),
{
    let v = chars_of(s);
    let mut i: usize = 0;
    assert(v@.skip(0) =~= v@);
    while i < v.len() && is_space_char(v[i])
        invariant
            v@ == s@,
            i <= v@.len(),
            trim_space_start(v@) == trim_space_start(v@.skip(i as int)),
        decreases v@.len() - i,
    {
        assert(v@.skip(i as int).drop_first() =~= v@.skip(i + 1));
        i = i + 1;
    }
    let ghost t = v@.skip(i as int);
    assert(trim_space_start(v@) == t);
    let mut j: usize = v.len();
    assert(v@.subrange(i as int, j as int) =~= t);
    while j > i && is_space_char(v[j - 1])
        invariant
            v@ == s@,
            i <= j <= v@.len(),
            t == v@.skip(i as int),
            trim_space_end(t) == trim_space_end(v@.subrange(i as int, j as int)),
        decreases j,
    {
        assert(v@.subrange(i as int, j as int).drop_last() =~= v@.subrange(i as int, j - 1));
        j = j - 1;
    }
    string_from_range(v.as_slice(), i, j)
}

/// The whitespace-separated words of `s` (`str::split_whitespace`), read
/// from left to right.
pub open spec fn words(s: Seq<char>) -> Seq<Seq<char>>
    decreases s.len(),
{
    if s.len() == 0 {
        Seq::empty()
    } else {
        let prev = words(s.drop_last());
        let c = s.last();
        if is_space(c) {
            prev
        } else if s.len() >= 2 && !is_space(s[s.len() - 2]) {
            prev.drop_last().push(prev.last().push(c))
        } else {
            prev.push(seq![c])
        }
    }
}

/// Splits `s` at whitespace, dropping empty words.
pub fn split_words(s: &str) -> (r: Vec<String>)
    ensures
        views(r@) == words(s@),
{
    let v = chars_of(s);
    let mut done: Vec<String> = Vec::new();
    let mut cur: Vec<char> = Vec::new();
    let mut i: usize = 0;
    assert(v@.take(0) =~= Seq::<char>::empty());
    while i < v.len()
        invariant
            v@ == s@,
            i <= v@.len(),
            cur@.len() > 0 <==> (i > 0 && !is_space(v@[i - 1])),
            words(v@.take(i as int)) == (if cur@.len() > 0 {
                views(done@).push(cur@)
            } else {
                views(done@)
            }),
        decreases v@.len() - i,
    {
        let c = v[i];
        let ghost t = v@.take(i + 1);
        let ghost prev = words(v@.take(i as int));
        assert(t.drop_last() =~= v@.take(i as int));
        assert(t.last() == c);
        if is_space_char(c) {
            assert(words(t) == prev);
            if cur.len() > 0 {
                let w = string_from_chars(cur.as_slice());
                let ghost before = views(done@);
                done.push(w);
                assert(views(done@) =~= before.push(cur@));
                cur = Vec::new();
            }
        } else {
            let ghost before = cur@;
            if cur.len() > 0 {
                assert(t[t.len() - 2] == v@[i - 1]);
                assert(words(t) == prev.drop_last().push(prev.last().push(c)));
                assert(prev.drop_last() =~= views(done@));
                assert(prev.last() == before);
            } else if i > 0 {
                assert(t[t.len() - 2] == v@[i - 1]);
                assert(words(t) == prev.push(seq![c]));
                assert(before.push(c) =~= seq![c]);
            } else {
                assert(words(t) == prev.push(seq![c]));
                assert(before.push(c) =~= seq![c]);
            }
            cur.push(c);
            assert(cur@ =~= before.push(c));
            assert(words(t) =~= views(done@).push(cur@));
        }
        i = i + 1;
    }
    assert(v@.take(v@.len() as int) =~= v@);
    if cur.len() > 0 {
        let w = string_from_chars(cur.as_slice());
        let ghost before = views(done@);
        done.push(w);
        assert(views(done@) =~= before.push(cur@));
    }
    done
}

/// The parts of `s` between occurrences of `c` (`str::split` with a char),
/// read from left to right; there is always at least one part.
pub open spec fn split_on(s: Seq<char>, c: char) -> Seq<Seq<char>>
    decreases s.len(),
{
    if s.len() == 0 {
        seq![Seq::empty()]
    } else {
        let prev = split_on(s.drop_last(), c);
        if s.last() == c {
            prev.push(Seq::empty())
        } else {
            prev.drop_last().push(prev.last().push(s.last()))
        }
    }
}

/// Splits `s` at every `c`.
pub fn split_char(s: &str, c: char) -> (r: Vec<String>)
    ensures
        views(r@) == split_on(s@, c),
{
    let v = chars_of(s);
    let mut done: Vec<String> = Vec::new();
    let mut cur: Vec<char> = Vec::new();
    let mut i: usize = 0;
    assert(v@.take(0) =~= Seq::<char>::empty());
    while i < v.len()
        invariant
            v@ == s@,
            i <= v@.len(),
            split_on(v@.take(i as int), c) == views(done@).push(cur@),
        decreases v@.len() - i,
    {
        let d = v[i];
        assert(v@.take(i + 1).drop_last() =~= v@.take(i as int));
        assert(v@.take(i + 1).last() == d);
        if d == c {
            let w = string_from_chars(cur.as_slice());
            let ghost before = views(done@);
            let ghost prev_cur = cur@;
            done.push(w);
            assert(views(done@) =~= before.push(cur@));
            cur = Vec::new();
            assert(views(done@).push(cur@) =~= before.push(prev_cur).push(Seq::empty()));
        } else {
            let ghost before = cur@;
            cur.push(d);
            assert(views(done@).push(cur@) =~= views(done@).push(before).drop_last().push(
                before.push(d),
            ));
        }
        i = i + 1;
    }
    assert(v@.take(v@.len() as int) =~= v@);
    let w = string_from_chars(cur.as_slice());
    let ghost before = views(done@);
    done.push(w);
    assert(views(done@) =~= before.push(cur@));
    done
}

/// `s` cut at its first `c` into the text before and the text after
/// (`str::split_once` with a char), read from left to right.
pub open spec fn split_once(s: Seq<char>, c: char) -> Option<(Seq<char>, Seq<char>)>
    decreases s.len(),
{
    if s.len() == 0 {
        None
    } else {
        match split_once(s.drop_last(), c) {
            Some((a, b)) => Some((a, b.push(s.last()))),
            None => if s.last() == c {
                Some((s.drop_last(), Seq::empty()))
            } else {
                None
            },
        }
    }
}

pub(crate) proof fn lemma_split_once_absent(s: Seq<char>, c: char)
    requires
        forall|j: int| 0 <= j < s.len() ==> s[j] != c,
    ensures
        split_once(s, c) is None,
    decreases s.len(),
{
    if s.len() > 0 {
        lemma_split_once_absent(s.drop_last(), c);
    }
}

pub(crate) proof fn lemma_split_once_found(s: Seq<char>, c: char, k: int)
    requires
        0 <= k < s.len(),
        s[k] == c,
        forall|j: int| 0 <= j < k ==> s[j] != c,
    ensures
        split_once(s, c) == Some((s.take(k), s.skip(k + 1))),
    decreases s.len(),
{
    if s.len() == k + 1 {
        lemma_split_once_absent(s.drop_last(), c);
        assert(s.drop_last() =~= s.take(k));
        assert(s.skip(k + 1) =~= Seq::<char>::empty());
    } else {
        lemma_split_once_found(s.drop_last(), c, k);
        assert(s.drop_last().take(k) =~= s.take(k));
        assert(s.drop_last().skip(k + 1).push(s.last()) =~= s.skip(k + 1));
    }
}

/// Cuts `s` at its first `c`.
pub fn split_once_char(s: &str, c: char) -> (r: Option<(String, String)>)
    ensures
        match r {
            Some((a, b)) => split_once(s@, c) == Some((a@, b@)),
            None => split_once(s@, c) is None,
        },
{
    let v = chars_of(s);
    let mut i: usize = 0;
    while i < v.len() && v[i] != c
        invariant
            v@ == s@,
            i <= v@.len(),
            forall|j: int| 0 <= j < i ==> v@[j] != c,
        decreases v@.len() - i,
    {
        i = i + 1;
    }
    if i == v.len() {
        proof {
            lemma_split_once_absent(v@, c);
        }
        return None;
    }
    proof {
        lemma_split_once_found(v@, c, i as int);
    }
    let a = string_from_range(v.as_slice(), 0, i);
    let b = string_from_range(v.as_slice(), i + 1, v.len());
    assert(a@ =~= v@.take(i as int));
    assert(b@ =~= v@.skip(i + 1));
    Some((a, b))
}

proof fn lemma_split_on_nonempty(s: Seq<char>, c: char)
    ensures
        split_on(s, c).len() >= 1,
    decreases s.len(),
{
    if s.len() > 0 {
        lemma_split_on_nonempty(s.drop_last(), c);
    }
}

/// Text without `c` is one part when split at `c`.
pub proof fn lemma_split_on_absent(s: Seq<char>, c: char)
    requires
        !s.contains(c),
    ensures
        split_on(s, c) == seq![s],
    decreases s.len(),
{
    if s.len() > 0 {
        assert(s[s.len() - 1] == s.last());
        assert forall|i: int| 0 <= i < s.drop_last().len() implies s.drop_last()[i] != c by {
            assert(s.drop_last()[i] == s[i]);
        }
        lemma_split_on_absent(s.drop_last(), c);
        assert(s.drop_last().push(s.last()) =~= s);
        assert(seq![s.drop_last()].drop_last().push(s.drop_last().push(s.last())) =~= seq![s]);
    } else {
        assert(s =~= Seq::<char>::empty());
    }
}

/// Appending `c` and a part without `c` adds that part to the split.
pub proof fn lemma_split_on_append(s: Seq<char>, c: char, t: Seq<char>)
    requires
        !t.contains(c),
    ensures
        split_on(s + seq![c] + t, c) == split_on(s, c).push(t),
    decreases t.len(),
{
    let u = s + seq![c] + t;
    if t.len() == 0 {
        assert(u.drop_last() =~= s);
        assert(t =~= Seq::<char>::empty());
    } else {
        assert(u.drop_last() =~= s + seq![c] + t.drop_last());
        assert(t[t.len() - 1] == t.last());
        assert forall|i: int| 0 <= i < t.drop_last().len() implies t.drop_last()[i] != c by {
            assert(t.drop_last()[i] == t[i]);
        }
        lemma_split_on_append(s, c, t.drop_last());
        assert(u.last() == t.last());
        assert(t.drop_last().push(t.last()) =~= t);
        assert(split_on(s, c).push(t.drop_last()).drop_last().push(t.drop_last().push(t.last()))
            =~= split_on(s, c).push(t));
    }
}

/// Splitting at `c` and joining the parts with `c` gives back the text.
pub proof fn law_split_then_join(s: Seq<char>, c: char)
    ensures
        joined(split_on(s, c), seq![c]) == s,
    decreases s.len(),
{
    if s.len() == 0 {
        assert(split_on(s, c) =~= seq![Seq::<char>::empty()]);
    } else {
        let t = s.drop_last();
        let x = s.last();
        let p = split_on(t, c);
        law_split_then_join(t, c);
        lemma_split_on_nonempty(t, c);
        if x == c {
            let q = p.push(Seq::<char>::empty());
            assert(q.drop_last() =~= p);
            assert(joined(q, seq![c]) =~= s);
        } else {
            let q = p.drop_last().push(p.last().push(x));
            assert(q.drop_last() =~= p.drop_last());
            if p.len() == 1 {
                assert(joined(q, seq![c]) =~= s);
            } else {
                assert(joined(p, seq![c]) == joined(p.drop_last(), seq![c]) + seq![c] + p.last());
                assert(q.len() == p.len());
                assert(q.last() == p.last().push(x));
                assert(joined(q, seq![c]) == joined(q.drop_last(), seq![c]) + seq![c] + q.last());
                assert(s =~= t.push(x));
                assert(joined(q, seq![c]) =~= s);
            }
        }
    }
}

/// Every word of a line is non-empty and holds no whitespace.
pub proof fn law_words_are_clean(s: Seq<char>)
    ensures
        forall|i: int|
            0 <= i < words(s).len() ==> (#[trigger] words(s)[i]).len() > 0 && forall|j: int|
                0 <= j < words(s)[i].len() ==> !is_space(#[trigger] words(s)[i][j]),
    decreases s.len(),
{
    if s.len() > 0 {
        let t = s.drop_last();
        law_words_are_clean(t);
        let p = words(t);
        let c = s.last();
        if !is_space(c) && s.len() >= 2 && !is_space(s[s.len() - 2]) {
            lemma_words_end(t);
            let w = words(s);
            assert forall|i: int| 0 <= i < w.len() implies (#[trigger] w[i]).len() > 0
                && forall|j: int| 0 <= j < w[i].len() ==> !is_space(#[trigger] w[i][j]) by {
                if i < w.len() - 1 {
                    assert(w[i] == p[i]);
                } else {
                    assert(w[i] == p.last().push(c));
                    assert forall|j: int| 0 <= j < w[i].len() implies !is_space(
                        #[trigger] w[i][j],
                    ) by {
                        if j < w[i].len() - 1 {
                            assert(w[i][j] == p[p.len() - 1][j]);
                        }
                    }
                }
            }
        } else if !is_space(c) {
            let w = words(s);
            assert forall|i: int| 0 <= i < w.len() implies (#[trigger] w[i]).len() > 0
                && forall|j: int| 0 <= j < w[i].len() ==> !is_space(#[trigger] w[i][j]) by {
                if i < w.len() - 1 {
                    assert(w[i] == p[i]);
                } else {
                    assert(w[i] =~= seq![c]);
                }
            }
        }
    }
}

/// A line ending in a non-space character has at least one word.
proof fn lemma_words_end(t: Seq<char>)
    requires
        t.len() > 0,
        !is_space(t.last()),
    ensures
        words(t).len() > 0,
    decreases t.len(),
{
    let p = words(t.drop_last());
    if t.len() >= 2 && !is_space(t[t.len() - 2]) {
        assert(t.drop_last().last() == t[t.len() - 2]);
        lemma_words_end(t.drop_last());
    }
}

} // verus!
