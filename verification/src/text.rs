//! Text helpers shared by the address codes, the packet decoder and the
//! STUN module: splitting and joining on a separator, decimal and
//! hexadecimal rendering, and the few calls into `std` that the library
//! makes on strings.
use vstd::prelude::*;
use vstd::string::*;
use vstd::utf8::*;

verus! {

/// The views of a sequence of owned strings.
pub open spec fn views(v: Seq<String>) -> Seq<Seq<char>> {
    v.map_values(|p: String| p@)
}

/// The pieces of `s` between the occurrences of `sep`, in order, as
/// `str::split` with a `char` pattern yields them: the empty text gives one
/// empty piece, and every separator starts a new piece.
pub open spec fn split_spec(s: Seq<char>, sep: char) -> Seq<Seq<char>>
    decreases s.len(),
{
    if s.len() == 0 {
        seq![Seq::<char>::empty()]
    } else {
        let r = split_spec(s.drop_last(), sep);
        if s.last() == sep {
            r.push(Seq::<char>::empty())
        } else {
            r.update(r.len() - 1, r.last().push(s.last()))
        }
    }
}

/// The pieces of `ws` glued together with one `sep` between neighbours.
pub open spec fn join_spec(ws: Seq<Seq<char>>, sep: char) -> Seq<char>
    decreases ws.len(),
{
    if ws.len() == 0 {
        Seq::<char>::empty()
    } else if ws.len() == 1 {
        ws[0]
    } else {
        join_spec(ws.drop_last(), sep) + seq![sep] + ws.last()
    }
}

/// `s` holds no occurrence of `c`.
pub open spec fn free_of(s: Seq<char>, c: char) -> bool {
    forall|i: int| 0 <= i < s.len() ==> s[i] != c
}

/// Splitting always yields at least one piece.
pub proof fn lemma_split_nonempty(s: Seq<char>, sep: char)
    ensures
        split_spec(s, sep).len() >= 1,
    decreases s.len(),
{
    if s.len() > 0 {
        lemma_split_nonempty(s.drop_last(), sep);
    }
}

/// A text without the separator is a single piece.
pub proof fn lemma_split_free(b: Seq<char>, sep: char)
    requires
        free_of(b, sep),
    ensures
        split_spec(b, sep) == seq![b],
    decreases b.len(),
{
    if b.len() == 0 {
        assert(b =~= Seq::<char>::empty());
        assert(split_spec(b, sep) =~= seq![b]);
    } else {
        let p = b.drop_last();
        lemma_split_free(p, sep);
        assert(b.last() == b[b.len() - 1]);
        assert(b[b.len() - 1] != sep);
        assert(b.drop_last() == p);
        assert(p.push(b.last()) =~= b);
        let r = split_spec(p, sep);
        assert(r.update(r.len() - 1, r.last().push(b.last())) =~= seq![b]);
    }
}

/// Appending a separator and a piece without separators adds that piece.
pub proof fn lemma_split_append(a: Seq<char>, b: Seq<char>, sep: char)
    requires
        free_of(b, sep),
    ensures
        split_spec(a + seq![sep] + b, sep) == split_spec(a, sep).push(b),
    decreases b.len(),
{
    let s = a + seq![sep] + b;
    if b.len() == 0 {
        assert(b =~= Seq::<char>::empty());
        assert(s.drop_last() =~= a);
        assert(s.last() == sep);
        assert(split_spec(s, sep) =~= split_spec(a, sep).push(b));
    } else {
        let p = b.drop_last();
        assert(free_of(p, sep));
        lemma_split_append(a, p, sep);
        assert(s.drop_last() =~= a + seq![sep] + p);
        assert(s.last() == b[b.len() - 1]);
        assert(b[b.len() - 1] != sep);
        assert(p.push(b.last()) =~= b);
        let r = split_spec(a, sep).push(p);
        assert(r.update(r.len() - 1, r.last().push(s.last())) =~= split_spec(a, sep).push(b));
    }
}

/// Splitting a joined list of separator-free pieces gives the pieces back.
pub proof fn lemma_split_join(ws: Seq<Seq<char>>, sep: char)
    requires
        ws.len() >= 1,
        forall|i: int| 0 <= i < ws.len() ==> free_of(#[trigger] ws[i], sep),
    ensures
        split_spec(join_spec(ws, sep), sep) == ws,
    decreases ws.len(),
{
    if ws.len() == 1 {
        lemma_split_free(ws[0], sep);
        assert(seq![ws[0]] =~= ws);
    } else {
        let front = ws.drop_last();
        assert forall|i: int| 0 <= i < front.len() implies free_of(#[trigger] front[i], sep) by {
            assert(front[i] == ws[i]);
        }
        lemma_split_join(front, sep);
        assert(free_of(ws[ws.len() - 1], sep));
        lemma_split_append(join_spec(front, sep), ws.last(), sep);
        assert(front.push(ws.last()) =~= ws);
    }
}

/// Lengthening the last piece lengthens the joined text at its end.
pub proof fn lemma_join_extend_last(r: Seq<Seq<char>>, t: Seq<char>, sep: char)
    requires
        r.len() >= 1,
    ensures
        join_spec(r.update(r.len() - 1, r.last() + t), sep) == join_spec(r, sep) + t,
{
    let r2 = r.update(r.len() - 1, r.last() + t);
    if r.len() == 1 {
        assert(r2[0] == r[0] + t);
    } else {
        assert(r2.drop_last() =~= r.drop_last());
        assert(r2.last() == r.last() + t);
        let j = join_spec(r.drop_last(), sep);
        assert(j + seq![sep] + (r.last() + t) =~= (j + seq![sep] + r.last()) + t);
    }
}

/// Joining the pieces of a split with the same separator gives the text
/// back.
pub proof fn lemma_join_split(s: Seq<char>, sep: char)
    ensures
        join_spec(split_spec(s, sep), sep) == s,
    decreases s.len(),
{
    if s.len() == 0 {
        assert(s =~= Seq::<char>::empty());
    } else {
        let p = s.drop_last();
        lemma_join_split(p, sep);
        lemma_split_nonempty(p, sep);
        let r = split_spec(p, sep);
        if s.last() == sep {
            let r2 = r.push(Seq::<char>::empty());
            assert(r2.drop_last() =~= r);
            assert(join_spec(r2, sep) =~= p + seq![sep] + Seq::<char>::empty());
            assert(p + seq![sep] + Seq::<char>::empty() =~= s);
        } else {
            assert(r.last().push(s.last()) =~= r.last() + seq![s.last()]);
            lemma_join_extend_last(r, seq![s.last()], sep);
            assert(p + seq![s.last()] =~= s);
        }
    }
}

/// The bytes of `v` from `lo` up to `hi`.
pub fn copy_range(v: &Vec<u8>, lo: usize, hi: usize) -> (r: Vec<u8>)
    requires
        lo <= hi <= v@.len(),
    ensures
        r@ == v@.subrange(lo as int, hi as int),
{
    let mut r: Vec<u8> = Vec::new();
    let mut i = lo;
    while i < hi
        invariant
            lo <= i <= hi <= v@.len(),
            r@ == v@.subrange(lo as int, i as int),
        decreases hi - i,
    {
        r.push(v[i]);
        i = i + 1;
        assert(r@ =~= v@.subrange(lo as int, i as int));
    }
    r
}

/// The UTF-8 bytes of `s`, as `s.as_bytes().to_vec()` gives them.
pub fn utf8_bytes(s: &str) -> (r: Vec<u8>)
    ensures
        r@ == encode_utf8(s@),
{
    s.as_bytes_vec()
}

/// `String::push`: appends `c` to the end of `s`.
#[verifier::external_body]
pub(crate) fn push_char(s: &mut String, c: char)
    ensures
        final(s)@ == old(s)@.push(c),
{
    s.push(c);
}

/// Splits `s` at every `sep`, as `s.split(sep)` does, into owned pieces.
pub fn split_char(s: &str, sep: char) -> (parts: Vec<String>)
    ensures
        views(parts@) == split_spec(s@, sep),
{
    let n = s.unicode_len();
    let mut done: Vec<String> = Vec::new();
    let mut cur = String::new();
    let mut i: usize = 0;
    assert(s@.take(0) =~= Seq::<char>::empty());
    assert(views(done@).push(cur@) =~= split_spec(s@.take(0), sep));
    while i < n
        invariant
            n == s@.len(),
            i <= n,
            views(done@).push(cur@) == split_spec(s@.take(i as int), sep),
        decreases n - i,
    {
        let c = s.get_char(i);
        let ghost before = s@.take(i as int);
        let ghost after = s@.take(i + 1);
        assert(after.drop_last() =~= before);
        assert(after.last() == c);
        let ghost r = split_spec(before, sep);
        if c == sep {
            done.push(cur);
            cur = String::new();
            assert(views(done@).push(cur@) =~= r.push(Seq::<char>::empty()));
        } else {
            push_char(&mut cur, c);
            assert(views(done@).push(cur@) =~= r.update(r.len() - 1, r.last().push(c)));
        }
        i = i + 1;
    }
    assert(s@.take(n as int) =~= s@);
    done.push(cur);
    assert(views(done@) =~= split_spec(s@, sep));
    done
}

/// The ASCII digit for `d` (`d < 10`).
pub open spec fn digit_char(d: nat) -> char {
    (d + 48) as char
}

/// The decimal rendering of `n`, without leading zeros, as `{}` formats an
/// unsigned integer.
pub open spec fn decimal(n: nat) -> Seq<char>
    decreases n,
{
    if n < 10 {
        seq![digit_char(n)]
    } else {
        decimal(n / 10).push(digit_char(n % 10))
    }
}

/// The upper-case hexadecimal digit for `d` (`d < 16`).
pub open spec fn hex_digit(d: nat) -> char {
    if d < 10 {
        (d + 48) as char
    } else {
        (d + 55) as char
    }
}

/// A byte as `{:#04X}` formats it: `0x` and two upper-case hex digits.
pub open spec fn hex_byte(b: u8) -> Seq<char> {
    seq!['0', 'x', hex_digit(b as nat / 16), hex_digit(b as nat % 16)]
}

fn digit(d: u64) -> (c: char)
    requires
        d < 10,
    ensures
        c == digit_char(d as nat),
{
    let b: u8 = d as u8 + 48;
    b as char
}

/// Appends the decimal rendering of `n` to `out`.
pub fn push_decimal(out: &mut String, n: u64)
    ensures
        final(out)@ == old(out)@ + decimal(n as nat),
    decreases n,
{
    if n >= 10 {
        push_decimal(out, n / 10);
    }
    push_char(out, digit(n % 10));
    proof {
        if n < 10 {
            assert(old(out)@ + decimal(n as nat) =~= old(out)@.push(digit_char(n as nat)));
        } else {
            assert(old(out)@ + decimal(n as nat) =~= (old(out)@ + decimal(n as nat / 10)).push(
                digit_char(n as nat % 10),
            ));
        }
    }
}

/// The decimal rendering of `n` as a new string.
pub fn decimal_string(n: u64) -> (s: String)
    ensures
        s@ == decimal(n as nat),
{
    let mut s = String::new();
    push_decimal(&mut s, n);
    assert(Seq::<char>::empty() + decimal(n as nat) =~= decimal(n as nat));
    s
}

fn hex(d: u8) -> (c: char)
    requires
        d < 16,
    ensures
        c == hex_digit(d as nat),
{
    let b: u8 = if d < 10 {
        d + 48
    } else {
        d + 55
    };
    b as char
}

/// Appends `b` as `{:#04X}` renders it.
pub fn push_hex_byte(out: &mut String, b: u8)
    ensures
        final(out)@ == old(out)@ + hex_byte(b),
{
    push_char(out, '0');
    push_char(out, 'x');
    push_char(out, hex(b / 16));
    push_char(out, hex(b % 16));
    assert(final(out)@ =~= old(out)@ + hex_byte(b));
}

/// What `String::from_utf8` reports, through its error's `Display`, for
/// bytes that are not UTF-8.
pub uninterp spec fn utf8_error_text(bytes: Seq<u8>) -> Seq<char>;

/// `String::from_utf8`, with the error turned into its message.
/// Claims: `Ok` exactly when the bytes are valid UTF-8, and then the text
/// they encode; otherwise the error's text, which depends on the bytes
/// alone.
#[verifier::external_body]
pub(crate) fn string_from_utf8(bytes: Vec<u8>) -> (res: Result<String, String>)
    ensures
        res is Ok <==> valid_utf8(bytes@),
        res matches Ok(s) ==> s@ == decode_utf8(bytes@),
        res matches Err(m) ==> m@ == utf8_error_text(bytes@),
{
    match String::from_utf8(bytes) {
        Ok(s) => Ok(s),
        Err(e) => Err(e.to_string()),
    }
}

/// An upper-case ASCII letter.
pub open spec fn is_ascii_upper(c: char) -> bool {
    'A' <= c && c <= 'Z'
}

/// `s` holds no upper-case ASCII letter.
pub open spec fn no_ascii_upper(s: Seq<char>) -> bool {
    forall|i: int| 0 <= i < s.len() ==> !is_ascii_upper(#[trigger] s[i])
}

/// The ASCII lower case of `c`: `A` to `Z` become `a` to `z`, every other
/// character stays.
pub open spec fn ascii_lower_char(c: char) -> char {
    if is_ascii_upper(c) {
        ((c as u32) + 32) as char
    } else {
        c
    }
}

/// `s` with every character in ASCII lower case.
pub open spec fn ascii_lowercase(s: Seq<char>) -> Seq<char> {
    s.map_values(|c: char| ascii_lower_char(c))
}

/// Lowering keeps the length, turns each upper-case ASCII letter into the
/// matching lower-case one, leaves every other character alone, and leaves
/// no upper-case ASCII letter.
pub proof fn lemma_ascii_lowercase(s: Seq<char>)
    ensures
        ascii_lowercase(s).len() == s.len(),
        forall|i: int|
            0 <= i < s.len() && is_ascii_upper(s[i]) ==> (#[trigger] ascii_lowercase(s)[i]) as u32
                == s[i] as u32 + 32,
        forall|i: int|
            0 <= i < s.len() && !is_ascii_upper(s[i]) ==> #[trigger] ascii_lowercase(s)[i] == s[i],
        no_ascii_upper(ascii_lowercase(s)),
{
    assert forall|i: int| 0 <= i < s.len() implies !is_ascii_upper(#[trigger] ascii_lowercase(s)[i]) by {
        let c = s[i];
        if is_ascii_upper(c) {
            assert((c as u32) + 32 >= 97 && (c as u32) + 32 <= 122);
        }
    }
}

/// Joining pieces without upper-case ASCII letters, with a separator that is
/// not one, gives a text without them.
pub proof fn lemma_join_no_upper(ws: Seq<Seq<char>>, sep: char)
    requires
        forall|k: int| 0 <= k < ws.len() ==> no_ascii_upper(#[trigger] ws[k]),
        !is_ascii_upper(sep),
    ensures
        no_ascii_upper(join_spec(ws, sep)),
    decreases ws.len(),
{
    if ws.len() > 1 {
        let front = ws.drop_last();
        assert forall|k: int| 0 <= k < front.len() implies no_ascii_upper(#[trigger] front[k]) by {
            assert(front[k] == ws[k]);
        }
        lemma_join_no_upper(front, sep);
        let j = join_spec(front, sep);
        let t = j + seq![sep] + ws.last();
        assert(no_ascii_upper(ws[ws.len() - 1]));
        assert forall|i: int| 0 <= i < t.len() implies !is_ascii_upper(#[trigger] t[i]) by {
            if i < j.len() {
                assert(t[i] == j[i]);
            } else if i == j.len() {
                assert(t[i] == sep);
            } else {
                assert(t[i] == ws.last()[i - j.len() - 1]);
            }
        }
    } else if ws.len() == 1 {
        assert(no_ascii_upper(ws[0]));
    }
}

/// The text that `str::to_lowercase` returns for `s`.
pub uninterp spec fn lowercase(s: Seq<char>) -> Seq<char>;

/// `str::to_lowercase`. Claims that the result is a function of the text,
/// and that for ASCII text it is the text with `A` to `Z` turned into `a`
/// to `z` and every other character kept (the Unicode lower-case mapping,
/// which the documentation names, does this on ASCII). What it does to
/// other characters is not stated.
#[verifier::external_body]
pub(crate) fn to_lowercase(s: &str) -> (res: String)
    ensures
        res@ == lowercase(s@),
        is_ascii_chars(s@) ==> res@ == ascii_lowercase(s@),
{
    s.to_lowercase()
}

} // verus!
