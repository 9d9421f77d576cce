//! Byte-level text helpers shared by the header parsers: splitting, joining,
//! trimming and the conversion of checked ASCII bytes into `String` values.

use vstd::prelude::*;
use vstd::slice::slice_to_vec;
use vstd::string::StringSliceAdditionalSpecFns;
use vstd::utf8::*;

verus! {

/// The UTF-8 encoding of a character sequence: how contracts speak of the
/// bytes held by a `String`.
pub open spec fn utf8_of(chars: Seq<char>) -> Seq<u8> {
    encode_utf8(chars)
}

/// Splits `s` at every occurrence of `sep`, keeping empty parts, like
/// `str::split` with a single-byte pattern.
pub open spec fn split_on(s: Seq<u8>, sep: u8) -> Seq<Seq<u8>>
    decreases s.len(),
{
    if s.len() == 0 {
        seq![Seq::<u8>::empty()]
    } else {
        let rest = split_on(s.drop_first(), sep);
        if s[0] == sep {
            seq![Seq::<u8>::empty()] + rest
        } else {
            rest.update(0, seq![s[0]] + rest[0])
        }
    }
}

/// Joins `parts` with the single byte `sep` between neighbours, like
/// `[&str]::join`.
pub open spec fn join_with(parts: Seq<Seq<u8>>, sep: u8) -> Seq<u8>
    decreases parts.len(),
{
    if parts.len() == 0 {
        Seq::<u8>::empty()
    } else if parts.len() == 1 {
        parts[0]
    } else {
        join_with(parts.drop_last(), sep) + seq![sep] + parts.last()
    }
}

/// Optional whitespace of HTTP field values: space and horizontal tab.
pub open spec fn is_ows(b: u8) -> bool {
    b == 0x20u8 || b == 0x09u8
}

/// Removes leading optional whitespace.
pub open spec fn trim_start_ows(s: Seq<u8>) -> Seq<u8>
    decreases s.len(),
{
    if s.len() > 0 && is_ows(s[0]) {
        trim_start_ows(s.drop_first())
    } else {
        s
    }
}

/// Removes trailing optional whitespace.
pub open spec fn trim_end_ows(s: Seq<u8>) -> Seq<u8>
    decreases s.len(),
{
    if s.len() > 0 && is_ows(s.last()) {
        trim_end_ows(s.drop_last())
    } else {
        s
    }
}

/// Removes optional whitespace at both edges, like
/// `str::trim_matches([' ', '\t'])`.
pub open spec fn trim_ows(s: Seq<u8>) -> Seq<u8> {
    trim_end_ows(trim_start_ows(s))
}

/// True when every byte is ASCII.
pub open spec fn all_ascii(s: Seq<u8>) -> bool {
    forall|i: int| 0 <= i < s.len() ==> #[trigger] s[i] < 0x80u8
}

pub proof fn lemma_split_on_nonempty(s: Seq<u8>, sep: u8)
    ensures
        split_on(s, sep).len() >= 1,
    decreases s.len(),
{
    if s.len() > 0 {
        lemma_split_on_nonempty(s.drop_first(), sep);
    }
}

/// A sequence without the separator splits into itself.
pub proof fn lemma_split_on_no_sep(s: Seq<u8>, sep: u8)
    requires
        !s.contains(sep),
    ensures
        split_on(s, sep) =~= seq![s],
    decreases s.len(),
{
    if s.len() > 0 {
        assert(!s.drop_first().contains(sep)) by {
            if s.drop_first().contains(sep) {
                let k = choose|k: int| 0 <= k < s.drop_first().len() && s.drop_first()[k] == sep;
                assert(s[k + 1] == sep);
            }
        }
        lemma_split_on_no_sep(s.drop_first(), sep);
        assert(s[0] != sep) by {
            if s[0] == sep {
                assert(s.contains(sep));
            }
        }
        assert(seq![s[0]] + s.drop_first() =~= s);
    } else {
        assert(s =~= Seq::<u8>::empty());
    }
}

/// A separator-free prefix followed by the separator is split off as the
/// first part.
pub proof fn lemma_split_on_prefix(a: Seq<u8>, b: Seq<u8>, sep: u8)
    requires
        !a.contains(sep),
    ensures
        split_on(a + seq![sep] + b, sep) =~= seq![a] + split_on(b, sep),
    decreases a.len(),
{
    let s = a + seq![sep] + b;
    if a.len() == 0 {
        assert(s.drop_first() =~= b);
        assert(s[0] == sep);
        assert(a =~= Seq::<u8>::empty());
    } else {
        let a1 = a.drop_first();
        assert(!a1.contains(sep)) by {
            if a1.contains(sep) {
                let k = choose|k: int| 0 <= k < a1.len() && a1[k] == sep;
                assert(a[k + 1] == sep);
            }
        }
        assert(s.drop_first() =~= a1 + seq![sep] + b);
        lemma_split_on_prefix(a1, b, sep);
        assert(a[0] != sep) by {
            if a[0] == sep {
                assert(a.contains(sep));
            }
        }
        assert(s[0] == a[0]);
        let rest = split_on(s.drop_first(), sep);
        assert(rest[0] == a1);
        assert(seq![a[0]] + a1 =~= a);
    }
}

/// Every part of a split is free of the separator.
pub proof fn lemma_split_on_parts_free(s: Seq<u8>, sep: u8)
    ensures
        forall|i: int|
            0 <= i < split_on(s, sep).len() ==> !(#[trigger] split_on(s, sep)[i]).contains(sep),
    decreases s.len(),
{
    if s.len() > 0 {
        lemma_split_on_parts_free(s.drop_first(), sep);
        lemma_split_on_nonempty(s.drop_first(), sep);
        let rest = split_on(s.drop_first(), sep);
        if s[0] != sep {
            assert forall|i: int|
                0 <= i < split_on(s, sep).len() implies !(#[trigger] split_on(s, sep)[i]).contains(
                sep,
            ) by {
                if i == 0 {
                    let p = seq![s[0]] + rest[0];
                    if p.contains(sep) {
                        let k = choose|k: int| 0 <= k < p.len() && p[k] == sep;
                        if k > 0 {
                            assert(rest[0][k - 1] == sep);
                            assert(rest[0].contains(sep));
                        }
                    }
                }
            }
        } else {
            assert forall|i: int|
                0 <= i < split_on(s, sep).len() implies !(#[trigger] split_on(s, sep)[i]).contains(
                sep,
            ) by {
                if i > 0 {
                    assert(split_on(s, sep)[i] == rest[i - 1]);
                }
            }
        }
    }
}

/// Every byte of a split part, and every separator, comes from the input.
pub proof fn lemma_split_on_bytes_from_input(s: Seq<u8>, sep: u8, i: int, j: int)
    requires
        0 <= i < split_on(s, sep).len(),
        0 <= j < split_on(s, sep)[i].len(),
    ensures
        s.contains(split_on(s, sep)[i][j]),
    decreases s.len(),
{
    lemma_split_on_nonempty(s, sep);
    if s.len() > 0 {
        lemma_split_on_nonempty(s.drop_first(), sep);
        let rest = split_on(s.drop_first(), sep);
        if s[0] == sep {
            if i > 0 {
                lemma_split_on_bytes_from_input(s.drop_first(), sep, i - 1, j);
                let k = choose|k: int|
                    0 <= k < s.drop_first().len() && s.drop_first()[k] == rest[i - 1][j];
                assert(s[k + 1] == rest[i - 1][j]);
            }
        } else {
            if i == 0 && j == 0 {
                assert(s[0] == split_on(s, sep)[i][j]);
            } else {
                let (ri, rj) = if i == 0 {
                    (0int, j - 1)
                } else {
                    (i, j)
                };
                lemma_split_on_bytes_from_input(s.drop_first(), sep, ri, rj);
                let k = choose|k: int|
                    0 <= k < s.drop_first().len() && s.drop_first()[k] == rest[ri][rj];
                assert(s[k + 1] == rest[ri][rj]);
            }
        }
    }
}

/// Joining after a leading part puts that part and a separator in front.
pub proof fn lemma_join_prepend(a: Seq<u8>, rest: Seq<Seq<u8>>, sep: u8)
    requires
        rest.len() >= 1,
    ensures
        join_with(seq![a] + rest, sep) =~= a + seq![sep] + join_with(rest, sep),
    decreases rest.len(),
{
    let all = seq![a] + rest;
    assert(all.last() == rest.last());
    if rest.len() == 1 {
        assert(all.drop_last() =~= seq![a]);
        assert(join_with(all.drop_last(), sep) == a);
        assert(join_with(rest, sep) == rest[0]);
    } else {
        assert(all.drop_last() =~= seq![a] + rest.drop_last());
        lemma_join_prepend(a, rest.drop_last(), sep);
        assert(join_with(rest, sep) == join_with(rest.drop_last(), sep) + seq![sep] + rest.last());
    }
}

/// Extending the first part extends the joined bytes at the front.
pub proof fn lemma_join_update_first(parts: Seq<Seq<u8>>, c: u8, sep: u8)
    requires
        parts.len() >= 1,
    ensures
        join_with(parts.update(0, seq![c] + parts[0]), sep) =~= seq![c] + join_with(parts, sep),
    decreases parts.len(),
{
    let updated = parts.update(0, seq![c] + parts[0]);
    if parts.len() > 1 {
        assert(updated.drop_last() =~= parts.drop_last().update(0, seq![c] + parts[0]));
        lemma_join_update_first(parts.drop_last(), c, sep);
    }
}

/// Joining the parts of a split restores the input.
pub proof fn lemma_join_split(s: Seq<u8>, sep: u8)
    ensures
        join_with(split_on(s, sep), sep) =~= s,
    decreases s.len(),
{
    if s.len() == 0 {
        assert(join_with(split_on(s, sep), sep) =~= Seq::<u8>::empty());
    } else {
        lemma_join_split(s.drop_first(), sep);
        lemma_split_on_nonempty(s.drop_first(), sep);
        let rest = split_on(s.drop_first(), sep);
        if s[0] == sep {
            lemma_join_prepend(Seq::<u8>::empty(), rest, sep);
            assert(Seq::<u8>::empty() + seq![sep] + s.drop_first() =~= s);
        } else {
            lemma_join_update_first(rest, s[0], sep);
            assert(seq![s[0]] + s.drop_first() =~= s);
        }
    }
}

/// Joining ASCII parts with an ASCII separator gives ASCII bytes.
pub proof fn lemma_join_ascii(parts: Seq<Seq<u8>>, sep: u8)
    requires
        sep < 0x80u8,
        forall|i: int| 0 <= i < parts.len() ==> all_ascii(#[trigger] parts[i]),
    ensures
        all_ascii(join_with(parts, sep)),
    decreases parts.len(),
{
    if parts.len() > 1 {
        lemma_join_ascii(parts.drop_last(), sep);
        let j = join_with(parts, sep);
        let left = join_with(parts.drop_last(), sep);
        assert forall|i: int| 0 <= i < j.len() implies #[trigger] j[i] < 0x80u8 by {
            if i < left.len() {
                assert(j[i] == left[i]);
            } else if i == left.len() {
                assert(j[i] == sep);
            } else {
                assert(j[i] == parts.last()[i - left.len() - 1]);
                assert(all_ascii(parts[parts.len() - 1]));
            }
        }
    } else if parts.len() == 1 {
        assert(all_ascii(parts[0]));
    }
}

/// Joins byte slices with `sep` between neighbours.
pub fn join_slices(parts: &[&[u8]], sep: u8) -> (joined: Vec<u8>)
    ensures
        joined@ == join_with(parts@.map_values(|p: &[u8]| p@), sep),
{
    let ghost views = parts@.map_values(|p: &[u8]| p@);
    let mut joined: Vec<u8> = Vec::new();
    let mut i: usize = 0;
    while i < parts.len()
        invariant
            0 <= i <= parts@.len(),
            views == parts@.map_values(|p: &[u8]| p@),
            joined@ == join_with(views.take(i as int), sep),
        decreases parts@.len() - i,
    {
        let ghost before = joined@;
        if i > 0 {
            joined.push(sep);
        }
        let part = parts[i];
        let mut k: usize = 0;
        let ghost base = joined@;
        while k < part.len()
            invariant
                0 <= k <= part@.len(),
                part@ == views[i as int],
                joined@ == base + part@.take(k as int),
            decreases part@.len() - k,
        {
            joined.push(part[k]);
            k = k + 1;
            assert(joined@ =~= base + part@.take(k as int));
        }
        proof {
            let taken = views.take(i + 1);
            assert(part@.take(k as int) =~= part@);
            if i == 0 {
                assert(taken.len() == 1);
                assert(joined@ =~= taken[0]);
            } else {
                assert(taken.drop_last() =~= views.take(i as int));
                assert(joined@ =~= before + seq![sep] + taken.last());
            }
        }
        i = i + 1;
    }
    assert(views.take(parts@.len() as int) =~= views);
    joined
}

/// Splits `s` at every `sep` byte.
pub fn split_bytes(s: &[u8], sep: u8) -> (parts: Vec<Vec<u8>>)
    ensures
        parts.deep_view() == split_on(s@, sep),
{
    let mut parts: Vec<Vec<u8>> = Vec::new();
    let mut current: Vec<u8> = Vec::new();
    let mut i: usize = 0;
    assert(s@.skip(0) =~= s@);
    assert(current@ + s@.skip(0) =~= s@);
    while i < s.len()
        invariant
            0 <= i <= s@.len(),
            !current@.contains(sep),
            split_on(s@, sep) =~= parts.deep_view() + split_on(current@ + s@.skip(i as int), sep),
        decreases s@.len() - i,
    {
        let c = s[i];
        if c == sep {
            proof {
                assert(current@ + s@.skip(i as int) =~= current@ + seq![sep] + s@.skip(
                    i + 1,
                ));
                lemma_split_on_prefix(current@, s@.skip(i + 1), sep);
                assert(Seq::<u8>::empty() + s@.skip(i + 1) =~= s@.skip(i + 1));
            }
            let ghost old_parts = parts.deep_view();
            let ghost cur = current@;
            assert(current.deep_view() =~= current@);
            parts.push(current);
            current = Vec::new();
            proof {
                assert(parts.deep_view() =~= old_parts + seq![cur]);
            }
        } else {
            let ghost old_current = current@;
            current.push(c);
            proof {
                assert(old_current + s@.skip(i as int) =~= current@ + s@.skip(i + 1));
                assert(!current@.contains(sep)) by {
                    if current@.contains(sep) {
                        let k = choose|k: int| 0 <= k < current@.len() && current@[k] == sep;
                        if k < old_current.len() {
                            assert(old_current[k] == sep);
                            assert(old_current.contains(sep));
                        }
                    }
                }
            }
        }
        i = i + 1;
    }
    proof {
        assert(current@ + s@.skip(i as int) =~= current@);
        lemma_split_on_no_sep(current@, sep);
    }
    let ghost old_parts = parts.deep_view();
    let ghost cur = current@;
    assert(current.deep_view() =~= current@);
    parts.push(current);
    assert(parts.deep_view() =~= old_parts + seq![cur]);
    parts
}

/// Joins the parts with `sep` between neighbours.
pub fn join_bytes(parts: &Vec<Vec<u8>>, sep: u8) -> (joined: Vec<u8>)
    ensures
        joined@ == join_with(parts.deep_view(), sep),
{
    let mut joined: Vec<u8> = Vec::new();
    let mut i: usize = 0;
    while i < parts.len()
        invariant
            0 <= i <= parts@.len(),
            joined@ == join_with(parts.deep_view().take(i as int), sep),
        decreases parts@.len() - i,
    {
        let ghost before = joined@;
        if i > 0 {
            joined.push(sep);
        }
        let part = &parts[i];
        let mut k: usize = 0;
        let ghost base = joined@;
        while k < part.len()
            invariant
                0 <= k <= part@.len(),
                part@ == parts.deep_view()[i as int],
                joined@ == base + part@.take(k as int),
            decreases part@.len() - k,
        {
            joined.push(part[k]);
            k = k + 1;
            assert(joined@ =~= base + part@.take(k as int));
        }
        proof {
            let taken = parts.deep_view().take(i + 1);
            assert(part@.take(k as int) =~= part@);
            if i == 0 {
                assert(taken.len() == 1);
                assert(joined@ =~= taken[0]);
            } else {
                assert(taken.drop_last() =~= parts.deep_view().take(i as int));
                assert(joined@ =~= before + seq![sep] + taken.last());
            }
        }
        i = i + 1;
    }
    assert(parts.deep_view().take(parts@.len() as int) =~= parts.deep_view());
    joined
}

proof fn lemma_trim_start_skip(s: Seq<u8>, i: int)
    requires
        0 <= i <= s.len(),
        forall|k: int| 0 <= k < i ==> is_ows(#[trigger] s[k]),
    ensures
        trim_start_ows(s) == trim_start_ows(s.skip(i)),
    decreases i,
{
    if i > 0 {
        lemma_trim_start_skip(s.drop_first(), i - 1);
        assert(s.drop_first().skip(i - 1) =~= s.skip(i));
    } else {
        assert(s.skip(0) =~= s);
    }
}

proof fn lemma_trim_end_take(s: Seq<u8>, j: int)
    requires
        0 <= j <= s.len(),
        forall|k: int| j <= k < s.len() ==> is_ows(#[trigger] s[k]),
    ensures
        trim_end_ows(s) == trim_end_ows(s.take(j)),
    decreases s.len() - j,
{
    if j < s.len() {
        lemma_trim_end_take(s.drop_last(), j);
        assert(s.drop_last().take(j) =~= s.take(j));
    } else {
        assert(s.take(j) =~= s);
    }
}

/// Removes leading and trailing space and horizontal-tab bytes.
pub fn trim_ows_bytes(s: &[u8]) -> (trimmed: Vec<u8>)
    ensures
        trimmed@ == trim_ows(s@),
{
    let mut start: usize = 0;
    while start < s.len() && (s[start] == 0x20u8 || s[start] == 0x09u8)
        invariant
            0 <= start <= s@.len(),
            forall|k: int| 0 <= k < start ==> is_ows(#[trigger] s@[k]),
        decreases s@.len() - start,
    {
        start = start + 1;
    }
    let mut end: usize = s.len();
    while end > start && (s[end - 1] == 0x20u8 || s[end - 1] == 0x09u8)
        invariant
            start <= end <= s@.len(),
            forall|k: int| end <= k < s@.len() ==> is_ows(#[trigger] s@[k]),
        decreases end,
    {
        end = end - 1;
    }
    proof {
        lemma_trim_start_skip(s@, start as int);
        let rest = s@.skip(start as int);
        assert(!(rest.len() > 0 && is_ows(rest[0])));
        assert(trim_start_ows(rest) == rest);
        lemma_trim_end_take(rest, end - start);
        let core = rest.take(end - start);
        assert(core =~= s@.subrange(start as int, end as int));
        assert(!(core.len() > 0 && is_ows(core.last())));
        assert(trim_end_ows(core) == core);
    }
    slice_to_vec(&s[start..end])
}

/// True when the two byte strings are equal.
pub fn bytes_equal(a: &[u8], b: &[u8]) -> (eq: bool)
    ensures
        eq == (a@ == b@),
{
    if a.len() != b.len() {
        return false;
    }
    let mut i: usize = 0;
    while i < a.len()
        invariant
            a@.len() == b@.len(),
            0 <= i <= a@.len(),
            forall|k: int| 0 <= k < i ==> a@[k] == b@[k],
        decreases a@.len() - i,
    {
        if a[i] != b[i] {
            return false;
        }
        i = i + 1;
    }
    assert(a@ =~= b@);
    true
}

/// Ensures that ASCII bytes form valid UTF-8.
pub proof fn lemma_ascii_valid_utf8(s: Seq<u8>)
    requires
        all_ascii(s),
    ensures
        valid_utf8(s),
{
    assert(s.subrange(0, 0) =~= Seq::<u8>::empty());
    assert(partial_valid_utf8(s, 0));
    assert forall|i: int| 0 <= 0 <= i < s.len() <= s.len() implies #[trigger] is_leading_byte_width_1(
        s[i],
    ) by {
        assert(s[i] < 0x80u8);
    }
    partial_valid_utf8_extend_ascii_block(s, 0, s.len() as int);
    assert(s.subrange(0, s.len() as int) =~= s);
}

/// `std::str::from_utf8`: succeeds exactly on valid UTF-8, and then views
/// the same bytes as a string slice.
#[verifier::external_body]
pub(crate) fn utf8_str(bytes: &[u8]) -> (text: Option<&str>)
    ensures
        text is Some <==> valid_utf8(bytes@),
        text matches Some(t) ==> t.spec_bytes() == bytes@,
{
    std::str::from_utf8(bytes).ok()
}

/// The characters that ASCII bytes stand for.
pub open spec fn ascii_chars(bytes: Seq<u8>) -> Seq<char> {
    bytes.map_values(|b: u8| b as char)
}

/// UTF-8 encoding is injective.
pub proof fn lemma_utf8_injective(a: Seq<char>, b: Seq<char>)
    requires
        encode_utf8(a) == encode_utf8(b),
    ensures
        a == b,
{
    encode_utf8_decode_utf8(a);
    encode_utf8_decode_utf8(b);
}

/// ASCII bytes are their own UTF-8 encoding.
pub proof fn lemma_ascii_chars_encode(bytes: Seq<u8>)
    requires
        all_ascii(bytes),
    ensures
        encode_utf8(ascii_chars(bytes)) == bytes,
{
    let c = ascii_chars(bytes);
    assert(is_ascii_chars(c));
    is_ascii_chars_encode_utf8(c);
    assert(Seq::new(c.len(), |i| c.index(i) as u8) =~= bytes);
}

/// Builds a `String` from checked ASCII bytes.
pub fn ascii_string(bytes: &[u8]) -> (text: String)
    requires
        all_ascii(bytes@),
    ensures
        utf8_of(text@) == bytes@,
        text@ == ascii_chars(bytes@),
{
    proof {
        lemma_ascii_valid_utf8(bytes@);
        lemma_ascii_chars_encode(bytes@);
    }
    match utf8_str(bytes) {
        Some(t) => {
            let owned = t.to_owned();
            proof {
                lemma_utf8_injective(owned@, ascii_chars(bytes@));
            }
            owned
        },
        None => {
            assert(false);
            String::new()
        },
    }
}

/// True when the two string slices hold the same characters.
pub fn str_equal(a: &str, b: &str) -> (eq: bool)
    ensures
        eq == (a@ == b@),
{
    let eq = bytes_equal(a.as_bytes(), b.as_bytes());
    proof {
        if eq {
            lemma_utf8_injective(a@, b@);
        }
    }
    eq
}

/// The ASCII decimal digits of `n`, most significant first, without
/// leading zeros.
pub open spec fn decimal_digits(n: nat) -> Seq<u8>
    decreases n,
{
    if n < 10 {
        seq![(0x30 + n) as u8]
    } else {
        decimal_digits(n / 10) + seq![(0x30 + n % 10) as u8]
    }
}

pub proof fn lemma_decimal_digits_ascii(n: nat)
    ensures
        all_ascii(decimal_digits(n)),
        decimal_digits(n).len() >= 1,
        forall|i: int|
            0 <= i < decimal_digits(n).len() ==> 0x30 <= #[trigger] decimal_digits(n)[i] <= 0x39,
    decreases n,
{
    if n >= 10 {
        lemma_decimal_digits_ascii(n / 10);
    }
}

/// The decimal digits of `n`.
pub fn decimal_bytes(n: u64) -> (digits: Vec<u8>)
    ensures
        digits@ == decimal_digits(n as nat),
    decreases n,
{
    if n < 10 {
        let mut digits: Vec<u8> = Vec::new();
        digits.push((0x30 + n) as u8);
        assert(digits@ =~= decimal_digits(n as nat));
        digits
    } else {
        let mut digits = decimal_bytes(n / 10);
        digits.push((0x30 + n % 10) as u8);
        assert(digits@ =~= decimal_digits(n as nat));
        digits
    }
}

/// The decimal rendering of `n` as text.
pub fn decimal_string(n: u64) -> (text: String)
    ensures
        text@ == ascii_chars(decimal_digits(n as nat)),
{
    let digits = decimal_bytes(n);
    proof {
        lemma_decimal_digits_ascii(n as nat);
    }
    ascii_string(digits.as_slice())
}

} // verus!

verus! {

/// Splitting separator-free parts joined with the separator gives the parts
/// back.
pub proof fn lemma_split_join(parts: Seq<Seq<u8>>, sep: u8)
    requires
        parts.len() >= 1,
        forall|i: int| 0 <= i < parts.len() ==> !(#[trigger] parts[i]).contains(sep),
    ensures
        split_on(join_with(parts, sep), sep) =~= parts,
    decreases parts.len(),
{
    if parts.len() == 1 {
        assert(join_with(parts, sep) == parts[0]);
        lemma_split_on_no_sep(parts[0], sep);
    } else {
        let rest = parts.drop_first();
        assert(parts =~= seq![parts[0]] + rest);
        lemma_join_prepend(parts[0], rest, sep);
        assert(!parts[0].contains(sep));
        lemma_split_on_prefix(parts[0], join_with(rest, sep), sep);
        assert forall|i: int| 0 <= i < rest.len() implies !(#[trigger] rest[i]).contains(sep) by {
            assert(rest[i] == parts[i + 1]);
        }
        lemma_split_join(rest, sep);
    }
}

/// Trimming keeps only bytes of the input.
pub proof fn lemma_trim_ows_from_input(s: Seq<u8>, b: u8)
    requires
        trim_ows(s).contains(b),
    ensures
        s.contains(b),
{
    lemma_trim_start_from_input(s, b);
}

proof fn lemma_trim_end_from_input(s: Seq<u8>, b: u8)
    requires
        trim_end_ows(s).contains(b),
    ensures
        s.contains(b),
    decreases s.len(),
{
    if s.len() > 0 && is_ows(s.last()) {
        lemma_trim_end_from_input(s.drop_last(), b);
        let k = choose|k: int| 0 <= k < s.drop_last().len() && s.drop_last()[k] == b;
        assert(s[k] == b);
    }
}

proof fn lemma_trim_start_from_input(s: Seq<u8>, b: u8)
    requires
        trim_end_ows(trim_start_ows(s)).contains(b),
    ensures
        s.contains(b),
    decreases s.len(),
{
    if s.len() > 0 && is_ows(s[0]) {
        lemma_trim_start_from_input(s.drop_first(), b);
        let k = choose|k: int| 0 <= k < s.drop_first().len() && s.drop_first()[k] == b;
        assert(s[k + 1] == b);
    } else {
        lemma_trim_end_from_input(s, b);
    }
}

/// Bytes without optional whitespace at either edge are left as they are.
pub proof fn lemma_trim_ows_untrimmed(s: Seq<u8>)
    requires
        s.len() > 0 ==> !is_ows(s[0]) && !is_ows(s.last()),
    ensures
        trim_ows(s) == s,
{
}

} // verus!

verus! {

/// Joining two non-empty lists of parts is joining each and putting the
/// separator between.
pub proof fn lemma_join_concat(a: Seq<Seq<u8>>, b: Seq<Seq<u8>>, sep: u8)
    requires
        a.len() >= 1,
        b.len() >= 1,
    ensures
        join_with(a + b, sep) =~= join_with(a, sep) + seq![sep] + join_with(b, sep),
    decreases b.len(),
{
    if b.len() == 1 {
        assert((a + b).drop_last() =~= a);
        assert((a + b).last() == b[0]);
    } else {
        assert((a + b).drop_last() =~= a + b.drop_last());
        assert((a + b).last() == b.last());
        lemma_join_concat(a, b.drop_last(), sep);
    }
}

/// Joining groups that were each joined is joining all their parts.
pub proof fn lemma_join_groups(groups: Seq<Seq<Seq<u8>>>, sep: u8)
    requires
        groups.len() >= 1,
        forall|i: int| 0 <= i < groups.len() ==> (#[trigger] groups[i]).len() >= 1,
    ensures
        join_with(groups.map_values(|g: Seq<Seq<u8>>| join_with(g, sep)), sep) =~= join_with(
            groups.flatten(),
            sep,
        ),
        groups.flatten().len() >= 1,
    decreases groups.len(),
{
    let fields = groups.map_values(|g: Seq<Seq<u8>>| join_with(g, sep));
    let rest = groups.drop_first();
    if groups.len() == 1 {
        assert(rest.flatten() =~= Seq::<Seq<u8>>::empty());
        assert(groups.flatten() =~= groups[0]);
        assert(join_with(fields, sep) == fields[0]);
    } else {
        assert forall|i: int| 0 <= i < rest.len() implies (#[trigger] rest[i]).len() >= 1 by {
            assert(rest[i] == groups[i + 1]);
        }
        lemma_join_groups(rest, sep);
        let rest_fields = rest.map_values(|g: Seq<Seq<u8>>| join_with(g, sep));
        assert(fields =~= seq![join_with(groups[0], sep)] + rest_fields);
        lemma_join_prepend(join_with(groups[0], sep), rest_fields, sep);
        lemma_join_concat(groups[0], rest.flatten(), sep);
    }
}

} // verus!
