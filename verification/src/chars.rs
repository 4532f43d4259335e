use vstd::prelude::*;

verus! {

// Character-level helpers shared by the config parser, the search filter and
// the string builders. Specs are stated over `Seq<char>` views.

/// ASCII whitespace as the config grammar understands it.
pub open spec fn is_ws_char(c: char) -> bool {
    c == ' ' || c == '\t' || c == '\r' || c == '\n'
}

pub open spec fn is_digit_char(c: char) -> bool {
    48 <= c as u32 && c as u32 <= 57
}

/// The code point of `c` with an ASCII capital letter folded to lower case.
pub open spec fn lower_u32(c: char) -> u32 {
    if 65 <= c as u32 && c as u32 <= 90 {
        (c as u32 + 32) as u32
    } else {
        c as u32
    }
}

pub fn ws_char(c: char) -> (r: bool)
    ensures
        r == is_ws_char(c),
{
    c == ' ' || c == '\t' || c == '\r' || c == '\n'
}

/// Case-insensitive equality of two character sequences (ASCII folding only).
pub open spec fn spec_ieq(a: Seq<char>, b: Seq<char>) -> bool {
    a.len() == b.len() && (forall|i: int| 0 <= i < a.len() ==> lower_u32(a[i]) == lower_u32(b[i]))
}

/// Case-insensitive comparison of two string slices.
pub fn eq_ignore_case(a: &str, b: &str) -> (r: bool)
    ensures
        r == spec_ieq(a@, b@),
{
    let alen = a.unicode_len();
    let blen = b.unicode_len();
    if alen != blen {
        return false;
    }
    let mut i: usize = 0;
    while i < alen
        invariant
            alen == a@.len(),
            blen == b@.len(),
            alen == blen,
            0 <= i <= alen,
            forall|j: int| 0 <= j < i ==> lower_u32(a@[j]) == lower_u32(b@[j]),
        decreases alen - i,
    {
        let ca = a.get_char(i) as u32;
        let cb = b.get_char(i) as u32;
        let fa = if 65 <= ca && ca <= 90 { ca + 32 } else { ca };
        let fb = if 65 <= cb && cb <= 90 { cb + 32 } else { cb };
        if fa != fb {
            return false;
        }
        i += 1;
    }
    true
}

/// Exact equality of two string slices, by characters.
pub fn str_eq(a: &str, b: &str) -> (r: bool)
    ensures
        r == (a@ == b@),
{
    let alen = a.unicode_len();
    let blen = b.unicode_len();
    if alen != blen {
        proof {
            assert(a@ != b@) by {
                assert(a@.len() != b@.len());
            }
        }
        return false;
    }
    let mut i: usize = 0;
    while i < alen
        invariant
            alen == a@.len(),
            blen == b@.len(),
            alen == blen,
            0 <= i <= alen,
            forall|j: int| 0 <= j < i ==> a@[j] == b@[j],
        decreases alen - i,
    {
        if a.get_char(i) != b.get_char(i) {
            return false;
        }
        i += 1;
    }
    proof {
        assert(a@ =~= b@);
    }
    true
}

pub open spec fn spec_starts_with(s: Seq<char>, p: Seq<char>) -> bool {
    p.len() <= s.len() && s.take(p.len() as int) == p
}

pub open spec fn spec_ends_with(s: Seq<char>, p: Seq<char>) -> bool {
    p.len() <= s.len() && s.skip(s.len() - p.len()) == p
}

pub fn starts_with(s: &str, p: &str) -> (r: bool)
    ensures
        r == spec_starts_with(s@, p@),
{
    let slen = s.unicode_len();
    let plen = p.unicode_len();
    if plen > slen {
        return false;
    }
    let mut i: usize = 0;
    while i < plen
        invariant
            slen == s@.len(),
            plen == p@.len(),
            plen <= slen,
            0 <= i <= plen,
            forall|j: int| 0 <= j < i ==> s@[j] == p@[j],
        decreases plen - i,
    {
        if s.get_char(i) != p.get_char(i) {
            assert(s@.take(plen as int)[i as int] != p@[i as int]);
            return false;
        }
        i += 1;
    }
    proof {
        assert(s@.take(plen as int) =~= p@);
    }
    true
}

pub fn ends_with(s: &str, p: &str) -> (r: bool)
    ensures
        r == spec_ends_with(s@, p@),
{
    let slen = s.unicode_len();
    let plen = p.unicode_len();
    if plen > slen {
        return false;
    }
    let off = slen - plen;
    let mut i: usize = 0;
    while i < plen
        invariant
            slen == s@.len(),
            plen == p@.len(),
            plen <= slen,
            off == slen - plen,
            0 <= i <= plen,
            forall|j: int| 0 <= j < i ==> s@[off + j] == p@[j],
        decreases plen - i,
    {
        if s.get_char(off + i) != p.get_char(i) {
            assert(s@.skip(off as int)[i as int] != p@[i as int]);
            return false;
        }
        i += 1;
    }
    proof {
        assert(s@.skip(off as int) =~= p@);
    }
    true
}

// ---------- trimming ----------

pub open spec fn trim_start_rec(s: Seq<char>) -> Seq<char>
    decreases s.len(),
{
    if s.len() > 0 && is_ws_char(s[0]) {
        trim_start_rec(s.skip(1))
    } else {
        s
    }
}

pub open spec fn trim_end_rec(s: Seq<char>) -> Seq<char>
    decreases s.len(),
{
    if s.len() > 0 && is_ws_char(s[s.len() - 1]) {
        trim_end_rec(s.take(s.len() - 1))
    } else {
        s
    }
}

/// `s` with ASCII whitespace removed from both ends.
pub open spec fn spec_trim(s: Seq<char>) -> Seq<char> {
    trim_end_rec(trim_start_rec(s))
}

proof fn lemma_trim_start_skip(s: Seq<char>, i: int)
    requires
        0 <= i <= s.len(),
        forall|j: int| 0 <= j < i ==> is_ws_char(s[j]),
        i == s.len() || !is_ws_char(s[i]),
    ensures
        trim_start_rec(s) == s.skip(i),
    decreases i,
{
    if i == 0 {
        assert(s.skip(0) =~= s);
    } else {
        assert(is_ws_char(s[0]));
        let t = s.skip(1);
        assert forall|j: int| 0 <= j < i - 1 implies is_ws_char(t[j]) by {
            assert(t[j] == s[j + 1]);
        }
        if i - 1 < t.len() {
            assert(t[i - 1] == s[i]);
        }
        lemma_trim_start_skip(t, i - 1);
        assert(t.skip(i - 1) =~= s.skip(i));
    }
}

proof fn lemma_trim_end_take(s: Seq<char>, b: int)
    requires
        0 <= b <= s.len(),
        forall|j: int| b <= j < s.len() ==> is_ws_char(s[j]),
        b == 0 || !is_ws_char(s[b - 1]),
    ensures
        trim_end_rec(s) == s.take(b),
    decreases s.len() - b,
{
    if b == s.len() {
        assert(s.take(b) =~= s);
    } else {
        assert(is_ws_char(s[s.len() - 1]));
        let t = s.take(s.len() - 1);
        assert forall|j: int| b <= j < t.len() implies is_ws_char(t[j]) by {
            assert(t[j] == s[j]);
        }
        if b > 0 {
            assert(t[b - 1] == s[b - 1]);
        }
        lemma_trim_end_take(t, b);
        assert(t.take(b) =~= s.take(b));
    }
}

/// Trim ASCII whitespace from both ends of a string slice.
pub fn trim_str<'a>(s: &'a str) -> (r: &'a str)
    ensures
        r@ == spec_trim(s@),
{
    let len = s.unicode_len();
    let mut a: usize = 0;
    while a < len && ws_char(s.get_char(a))
        invariant
            len == s@.len(),
            0 <= a <= len,
            forall|j: int| 0 <= j < a ==> is_ws_char(s@[j]),
        decreases len - a,
    {
        a += 1;
    }
    proof {
        lemma_trim_start_skip(s@, a as int);
    }
    if a == len {
        let r = s.substring_char(a, a);
        proof {
            assert(s@.skip(a as int) =~= s@.subrange(a as int, a as int));
            assert(trim_end_rec(s@.skip(a as int)) == s@.skip(a as int));
        }
        return r;
    }
    let mut b: usize = len;
    while b > a + 1 && ws_char(s.get_char(b - 1))
        invariant
            len == s@.len(),
            0 <= a < b <= len,
            !is_ws_char(s@[a as int]),
            forall|j: int| b <= j < len ==> is_ws_char(s@[j]),
        decreases b,
    {
        b -= 1;
    }
    // here s[b-1] is not whitespace: either the loop condition failed on the
    // character, or b == a + 1 and s[a] is not whitespace
    let r = s.substring_char(a, b);
    proof {
        let t = s@.skip(a as int);
        assert forall|j: int| (b - a) <= j < t.len() implies is_ws_char(t[j]) by {
            assert(t[j] == s@[j + a]);
        }
        assert(t[b - a - 1] == s@[b - 1]);
        lemma_trim_end_take(t, b - a);
        assert(t.take(b - a) =~= s@.subrange(a as int, b as int));
    }
    r
}

// ---------- line splitting ----------

/// The lines of `s`, split on newline characters. A trailing newline yields a
/// final empty line, which the config parser skips anyway.
pub open spec fn lines_acc(s: Seq<char>, i: int, cur: Seq<char>) -> Seq<Seq<char>>
    decreases s.len() - i,
    when 0 <= i <= s.len()
{
    if i == s.len() {
        seq![cur]
    } else if s[i] == '\n' {
        seq![cur] + lines_acc(s, i + 1, Seq::empty())
    } else {
        lines_acc(s, i + 1, cur.push(s[i]))
    }
}

pub open spec fn spec_lines(s: Seq<char>) -> Seq<Seq<char>> {
    lines_acc(s, 0, Seq::empty())
}

/// Split a string slice into its lines.
pub fn split_lines<'a>(s: &'a str) -> (r: Vec<&'a str>)
    ensures
        r@.len() == spec_lines(s@).len(),
        forall|k: int| 0 <= k < r@.len() ==> r@[k]@ == spec_lines(s@)[k],
{
    let len = s.unicode_len();
    let mut out: Vec<&str> = Vec::new();
    let mut start: usize = 0;
    let mut i: usize = 0;
    proof {
        assert(out@.map_values(|t: &str| t@) =~= Seq::<Seq<char>>::empty());
        assert(s@.subrange(0, 0) =~= Seq::<char>::empty());
        assert(Seq::<Seq<char>>::empty() + lines_acc(s@, 0, Seq::empty()) =~= lines_acc(
            s@,
            0,
            Seq::empty(),
        ));
    }
    while i < len
        invariant
            len == s@.len(),
            0 <= start <= i <= len,
            spec_lines(s@) == out@.map_values(|t: &str| t@) + lines_acc(
                s@,
                i as int,
                s@.subrange(start as int, i as int),
            ),
            forall|j: int| start <= j < i ==> s@[j] != '\n',
        decreases len - i,
    {
        let c = s.get_char(i);
        if c == '\n' {
            let line = s.substring_char(start, i);
            out.push(line);
            proof {
                let pre = out@.drop_last();
                assert(out@.map_values(|t: &str| t@) =~= pre.map_values(|t: &str| t@).push(
                    s@.subrange(start as int, i as int),
                ));
                assert(seq![s@.subrange(start as int, i as int)] + lines_acc(
                    s@,
                    i + 1,
                    Seq::empty(),
                ) =~= seq![s@.subrange(start as int, i as int)].add(lines_acc(
                    s@,
                    i + 1,
                    Seq::empty(),
                )));
                assert(pre.map_values(|t: &str| t@).push(s@.subrange(start as int, i as int))
                    + lines_acc(s@, i + 1, Seq::empty()) =~= pre.map_values(|t: &str| t@) + (seq![
                    s@.subrange(start as int, i as int),
                ] + lines_acc(s@, i + 1, Seq::empty())));
            }
            start = i + 1;
            i += 1;
            proof {
                assert(s@.subrange(start as int, i as int) =~= Seq::<char>::empty());
            }
        } else {
            i += 1;
            proof {
                assert(s@.subrange(start as int, i as int) =~= s@.subrange(
                    start as int,
                    i - 1,
                ).push(s@[i - 1]));
            }
        }
    }
    let line = s.substring_char(start, i);
    out.push(line);
    proof {
        let pre = out@.drop_last();
        assert(out@.map_values(|t: &str| t@) =~= pre.map_values(|t: &str| t@).push(
            s@.subrange(start as int, i as int),
        ));
        assert(spec_lines(s@) =~= out@.map_values(|t: &str| t@));
    }
    out
}

// ---------- number parsing and printing ----------

pub open spec fn all_digits(s: Seq<char>) -> bool {
    forall|i: int| 0 <= i < s.len() ==> is_digit_char(s[i])
}

/// Value of a sequence of decimal digit characters.
pub open spec fn digits_val(s: Seq<char>) -> int
    decreases s.len(),
{
    if s.len() == 0 {
        0
    } else {
        digits_val(s.take(s.len() - 1)) * 10 + (s[s.len() - 1] as u32 - 48)
    }
}

/// What `str::parse::<u16>` accepts: optional leading plus sign, then at
/// least one digit, value at most 65535.
pub open spec fn spec_parse_u16(s: Seq<char>) -> Option<u16> {
    let t = if s.len() > 0 && s[0] == '+' {
        s.skip(1)
    } else {
        s
    };
    if t.len() > 0 && all_digits(t) && digits_val(t) <= 65535 {
        Some(digits_val(t) as u16)
    } else {
        None
    }
}

proof fn lemma_digits_val_nonneg(s: Seq<char>)
    requires
        all_digits(s),
    ensures
        digits_val(s) >= 0,
    decreases s.len(),
{
    if s.len() > 0 {
        let t = s.take(s.len() - 1);
        assert(all_digits(t));
        lemma_digits_val_nonneg(t);
    }
}

proof fn lemma_digits_val_prefix_le(s: Seq<char>, j: int)
    requires
        all_digits(s),
        0 <= j <= s.len(),
    ensures
        digits_val(s.take(j)) <= digits_val(s),
    decreases s.len() - j,
{
    if j < s.len() {
        lemma_digits_val_prefix_le(s, j + 1);
        let a = s.take(j);
        let b = s.take(j + 1);
        assert(b.take(b.len() - 1) =~= a);
        assert(all_digits(a));
        lemma_digits_val_nonneg(a);
    } else {
        assert(s.take(j) =~= s);
    }
}

/// Parse a decimal `u16`, as the standard parser would.
pub fn parse_u16(s: &str) -> (r: Option<u16>)
    ensures
        r == spec_parse_u16(s@),
{
    let len = s.unicode_len();
    let mut i: usize = 0;
    if len > 0 && s.get_char(0) == '+' {
        i = 1;
    }
    let ghost t = if s@.len() > 0 && s@[0] == '+' {
        s@.skip(1)
    } else {
        s@
    };
    let ghost off = i as int;
    if i >= len {
        return None;
    }
    let mut val: u32 = 0;
    while i < len
        invariant
            len == s@.len(),
            off <= i as int <= len,
            off == 0 || off == 1,
            t == s@.skip(off),
            t == (if s@.len() > 0 && s@[0] == '+' {
                s@.skip(1)
            } else {
                s@
            }),
            forall|j: int| off <= j < i ==> is_digit_char(s@[j]),
            val == digits_val(t.take(i - off)),
            val <= 65535,
        decreases len - i,
    {
        let c = s.get_char(i) as u32;
        if !(48 <= c && c <= 57) {
            proof {
                assert(t[i - off] == s@[i as int]);
                assert(!is_digit_char(t[i - off]));
                assert(!all_digits(t));
            }
            return None;
        }
        let d = c - 48;
        proof {
            assert(t.take(i - off + 1).take(i - off + 1 - 1) =~= t.take(i - off));
            assert(t.take(i - off + 1)[i - off] == s@[i as int]);
            assert(t.take(i - off + 1).len() == i - off + 1);
        }
        if val > 6553 || (val == 6553 && d > 5) {
            // the value of the whole digit string can only grow from here
            proof {
                let k = i - off + 1;
                assert(digits_val(t.take(k)) == digits_val(t.take(k).take(k - 1)) * 10 + (
                t.take(k)[k - 1] as u32 - 48));
                assert(digits_val(t.take(k)) == val * 10 + d);
                assert(val * 10 + d > 65535);
                if all_digits(t) {
                    lemma_digits_val_prefix_le(t, k);
                    assert(digits_val(t) > 65535);
                }
            }
            return None;
        }
        val = val * 10 + d;
        i += 1;
    }
    proof {
        assert(t.take(i - off) =~= t);
        assert(t.len() > 0);
        assert forall|j: int| 0 <= j < t.len() implies is_digit_char(t[j]) by {
            assert(t[j] == s@[j + off]);
        }
    }
    Some(val as u16)
}

/// Decimal digit bytes of a nonnegative number, most significant first.
pub open spec fn dec_bytes(n: int) -> Seq<u8>
    decreases n,
{
    if n < 0 {
        Seq::empty()
    } else if n < 10 {
        seq![(48 + n) as u8]
    } else {
        dec_bytes(n / 10).push((48 + n % 10) as u8)
    }
}

/// The same digits as characters.
pub open spec fn dec_chars(n: int) -> Seq<char> {
    dec_bytes(n).map_values(|b: u8| b as char)
}

proof fn lemma_dec_bytes_ascii(n: int)
    requires
        n >= 0,
    ensures
        forall|i: int| 0 <= i < dec_bytes(n).len() ==> (48 <= #[trigger] dec_bytes(n)[i] <= 57),
    decreases n,
{
    if n < 10 {
        assert(dec_bytes(n) == seq![(48 + n) as u8]);
        assert(dec_bytes(n)[0] == (48 + n) as u8);
    } else {
        lemma_dec_bytes_ascii(n / 10);
        let pre = dec_bytes(n / 10);
        assert(dec_bytes(n) == pre.push((48 + n % 10) as u8));
        assert forall|i: int| 0 <= i < dec_bytes(n).len() implies (48 <= #[trigger] dec_bytes(
            n,
        )[i] <= 57) by {
            if i < pre.len() {
                assert(dec_bytes(n)[i] == pre[i]);
            } else {
                assert(dec_bytes(n)[i] == (48 + n % 10) as u8);
            }
        }
    }
}

fn push_dec(v: &mut Vec<u8>, x: u16)
    ensures
        final(v)@ == old(v)@ + dec_bytes(x as int),
    decreases x,
{
    if x < 10 {
        v.push(48 + x as u8);
        proof {
            assert(v@ =~= old(v)@ + dec_bytes(x as int));
        }

    } else {
        push_dec(v, x / 10);
        v.push(48 + (x % 10) as u8);
        proof {
            assert(v@ =~= old(v)@ + dec_bytes(x as int));
        }

    }
}

/// Relies on String::from_utf8: bytes below 128 decode to the characters
/// with the same code points, one character per byte.
#[verifier::external_body]
fn ascii_to_string(v: Vec<u8>) -> (r: String)
    requires
        forall|i: int| 0 <= i < v@.len() ==> v@[i] < 128,
    ensures
        r@.len() == v@.len(),
        forall|i: int| 0 <= i < v@.len() ==> r@[i] == v@[i] as char,
{
    match String::from_utf8(v) {
        Ok(s) => s,
        Err(_) => String::new(),
    }
}

/// Render a `u16` in decimal.
pub fn u16_string(x: u16) -> (r: String)
    ensures
        r@ == dec_chars(x as int),
{
    let mut v: Vec<u8> = Vec::new();
    push_dec(&mut v, x);
    proof {
        lemma_dec_bytes_ascii(x as int);
        assert(v@ =~= dec_bytes(x as int));
    }
    let r = ascii_to_string(v);
    proof {
        assert(r@ =~= dec_chars(x as int));
    }
    r
}

// ---------- case-insensitive substring search ----------

/// `needle` matches `hay` at offset `off`, comparing case-insensitively.
pub open spec fn ci_match_at(hay: Seq<char>, needle: Seq<char>, off: int) -> bool {
    forall|j: int| 0 <= j < needle.len() ==> lower_u32(hay[off + j]) == lower_u32(needle[j])
}

/// `hay` contains `needle` somewhere, comparing case-insensitively.
pub open spec fn spec_contains_ci(hay: Seq<char>, needle: Seq<char>) -> bool {
    exists|off: int| 0 <= off <= hay.len() - needle.len() && ci_match_at(hay, needle, off)
}

/// Case-insensitive substring test (ASCII folding only).
pub fn contains_ci(hay: &str, needle: &str) -> (r: bool)
    ensures
        r == spec_contains_ci(hay@, needle@),
{
    let hlen = hay.unicode_len();
    let nlen = needle.unicode_len();
    if nlen > hlen {
        return false;
    }
    let mut off: usize = 0;
    while off <= hlen - nlen
        invariant
            hlen == hay@.len(),
            nlen == needle@.len(),
            nlen <= hlen,
            0 <= off <= hlen - nlen + 1,
            forall|o: int| 0 <= o < off ==> !ci_match_at(hay@, needle@, o),
        decreases hlen + 1 - nlen - off,
    {
        let mut j: usize = 0;
        let mut ok = true;
        while j < nlen && ok
            invariant
                hlen == hay@.len(),
                nlen == needle@.len(),
                nlen <= hlen,
                0 <= off <= hlen - nlen,
                0 <= j <= nlen,
                ok ==> forall|k: int| 0 <= k < j ==> lower_u32(hay@[off + k]) == lower_u32(
                    needle@[k],
                ),
                !ok ==> !ci_match_at(hay@, needle@, off as int),
            decreases nlen - j + (if ok {
                1int
            } else {
                0int
            }),
        {
            let ca = hay.get_char(off + j) as u32;
            let cb = needle.get_char(j) as u32;
            let fa = if 65 <= ca && ca <= 90 { ca + 32 } else { ca };
            let fb = if 65 <= cb && cb <= 90 { cb + 32 } else { cb };
            if fa != fb {
                ok = false;
                proof {
                    assert(lower_u32(hay@[off + j]) != lower_u32(needle@[j as int]));
                }
            } else {
                j += 1;
            }
        }
        if ok {
            proof {
                assert(ci_match_at(hay@, needle@, off as int));
            }
            return true;
        }
        off += 1;
    }
    proof {
        assert forall|o: int| 0 <= o <= hay@.len() - needle@.len() implies !ci_match_at(
            hay@,
            needle@,
            o,
        ) by {
            assert(o < off);
        }
    }
    false
}

// ---------- lexicographic order on character sequences ----------

/// `a` is at or before `b` in lexicographic order by code point.
pub open spec fn spec_lex_le(a: Seq<char>, b: Seq<char>) -> bool
    decreases a.len(),
{
    if a.len() == 0 {
        true
    } else if b.len() == 0 {
        false
    } else if (a[0] as u32) < (b[0] as u32) {
        true
    } else if (a[0] as u32) > (b[0] as u32) {
        false
    } else {
        spec_lex_le(a.skip(1), b.skip(1))
    }
}

pub proof fn lemma_lex_le_total(a: Seq<char>, b: Seq<char>)
    ensures
        spec_lex_le(a, b) || spec_lex_le(b, a),
    decreases a.len(),
{
    if a.len() > 0 && b.len() > 0 && a[0] as u32 == b[0] as u32 {
        lemma_lex_le_total(a.skip(1), b.skip(1));
    }
}

pub proof fn lemma_lex_le_trans(a: Seq<char>, b: Seq<char>, c: Seq<char>)
    requires
        spec_lex_le(a, b),
        spec_lex_le(b, c),
    ensures
        spec_lex_le(a, c),
    decreases a.len(),
{
    if a.len() > 0 && b.len() > 0 && c.len() > 0 {
        if a[0] as u32 == b[0] as u32 && b[0] as u32 == c[0] as u32 {
            lemma_lex_le_trans(a.skip(1), b.skip(1), c.skip(1));
        }
    }
}

/// Lexicographic order test on string slices.
pub fn str_lex_le(a: &str, b: &str) -> (r: bool)
    ensures
        r == spec_lex_le(a@, b@),
{
    let alen = a.unicode_len();
    let blen = b.unicode_len();
    let mut i: usize = 0;
    proof {
        assert(a@.skip(0) =~= a@);
        assert(b@.skip(0) =~= b@);
    }
    loop
        invariant
            alen == a@.len(),
            blen == b@.len(),
            0 <= i <= alen,
            0 <= i <= blen,
            spec_lex_le(a@, b@) == spec_lex_le(a@.skip(i as int), b@.skip(i as int)),
        decreases alen - i,
    {
        if i == alen {
            return true;
        }
        if i == blen {
            return false;
        }
        let ca = a.get_char(i) as u32;
        let cb = b.get_char(i) as u32;
        proof {
            assert(a@.skip(i as int)[0] == a@[i as int]);
            assert(b@.skip(i as int)[0] == b@[i as int]);
            assert(a@.skip(i as int).skip(1) =~= a@.skip(i + 1));
            assert(b@.skip(i as int).skip(1) =~= b@.skip(i + 1));
        }
        if ca < cb {
            return true;
        }
        if ca > cb {
            return false;
        }
        i += 1;
    }
}

// ---------- first occurrence ----------

/// Index of the first occurrence of `c` in `s` at or after `i`, or `s.len()`.
pub open spec fn find_from(s: Seq<char>, c: char, i: int) -> int
    decreases s.len() - i,
    when 0 <= i <= s.len()
{
    if i >= s.len() {
        s.len() as int
    } else if s[i] == c {
        i
    } else {
        find_from(s, c, i + 1)
    }
}

pub open spec fn spec_find(s: Seq<char>, c: char) -> int {
    find_from(s, c, 0)
}

pub fn find_char(s: &str, c: char) -> (r: usize)
    ensures
        r as int == spec_find(s@, c),
        r <= s@.len(),
        r < s@.len() ==> s@[r as int] == c,
        forall|j: int| 0 <= j < r ==> s@[j] != c,
{
    let len = s.unicode_len();
    let mut i: usize = 0;
    while i < len
        invariant
            len == s@.len(),
            0 <= i <= len,
            spec_find(s@, c) == find_from(s@, c, i as int),
            forall|j: int| 0 <= j < i ==> s@[j] != c,
        decreases len - i,
    {
        if s.get_char(i) == c {
            return i;
        }
        i += 1;
    }
    i
}

/// Index of the first whitespace character in `s` at or after `i`, or `s.len()`.
pub open spec fn find_ws_from(s: Seq<char>, i: int) -> int
    decreases s.len() - i,
    when 0 <= i <= s.len()
{
    if i >= s.len() {
        s.len() as int
    } else if is_ws_char(s[i]) {
        i
    } else {
        find_ws_from(s, i + 1)
    }
}

pub open spec fn spec_find_ws(s: Seq<char>) -> int {
    find_ws_from(s, 0)
}

pub fn find_ws(s: &str) -> (r: usize)
    ensures
        r as int == spec_find_ws(s@),
        r <= s@.len(),
        r < s@.len() ==> is_ws_char(s@[r as int]),
        forall|j: int| 0 <= j < r ==> !is_ws_char(s@[j]),
{
    let len = s.unicode_len();
    let mut i: usize = 0;
    while i < len
        invariant
            len == s@.len(),
            0 <= i <= len,
            spec_find_ws(s@) == find_ws_from(s@, i as int),
            forall|j: int| 0 <= j < i ==> !is_ws_char(s@[j]),
        decreases len - i,
    {
        if ws_char(s.get_char(i)) {
            return i;
        }
        i += 1;
    }
    i
}

/// `s` without its last character; empty stays empty.
pub open spec fn spec_pop(s: Seq<char>) -> Seq<char> {
    if s.len() == 0 {
        s
    } else {
        s.drop_last()
    }
}

/// Relies on String::push: appends exactly the one given character.
#[verifier::external_body]
pub fn push_char(s: &mut String, c: char)
    ensures
        final(s)@ == old(s)@.push(c),
{
    s.push(c);
}

/// Remove the last character of a string, if any.
pub fn pop_char(s: &mut String)
    ensures
        final(s)@ == spec_pop(old(s)@),
{
    let len = s.unicode_len();
    if len > 0 {
        let t = s.substring_char(0, len - 1).to_owned();
        *s = t;
        proof {
            assert(s@ =~= old(s)@.drop_last());
        }
    } else {
        proof {
            assert(s@ =~= old(s)@);
        }
    }
}

} // verus!
