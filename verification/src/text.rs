//! Text helpers: decimal and hexadecimal rendering, decimal parsing, and
//! character-level comparisons on `str`, each stated over `Seq<char>`.
use vstd::prelude::*;
use vstd::string::*;

verus! {

/// The character of a digit in base 16 (lower case), also used for base 10.
pub open spec fn digit_char(d: int) -> char {
    if d < 10 {
        (48 + d) as char
    } else {
        (87 + d) as char
    }
}

/// Decimal rendering of `n`, without sign or leading zeros (as `format!("{n}")`).
pub open spec fn decimal(n: nat) -> Seq<char>
    decreases n,
{
    if n < 10 {
        seq![digit_char(n as int)]
    } else {
        decimal(n / 10) + seq![digit_char((n % 10) as int)]
    }
}

/// Lower-case hexadecimal rendering of `n` without leading zeros.
pub open spec fn hex_digits(n: nat) -> Seq<char>
    decreases n,
{
    if n < 16 {
        seq![digit_char(n as int)]
    } else {
        hex_digits(n / 16) + seq![digit_char((n % 16) as int)]
    }
}

/// Lower-case hexadecimal rendering padded with zeros to at least two digits
/// (as `format!("{n:02x}")`).
pub open spec fn hex2(n: nat) -> Seq<char> {
    if n < 16 {
        seq!['0', digit_char(n as int)]
    } else {
        hex_digits(n)
    }
}

/// The value of a lower-case hexadecimal digit.
pub open spec fn hex_digit_value(c: char) -> int {
    if '0' <= c && c <= '9' {
        (c as int) - 48
    } else {
        (c as int) - 87
    }
}

pub open spec fn is_hex_digit(c: char) -> bool {
    ('0' <= c && c <= '9') || ('a' <= c && c <= 'f')
}

/// The value of a string of lower-case hexadecimal digits.
pub open spec fn hex_value(s: Seq<char>) -> int
    decreases s.len(),
{
    if s.len() == 0 {
        0
    } else {
        hex_value(s.drop_last()) * 16 + hex_digit_value(s.last())
    }
}

pub open spec fn is_digit(c: char) -> bool {
    '0' <= c && c <= '9'
}

pub open spec fn all_digits(s: Seq<char>) -> bool {
    forall|i: int| 0 <= i < s.len() ==> #[trigger] is_digit(s[i])
}

/// Value of a string of decimal digits.
pub open spec fn digits_value(s: Seq<char>) -> nat
    decreases s.len(),
{
    if s.len() == 0 {
        0
    } else {
        digits_value(s.drop_last()) * 10 + ((s.last() as int) - 48) as nat
    }
}

/// What `str::parse::<usize>` accepts: an optional `+` followed by at least one
/// ASCII digit and nothing else, whose value fits in a `usize`.
pub open spec fn parse_usize_text(s: Seq<char>) -> Option<usize> {
    let body = if s.len() > 0 && s[0] == '+' {
        s.drop_first()
    } else {
        s
    };
    if body.len() > 0 && all_digits(body) && digits_value(body) <= usize::MAX {
        Some(digits_value(body) as usize)
    } else {
        None
    }
}

/// `needle` occurs somewhere in `hay` as a contiguous run of characters.
pub open spec fn occurs_in(needle: Seq<char>, hay: Seq<char>) -> bool {
    exists|i: int|
        0 <= i && i + needle.len() <= hay.len() && #[trigger] hay.subrange(i, i + needle.len())
            == needle
}

/// Names what `str::to_lowercase` returns for a string.
pub uninterp spec fn lowercased(s: Seq<char>) -> Seq<char>;

/// Trusted: calls `str::to_lowercase`, whose result is a pure function of the
/// text (Unicode lower-case mapping); the contract only names it.
#[verifier::external_body]
pub(crate) fn to_lowercase(s: &str) -> (r: String)
    ensures
        r@ == lowercased(s@),
{
    s.to_lowercase()
}

/// The lower case of an ASCII character: 'A'..'Z' become 'a'..'z', every
/// other character stays as it is.
pub open spec fn ascii_lower(c: char) -> char {
    if 'A' <= c && c <= 'Z' {
        ((c as int) + 32) as char
    } else {
        c
    }
}

/// What `str::to_lowercase` gives for a text. Its Unicode mapping, on ASCII
/// text, keeps the length and lowers each letter 'A'..'Z' to 'a'..'z' leaving
/// the other characters alone; other texts go by `lowercased`.
pub open spec fn lower_text(s: Seq<char>) -> Seq<char> {
    if vstd::utf8::is_ascii_chars(s) {
        s.map_values(|c: char| ascii_lower(c))
    } else {
        lowercased(s)
    }
}

/// Two characters are the same letter up to case: equal, or an upper-case
/// ASCII letter and its lower-case counterpart.
pub open spec fn same_letter(c: char, d: char) -> bool {
    ||| c == d
    ||| 'A' <= c && c <= 'Z' && (d as int) == (c as int) + 32
    ||| 'A' <= d && d <= 'Z' && (c as int) == (d as int) + 32
}

/// `needle` occurs in `hay` at some position with each character the same
/// letter up to case.
pub open spec fn occurs_ignoring_case(needle: Seq<char>, hay: Seq<char>) -> bool {
    exists|i: int|
        0 <= i && i + needle.len() <= hay.len() && #[trigger] matches_at(needle, hay, i)
}

pub open spec fn matches_at(needle: Seq<char>, hay: Seq<char>, i: int) -> bool {
    forall|k: int| 0 <= k < needle.len() ==> #[trigger] same_letter(hay[i + k], needle[k])
}

/// The lower case of a text, as `str::to_lowercase` gives it; ASCII text is
/// lowered here, character by character.
pub fn lowercase_text(s: &str) -> (r: String)
    ensures
        r@ == lower_text(s@),
{
    if !s.is_ascii() {
        return to_lowercase(s);
    }
    let alphabet = "abcdefghijklmnopqrstuvwxyz";
    proof {
        reveal_strlit("abcdefghijklmnopqrstuvwxyz");
    }
    let cs = chars_of(s);
    let n = cs.len();
    let mut r = String::new();
    let mut i: usize = 0;
    while i < n
        invariant
            cs@ == s@,
            n == s@.len(),
            alphabet@ == "abcdefghijklmnopqrstuvwxyz"@,
            alphabet@.len() == 26,
            forall|k: int| 0 <= k < 26 ==> #[trigger] alphabet@[k] == ((97 + k) as char),
            i <= n,
            r@ == s@.subrange(0, i as int).map_values(|c: char| ascii_lower(c)),
        decreases n - i,
    {
        let c = cs[i];
        let piece = if 'A' <= c && c <= 'Z' {
            let k = (c as u32 - 65) as usize;
            alphabet.substring_char(k, k + 1)
        } else {
            s.substring_char(i, i + 1)
        };
        assert(piece@ =~= seq![ascii_lower(c)]) by {
            assert(piece@.len() == 1);
        }
        r.append(piece);
        i = i + 1;
        assert(r@ =~= s@.subrange(0, i as int).map_values(|c: char| ascii_lower(c)));
    }
    assert(s@.subrange(0, n as int) =~= s@);
    r
}

/// On ASCII text, a lower-cased needle occurs in a lower-cased text exactly
/// when the needle occurs in the text with letters matched regardless of case.
pub proof fn lemma_lower_match_ignores_case(needle: Seq<char>, hay: Seq<char>)
    requires
        vstd::utf8::is_ascii_chars(needle),
        vstd::utf8::is_ascii_chars(hay),
    ensures
        lower_text(needle).len() == needle.len(),
        lower_text(hay).len() == hay.len(),
        occurs_in(lower_text(needle), lower_text(hay)) <==> occurs_ignoring_case(needle, hay),
{
    let ln = lower_text(needle);
    let lh = lower_text(hay);
    assert(ln.len() == needle.len());
    assert(lh.len() == hay.len());
    assert forall|i: int| 0 <= i && i + needle.len() <= hay.len() implies (#[trigger] lh.subrange(
        i,
        i + ln.len(),
    ) == ln) == matches_at(needle, hay, i) by {
        assert forall|k: int| 0 <= k < needle.len() implies (lh[i + k] == ln[k]) == same_letter(
            hay[i + k],
            needle[k],
        ) by {
            let c = hay[i + k];
            let d = needle[k];
            assert(lh[i + k] == ascii_lower(c));
            assert(ln[k] == ascii_lower(d));
        }
        if lh.subrange(i, i + ln.len()) == ln {
            assert forall|k: int| 0 <= k < needle.len() implies #[trigger] same_letter(
                hay[i + k],
                needle[k],
            ) by {
                assert(lh.subrange(i, i + ln.len())[k] == lh[i + k]);
            }
        }
        if matches_at(needle, hay, i) {
            assert forall|k: int| 0 <= k < ln.len() implies lh.subrange(i, i + ln.len())[k]
                == ln[k] by {
                assert(same_letter(hay[i + k], needle[k]));
            }
            assert(lh.subrange(i, i + ln.len()) =~= ln);
        }
    }
    if occurs_in(ln, lh) {
        let i = choose|i: int|
            0 <= i && i + ln.len() <= lh.len() && #[trigger] lh.subrange(i, i + ln.len()) == ln;
        assert(matches_at(needle, hay, i));
    }
    if occurs_ignoring_case(needle, hay) {
        let i = choose|i: int|
            0 <= i && i + needle.len() <= hay.len() && #[trigger] matches_at(needle, hay, i);
        assert(lh.subrange(i, i + ln.len()) == ln);
    }
}

fn digit_text(d: u32) -> (r: &'static str)
    requires
        d < 16,
    ensures
        r@ == seq![digit_char(d as int)],
{
    proof {
        reveal_strlit("0");
        reveal_strlit("1");
        reveal_strlit("2");
        reveal_strlit("3");
        reveal_strlit("4");
        reveal_strlit("5");
        reveal_strlit("6");
        reveal_strlit("7");
        reveal_strlit("8");
        reveal_strlit("9");
        reveal_strlit("a");
        reveal_strlit("b");
        reveal_strlit("c");
        reveal_strlit("d");
        reveal_strlit("e");
        reveal_strlit("f");
    }
    if d == 0 {
        "0"
    } else if d == 1 {
        "1"
    } else if d == 2 {
        "2"
    } else if d == 3 {
        "3"
    } else if d == 4 {
        "4"
    } else if d == 5 {
        "5"
    } else if d == 6 {
        "6"
    } else if d == 7 {
        "7"
    } else if d == 8 {
        "8"
    } else if d == 9 {
        "9"
    } else if d == 10 {
        "a"
    } else if d == 11 {
        "b"
    } else if d == 12 {
        "c"
    } else if d == 13 {
        "d"
    } else if d == 14 {
        "e"
    } else {
        "f"
    }
}

/// Appends the decimal rendering of `n` to `s`.
pub fn push_decimal(s: &mut String, n: usize)
    ensures
        final(s)@ == old(s)@ + decimal(n as nat),
    decreases n,
{
    if n >= 10 {
        push_decimal(s, n / 10);
    }
    let d = (n % 10) as u32;
    s.append(digit_text(d));
    assert(final(s)@ =~= old(s)@ + decimal(n as nat)) by {
        if n >= 10 {
            assert(decimal(n as nat) == decimal((n / 10) as nat) + seq![
                digit_char((n % 10) as int),
            ]);
        }
    }
}

/// Appends `n` in lower-case hexadecimal without leading zeros.
fn push_hex_digits(s: &mut String, n: u16)
    ensures
        final(s)@ == old(s)@ + hex_digits(n as nat),
    decreases n,
{
    if n >= 16 {
        push_hex_digits(s, n / 16);
    }
    let d = (n % 16) as u32;
    s.append(digit_text(d));
    assert(final(s)@ =~= old(s)@ + hex_digits(n as nat)) by {
        if n >= 16 {
            assert(hex_digits(n as nat) == hex_digits((n / 16) as nat) + seq![
                digit_char((n % 16) as int),
            ]);
        }
    }
}

/// Appends `n` in lower-case hexadecimal, zero-padded to two digits.
pub fn push_hex2(s: &mut String, n: u16)
    ensures
        final(s)@ == old(s)@ + hex2(n as nat),
{
    if n < 16 {
        s.append(digit_text(0));
        s.append(digit_text(n as u32));
        assert(final(s)@ =~= old(s)@ + hex2(n as nat));
    } else {
        push_hex_digits(s, n);
    }
}

/// The characters of `s`, one per element.
pub fn chars_of(s: &str) -> (r: Vec<char>)
    ensures
        r@ == s@,
{
    let n = s.unicode_len();
    let mut r: Vec<char> = Vec::new();
    let mut i: usize = 0;
    while i < n
        invariant
            n == s@.len(),
            i <= n,
            r@ == s@.subrange(0, i as int),
        decreases n - i,
    {
        let c = s.get_char(i);
        r.push(c);
        i = i + 1;
        assert(r@ =~= s@.subrange(0, i as int));
    }
    assert(r@ =~= s@);
    r
}

/// Whether the two texts hold the same characters.
pub fn text_eq(a: &str, b: &str) -> (r: bool)
    ensures
        r == (a@ == b@),
{
    let ca = chars_of(a);
    let cb = chars_of(b);
    if ca.len() != cb.len() {
        return false;
    }
    let mut i: usize = 0;
    while i < ca.len()
        invariant
            ca@ == a@,
            cb@ == b@,
            ca.len() == cb.len(),
            i <= ca.len(),
            forall|j: int| 0 <= j < i ==> ca@[j] == cb@[j],
        decreases ca.len() - i,
    {
        if ca[i] != cb[i] {
            return false;
        }
        i = i + 1;
    }
    assert(ca@ =~= cb@);
    true
}

/// Whether `needle` occurs in `hay` (as `hay.contains(needle)` for a `&str` pattern).
pub fn chars_occur_in(needle: &Vec<char>, hay: &Vec<char>) -> (r: bool)
    ensures
        r == occurs_in(needle@, hay@),
{
    let n = needle.len();
    let h = hay.len();
    if n > h {
        assert forall|i: int|
            0 <= i && i + needle@.len() <= hay@.len() implies #[trigger] hay@.subrange(
            i,
            i + needle@.len(),
        ) != needle@ by {}
        return false;
    }
    let mut i: usize = 0;
    while i <= h - n
        invariant
            n == needle@.len(),
            h == hay@.len(),
            n <= h,
            i <= h - n + 1,
            forall|k: int|
                0 <= k < i ==> #[trigger] hay@.subrange(k, k + needle@.len()) != needle@,
        decreases h - n + 1 - i,
    {
        let mut j: usize = 0;
        let mut same = true;
        while j < n
            invariant
                n == needle@.len(),
                h == hay@.len(),
                i + n <= h,
                j <= n,
                same == (forall|m: int| 0 <= m < j ==> hay@[i + m] == needle@[m]),
            decreases n - j,
        {
            if hay[i + j] != needle[j] {
                same = false;
            }
            j = j + 1;
        }
        if same {
            assert(hay@.subrange(i as int, i + needle@.len()) =~= needle@);
            return true;
        }
        assert(hay@.subrange(i as int, i + needle@.len())[0] == hay@[i as int]);
        assert(hay@.subrange(i as int, i + needle@.len()) != needle@) by {
            let m = choose|m: int| 0 <= m < n && hay@[i + m] != needle@[m];
            assert(hay@.subrange(i as int, i + needle@.len())[m] == hay@[i + m]);
        }
        i = i + 1;
    }
    false
}

/// Whether `needle` occurs in `hay`.
pub fn text_contains(hay: &str, needle: &str) -> (r: bool)
    ensures
        r == occurs_in(needle@, hay@),
{
    let h = chars_of(hay);
    let n = chars_of(needle);
    chars_occur_in(&n, &h)
}

/// The rest of `s` after `prefix`, when `s` starts with `prefix`
/// (as `str::strip_prefix` with a `&str` pattern).
pub fn strip_prefix<'a>(s: &'a str, prefix: &str) -> (r: Option<&'a str>)
    ensures
        match r {
            Some(rest) => prefix@.is_prefix_of(s@) && rest@ == s@.skip(prefix@.len() as int),
            None => !prefix@.is_prefix_of(s@),
        },
{
    let cs = chars_of(s);
    let cp = chars_of(prefix);
    if cp.len() > cs.len() {
        return None;
    }
    let mut i: usize = 0;
    while i < cp.len()
        invariant
            cs@ == s@,
            cp@ == prefix@,
            cp.len() <= cs.len(),
            i <= cp.len(),
            forall|j: int| 0 <= j < i ==> cs@[j] == cp@[j],
        decreases cp.len() - i,
    {
        if cs[i] != cp[i] {
            return None;
        }
        i = i + 1;
    }
    let rest = s.substring_char(cp.len(), cs.len());
    assert(rest@ =~= s@.skip(prefix@.len() as int));
    Some(rest)
}

proof fn lemma_digits_value_extend(s: Seq<char>, c: char)
    ensures
        digits_value(s.push(c)) == digits_value(s) * 10 + ((c as int) - 48) as nat,
{
    assert(s.push(c).drop_last() =~= s);
}

proof fn lemma_digits_value_monotone(s: Seq<char>, k: int)
    requires
        0 <= k <= s.len(),
        all_digits(s),
    ensures
        digits_value(s.subrange(0, k)) <= digits_value(s),
    decreases s.len(),
{
    if k < s.len() {
        assert(s.drop_last().subrange(0, k) =~= s.subrange(0, k));
        assert(all_digits(s.drop_last())) by {
            assert forall|i: int| 0 <= i < s.drop_last().len() implies #[trigger] is_digit(
                s.drop_last()[i],
            ) by {
                assert(is_digit(s[i]));
            }
        }
        lemma_digits_value_monotone(s.drop_last(), k);
        assert(is_digit(s[s.len() - 1]));
    } else {
        assert(s.subrange(0, k) =~= s);
    }
}

/// Parses decimal text the way `str::parse::<usize>` does.
pub fn parse_usize(s: &str) -> (r: Option<usize>)
    ensures
        r == parse_usize_text(s@),
{
    let cs = chars_of(s);
    let mut start: usize = 0;
    if cs.len() > 0 && cs[0] == '+' {
        start = 1;
    }
    let ghost body = if s@.len() > 0 && s@[0] == '+' {
        s@.drop_first()
    } else {
        s@
    };
    assert(body =~= cs@.subrange(start as int, cs@.len() as int));
    if start >= cs.len() {
        return None;
    }
    let mut value: usize = 0;
    let mut i: usize = start;
    while i < cs.len()
        invariant
            cs@ == s@,
            start <= i <= cs.len(),
            body == cs@.subrange(start as int, cs@.len() as int),
            body == (if s@.len() > 0 && s@[0] == '+' {
                s@.drop_first()
            } else {
                s@
            }),
            body.len() > 0,
            all_digits(cs@.subrange(start as int, i as int)),
            value as nat == digits_value(cs@.subrange(start as int, i as int)),
        decreases cs.len() - i,
    {
        let c = cs[i];
        let ghost prefix = cs@.subrange(start as int, i as int);
        assert(cs@.subrange(start as int, i + 1) =~= prefix.push(c));
        if !('0' <= c && c <= '9') {
            assert(body[i - start] == c);
            assert(!is_digit(body[i - start]));
            return None;
        }
        let d = (c as u32 - 48) as usize;
        proof {
            lemma_digits_value_extend(prefix, c);
        }
        let next = match value.checked_mul(10) {
            Some(v) => v.checked_add(d),
            None => None,
        };
        match next {
            Some(v) => {
                value = v;
            },
            None => {
                proof {
                    assert(d as int == (c as int) - 48);
                    assert(value * 10 + d > usize::MAX);
                    assert(digits_value(prefix.push(c)) > usize::MAX);
                    if all_digits(body) {
                        assert(body.subrange(0, (i + 1 - start) as int) =~= prefix.push(c));
                        lemma_digits_value_monotone(body, (i + 1 - start) as int);
                    }
                }
                return None;
            },
        }
        i = i + 1;
        assert(all_digits(cs@.subrange(start as int, i as int))) by {
            assert forall|j: int|
                0 <= j < cs@.subrange(start as int, i as int).len() implies #[trigger] is_digit(
                cs@.subrange(start as int, i as int)[j],
            ) by {
                if j < prefix.len() {
                    assert(cs@.subrange(start as int, i as int)[j] == prefix[j]);
                }
            }
        }
    }
    assert(cs@.subrange(start as int, i as int) =~= body);
    Some(value)
}

proof fn lemma_decimal_digits(n: nat)
    ensures
        decimal(n).len() > 0,
        all_digits(decimal(n)),
        digits_value(decimal(n)) == n,
        decimal(n)[0] != '+',
    decreases n,
{
    let last = digit_char((n % 10) as int);
    assert((last as int) == 48 + (n % 10));
    if n < 10 {
        assert(decimal(n).drop_last() =~= Seq::<char>::empty());
        assert(decimal(n).last() == last);
        assert(digits_value(decimal(n)) == digits_value(decimal(n).drop_last()) * 10 + ((last as int) - 48) as nat);
    } else {
        lemma_decimal_digits(n / 10);
        let d = seq![digit_char((n % 10) as int)];
        assert(decimal(n) == decimal(n / 10) + d);
        assert((decimal(n / 10) + d).drop_last() =~= decimal(n / 10));
        assert(all_digits(decimal(n))) by {
            assert forall|i: int| 0 <= i < decimal(n).len() implies #[trigger] is_digit(
                decimal(n)[i],
            ) by {
                if i < decimal(n / 10).len() {
                    assert(decimal(n)[i] == decimal(n / 10)[i]);
                }
            }
        }
        assert(decimal(n)[0] == decimal(n / 10)[0]);
    }
}

proof fn lemma_hex_digits(n: nat)
    ensures
        hex_digits(n).len() > 0,
        forall|i: int| 0 <= i < hex_digits(n).len() ==> #[trigger] is_hex_digit(hex_digits(n)[i]),
        hex_value(hex_digits(n)) == n,
        n >= 16 ==> hex_digits(n)[0] != '0',
    decreases n,
{
    let last = digit_char((n % 16) as int);
    assert(is_hex_digit(last) && hex_digit_value(last) == n % 16);
    if n < 16 {
        assert(hex_digits(n).drop_last() =~= Seq::<char>::empty());
        assert(hex_digits(n).last() == last);
        assert(hex_value(hex_digits(n)) == hex_value(Seq::<char>::empty()) * 16 + hex_digit_value(
            last,
        ));
    } else {
        lemma_hex_digits(n / 16);
        let h = hex_digits(n / 16);
        assert(hex_digits(n) == h + seq![last]);
        assert((h + seq![last]).drop_last() =~= h);
        assert((h + seq![last]).last() == last);
        assert(hex_value(hex_digits(n)) == hex_value(h) * 16 + hex_digit_value(last));
        assert((n / 16) * 16 + n % 16 == n);
        assert forall|i: int| 0 <= i < hex_digits(n).len() implies #[trigger] is_hex_digit(
            hex_digits(n)[i],
        ) by {
            if i < h.len() {
                assert(hex_digits(n)[i] == h[i]);
            }
        }
        assert(hex_digits(n)[0] == h[0]);
        if n / 16 >= 16 {
        } else {
            assert(h[0] == digit_char((n / 16) as int));
        }
    }
}

/// The two-digit hexadecimal rendering has at least two digits, all
/// lower-case hexadecimal, whose value is the number; it has more than two
/// only when the number needs them, and then no leading zero.
pub proof fn lemma_hex2_renders(n: u16)
    ensures
        hex2(n as nat).len() >= 2,
        forall|i: int| 0 <= i < hex2(n as nat).len() ==> #[trigger] is_hex_digit(hex2(n as nat)[i]),
        hex_value(hex2(n as nat)) == n,
        n < 256 ==> hex2(n as nat).len() == 2,
        hex2(n as nat).len() > 2 ==> hex2(n as nat)[0] != '0',
{
    if n < 16 {
        let s = hex2(n as nat);
        assert(s.drop_last() =~= seq!['0']);
        assert(seq!['0'].drop_last() =~= Seq::<char>::empty());
        assert(is_hex_digit(s[1]) && hex_digit_value(s[1]) == n);
        assert(s.last() == s[1]);
        assert(seq!['0'].last() == '0');
        assert(hex_value(seq!['0']) == hex_value(Seq::<char>::empty()) * 16 + hex_digit_value('0'));
        assert(hex_value(s) == hex_value(seq!['0']) * 16 + hex_digit_value(s[1]));
    } else {
        lemma_hex_digits(n as nat);
        if n < 256 {
            assert(hex_digits((n / 16) as nat) == seq![digit_char((n / 16) as int)]);
        } else {
            assert(hex_digits(n as nat).len() > 2) by {
                assert(hex_digits((n / 16) as nat).len() >= 2) by {
                    assert(hex_digits((n / 16) as nat) == hex_digits((n / 256) as nat) + seq![
                        digit_char(((n / 16) % 16) as int),
                    ]);
                }
            }
        }
    }
}

/// Parsing refuses the empty text, a lone "+", and any text with a character
/// other than an ASCII digit, except for one leading "+".
pub proof fn lemma_parse_refuses(s: Seq<char>, i: int)
    ensures
        parse_usize_text(Seq::<char>::empty()) is None,
        parse_usize_text(seq!['+']) is None,
        (0 <= i < s.len() && !is_digit(s[i]) && !(i == 0 && s[0] == '+')) ==> parse_usize_text(s) is None,
{
    assert(seq!['+'].drop_first() =~= Seq::<char>::empty());
    if 0 <= i < s.len() && !is_digit(s[i]) && !(i == 0 && s[0] == '+') {
        if s[0] == '+' {
            assert(s.drop_first()[i - 1] == s[i]);
        }
    }
}

/// Decimal text parses back to the number it renders.
pub proof fn lemma_parse_decimal(n: usize)
    ensures
        parse_usize_text(decimal(n as nat)) == Some(n),
{
    lemma_decimal_digits(n as nat);
}

} // verus!
