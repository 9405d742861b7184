//! Scalar codec for the pseudo-file text protocol.
//!
//! The pseudo-files carry a small set of value shapes: booleans as the single
//! byte `"0"` or `"1"`, unsigned and signed decimal integers, and free-form
//! range strings that are passed through as opaque text.  Reads trim
//! whitespace (numeric fields: surrounding, string fields: trailing only) and
//! parse; writes produce the exact bytes the kernel expects, with no trailing
//! newline.

use vstd::prelude::*;

verus! {

/// ASCII whitespace: space, tab, line feed, vertical tab, form feed,
/// carriage return.  Pseudo-file contents are ASCII, so this coincides with
/// the whitespace the kernel emits (in practice a single trailing newline).
pub open spec fn is_ascii_ws(c: char) -> bool {
    c as int == 32 || (9 <= c as int && c as int <= 13)
}

/// The ASCII decimal digits.
pub open spec fn is_digit(c: char) -> bool {
    48 <= c as int && c as int <= 57
}

/// Numeric value of a digit character; zero on anything else.
pub open spec fn digit_val(c: char) -> nat {
    if is_digit(c) {
        (c as int - 48) as nat
    } else {
        0
    }
}

/// `s` with its leading whitespace removed.
pub open spec fn trim_leading(s: Seq<char>) -> Seq<char>
    decreases s.len(),
{
    if s.len() > 0 && is_ascii_ws(s[0]) {
        trim_leading(s.drop_first())
    } else {
        s
    }
}

/// `s` with its trailing whitespace removed.
pub open spec fn trim_trailing(s: Seq<char>) -> Seq<char>
    decreases s.len(),
{
    if s.len() > 0 && is_ascii_ws(s.last()) {
        trim_trailing(s.drop_last())
    } else {
        s
    }
}

/// `s` with surrounding whitespace removed.
pub open spec fn trimmed(s: Seq<char>) -> Seq<char> {
    trim_trailing(trim_leading(s))
}

/// Value of a digit string read as a base-10 numeral (most significant digit
/// first); non-digit characters count as zero.
pub open spec fn dec_val(s: Seq<char>) -> nat
    decreases s.len(),
{
    if s.len() == 0 {
        0
    } else {
        dec_val(s.drop_last()) * 10 + digit_val(s.last())
    }
}

pub open spec fn all_digits(s: Seq<char>) -> bool {
    forall|k: int| 0 <= k < s.len() ==> is_digit(#[trigger] s[k])
}

/// Decoding rule for unsigned integer pseudo-files: trim surrounding
/// whitespace, then require a non-empty all-digit numeral whose value fits in
/// a `u64`; anything else fails to parse.
pub open spec fn u64_decode(raw: Seq<char>) -> Option<u64> {
    let t = trimmed(raw);
    if t.len() > 0 && all_digits(t) && dec_val(t) <= u64::MAX {
        Some(dec_val(t) as u64)
    } else {
        None
    }
}

/// Decoding rule for boolean pseudo-files: the value is `true` exactly when
/// the content parses as the unsigned integer `1`; a parse failure or any
/// other value decodes to `false`.
pub open spec fn bool_decode(raw: Seq<char>) -> bool {
    u64_decode(raw) == Some(1u64)
}

/// Encoding rule for boolean pseudo-files: the single byte `"1"` or `"0"`.
pub open spec fn bool_encoding(b: bool) -> Seq<char> {
    if b {
        seq!['1']
    } else {
        seq!['0']
    }
}

/// The digit character for a value below ten.
pub open spec fn digit_char(d: nat) -> char {
    if d == 0 {
        '0'
    } else if d == 1 {
        '1'
    } else if d == 2 {
        '2'
    } else if d == 3 {
        '3'
    } else if d == 4 {
        '4'
    } else if d == 5 {
        '5'
    } else if d == 6 {
        '6'
    } else if d == 7 {
        '7'
    } else if d == 8 {
        '8'
    } else {
        '9'
    }
}

/// Decimal numeral of `n`, most significant digit first, no padding.
pub open spec fn dec_repr(n: nat) -> Seq<char>
    decreases n,
{
    if n < 10 {
        seq![digit_char(n)]
    } else {
        dec_repr(n / 10).push(digit_char(n % 10))
    }
}

/// Encoding rule for signed integer pseudo-files: decimal text, a leading
/// `'-'` for negative values, no padding.
pub open spec fn i64_encoding(i: int) -> Seq<char> {
    if i < 0 {
        seq!['-'] + dec_repr((-i) as nat)
    } else {
        dec_repr(i as nat)
    }
}

fn is_ws_char(c: char) -> (r: bool)
    ensures
        r == is_ascii_ws(c),
{
    let u: u32 = c as u32;
    u == 32 || (9 <= u && u <= 13)
}

proof fn lemma_trim_leading_at(s: Seq<char>, i: int)
    requires
        0 <= i <= s.len(),
        forall|k: int| 0 <= k < i ==> is_ascii_ws(#[trigger] s[k]),
        i == s.len() || !is_ascii_ws(s[i]),
    ensures
        trim_leading(s) == s.subrange(i, s.len() as int),
    decreases i,
{
    if i == 0 {
        if s.len() == 0 || !is_ascii_ws(s[0]) {
            assert(trim_leading(s) == s);
            assert(s.subrange(0, s.len() as int) =~= s);
        }
    } else {
        assert(is_ascii_ws(s[0]));
        let s1 = s.drop_first();
        assert(forall|k: int| 0 <= k < i - 1 ==> is_ascii_ws(#[trigger] s1[k]));
        lemma_trim_leading_at(s1, i - 1);
        assert(s1.subrange(i - 1, s1.len() as int) =~= s.subrange(i, s.len() as int));
    }
}

proof fn lemma_trim_trailing_at(s: Seq<char>, j: int)
    requires
        0 <= j <= s.len(),
        forall|k: int| j <= k < s.len() ==> is_ascii_ws(#[trigger] s[k]),
        j == 0 || !is_ascii_ws(s[j - 1]),
    ensures
        trim_trailing(s) == s.subrange(0, j),
    decreases s.len(),
{
    if j == s.len() {
        if s.len() == 0 || !is_ascii_ws(s.last()) {
            assert(trim_trailing(s) == s);
            assert(s.subrange(0, s.len() as int) =~= s);
        }
    } else {
        assert(is_ascii_ws(s.last()));
        let s1 = s.drop_last();
        assert(forall|k: int| j <= k < s1.len() ==> is_ascii_ws(#[trigger] s1[k]));
        lemma_trim_trailing_at(s1, j);
        assert(s1.subrange(0, j) =~= s.subrange(0, j));
    }
}

/// Remove surrounding whitespace, as the numeric decoders do.
pub fn trim_str(s: &str) -> (r: String)
    ensures
        r@ == trimmed(s@),
{
    let n: usize = s.unicode_len();
    let mut i: usize = 0;
    while i < n && is_ws_char(s.get_char(i))
        invariant
            n == s@.len(),
            0 <= i <= n,
            forall|k: int| 0 <= k < i ==> is_ascii_ws(#[trigger] s@[k]),
        decreases n - i,
    {
        i = i + 1;
    }
    proof {
        lemma_trim_leading_at(s@, i as int);
    }
    if i == n {
        proof {
            assert(trim_leading(s@) =~= Seq::<char>::empty());
            assert(trim_trailing(Seq::<char>::empty()) == Seq::<char>::empty());
        }
        String::new()
    } else {
        let mut j: usize = n;
        while is_ws_char(s.get_char(j - 1))
            invariant
                n == s@.len(),
                0 <= i < n,
                !is_ascii_ws(s@[i as int]),
                i < j <= n,
                forall|k: int| j <= k < n ==> is_ascii_ws(#[trigger] s@[k]),
            decreases j,
        {
            j = j - 1;
        }
        let t = s.substring_char(i, j);
        proof {
            let u = s@.subrange(i as int, n as int);
            assert(forall|k: int| j - i <= k < u.len() ==> is_ascii_ws(#[trigger] u[k]));
            lemma_trim_trailing_at(u, j - i);
            assert(u.subrange(0, j - i) =~= s@.subrange(i as int, j as int));
        }
        String::from_str(t)
    }
}

proof fn lemma_dec_val_step(s: Seq<char>, i: int)
    requires
        0 <= i < s.len(),
    ensures
        dec_val(s.subrange(0, i + 1)) == dec_val(s.subrange(0, i)) * 10 + digit_val(s[i]),
{
    let p = s.subrange(0, i + 1);
    assert(p.drop_last() =~= s.subrange(0, i));
    assert(p.last() == s[i]);
}

proof fn lemma_dec_val_prefix_le(s: Seq<char>, i: int)
    requires
        0 <= i <= s.len(),
    ensures
        dec_val(s.subrange(0, i)) <= dec_val(s),
    decreases s.len(),
{
    if i == s.len() {
        assert(s.subrange(0, i) =~= s);
    } else {
        let s1 = s.drop_last();
        assert(s.subrange(0, i) =~= s1.subrange(0, i));
        lemma_dec_val_prefix_le(s1, i);
        assert(dec_val(s) == dec_val(s1) * 10 + digit_val(s.last()));
        assert(dec_val(s1) <= dec_val(s1) * 10) by (nonlinear_arith);
    }
}

fn digit_of(c: char) -> (r: Option<u64>)
    ensures
        r matches Some(d) ==> is_digit(c) && d == digit_val(c),
        r is None ==> !is_digit(c),
{
    let u: u32 = c as u32;
    if 48 <= u && u <= 57 {
        Some((u - 48) as u64)
    } else {
        None
    }
}

/// Decode an unsigned integer pseudo-file: trim surrounding whitespace and
/// parse the remainder as a base-10 `u64`; `None` exactly when the trimmed
/// content is empty, holds a non-digit, or overflows.
pub fn decode_u64(s: &str) -> (r: Option<u64>)
    ensures
        r == u64_decode(s@),
{
    let t = trim_str(s);
    let ts = t.as_str();
    let n: usize = ts.unicode_len();
    if n == 0 {
        return None;
    }
    let mut acc: u64 = 0;
    let mut idx: usize = 0;
    while idx < n
        invariant
            ts@ == trimmed(s@),
            n == ts@.len(),
            0 <= idx <= n,
            forall|k: int| 0 <= k < idx ==> is_digit(#[trigger] ts@[k]),
            acc == dec_val(ts@.subrange(0, idx as int)),
        decreases n - idx,
    {
        let c = ts.get_char(idx);
        match digit_of(c) {
            None => {
                return None;
            },
            Some(d) => {
                proof {
                    lemma_dec_val_step(ts@, idx as int);
                }
                if acc > u64::MAX / 10 || acc * 10 > u64::MAX - d {
                    proof {
                        assert(dec_val(ts@.subrange(0, idx as int + 1)) > u64::MAX);
                        lemma_dec_val_prefix_le(ts@, idx as int + 1);
                    }
                    return None;
                }
                acc = acc * 10 + d;
            },
        }
        idx = idx + 1;
    }
    proof {
        assert(ts@.subrange(0, n as int) =~= ts@);
    }
    Some(acc)
}

/// Decode a boolean pseudo-file: `true` exactly when the content parses as
/// the unsigned integer `1`; parse failures and other values give `false`.
pub fn decode_bool(s: &str) -> (r: bool)
    ensures
        r == bool_decode(s@),
{
    match decode_u64(s) {
        Some(v) => v == 1,
        None => false,
    }
}

/// Remove trailing whitespace only, as the string decoder does.
pub fn trim_end_str(s: &str) -> (r: String)
    ensures
        r@ == trim_trailing(s@),
{
    let n: usize = s.unicode_len();
    let mut j: usize = n;
    while j > 0 && is_ws_char(s.get_char(j - 1))
        invariant
            n == s@.len(),
            0 <= j <= n,
            forall|k: int| j <= k < n ==> is_ascii_ws(#[trigger] s@[k]),
        decreases j,
    {
        j = j - 1;
    }
    proof {
        lemma_trim_trailing_at(s@, j as int);
    }
    let t = s.substring_char(0, j);
    String::from_str(t)
}

/// Encode a boolean for writing: exactly `"1"` or `"0"`.
pub fn encode_bool(b: bool) -> (r: String)
    ensures
        r@ == bool_encoding(b),
{
    proof {
        reveal_strlit("1");
        reveal_strlit("0");
    }
    if b {
        let r = String::from_str("1");
        proof {
            assert(r@ =~= seq!['1']);
        }
        r
    } else {
        let r = String::from_str("0");
        proof {
            assert(r@ =~= seq!['0']);
        }
        r
    }
}

fn digit_str(d: u64) -> (r: &'static str)
    requires
        d < 10,
    ensures
        r@ == seq![digit_char(d as nat)],
{
    proof {
        reveal_strlit("0");
        reveal_strlit("1");
        reveal_strlit("2");
        reveal_strlit("3");
        reveal_strlit("4");
        reveal_strlit("5");
        reveal_strlit("6");
        reveal_strlit("7");
        reveal_strlit("8");
        reveal_strlit("9");
    }
    let r: &'static str = if d == 0 {
        "0"
    } else if d == 1 {
        "1"
    } else if d == 2 {
        "2"
    } else if d == 3 {
        "3"
    } else if d == 4 {
        "4"
    } else if d == 5 {
        "5"
    } else if d == 6 {
        "6"
    } else if d == 7 {
        "7"
    } else if d == 8 {
        "8"
    } else {
        "9"
    };
    proof {
        assert(r@ =~= seq![digit_char(d as nat)]);
    }
    r
}

/// The digit characters of `ds`, in the same order.
spec fn chars_of(ds: Seq<u64>) -> Seq<char> {
    ds.map_values(|d: u64| digit_char(d as nat))
}

proof fn lemma_reverse_push(s: Seq<u64>, x: u64)
    ensures
        chars_of(s.push(x)).reverse() =~= seq![digit_char(x as nat)] + chars_of(s).reverse(),
{
    assert(chars_of(s.push(x)).len() == s.len() + 1);
}

/// Decimal digits accumulated so far: `ds` holds the low digits of the
/// original number (least significant first) and `m` the part still to split.
spec fn split_digits(n: nat, m: nat, ds: Seq<u64>) -> bool {
    if m > 0 {
        dec_repr(n) == dec_repr(m) + chars_of(ds).reverse()
    } else {
        dec_repr(n) == chars_of(ds).reverse()
    }
}

/// Encode an unsigned integer for writing: decimal text, no padding.
pub fn encode_u64(n: u64) -> (r: String)
    ensures
        r@ == dec_repr(n as nat),
{
    let mut digits: Vec<u64> = Vec::new();
    digits.push(n % 10);
    let mut m: u64 = n / 10;
    proof {
        lemma_reverse_push(Seq::<u64>::empty(), n % 10);
        assert(chars_of(Seq::<u64>::empty()).reverse() =~= Seq::<char>::empty());
        if n < 10 {
            assert(dec_repr(n as nat) =~= chars_of(digits@).reverse());
        } else {
            assert(dec_repr(n as nat) =~= dec_repr(m as nat) + chars_of(digits@).reverse());
        }
    }
    while m > 0
        invariant
            digits@.len() >= 1,
            forall|k: int| 0 <= k < digits@.len() ==> #[trigger] digits@[k] < 10,
            split_digits(n as nat, m as nat, digits@),
        decreases m,
    {
        let d: u64 = m % 10;
        let ghost old_digits = digits@;
        let ghost old_m = m as nat;
        digits.push(d);
        m = m / 10;
        proof {
            lemma_reverse_push(old_digits, d);
            if old_m < 10 {
                assert(dec_repr(old_m) =~= seq![digit_char(old_m)]);
                assert(dec_repr(n as nat) =~= chars_of(digits@).reverse());
            } else {
                assert(dec_repr(old_m) == dec_repr(old_m / 10).push(digit_char(old_m % 10)));
                assert(dec_repr(old_m) =~= dec_repr(m as nat) + seq![digit_char(d as nat)]);
                assert(dec_repr(n as nat) =~= dec_repr(m as nat) + chars_of(digits@).reverse());
            }
        }
    }
    let mut r = String::new();
    let len: usize = digits.len();
    let mut k: usize = len;
    while k > 0
        invariant
            len == digits@.len(),
            0 <= k <= len,
            forall|j: int| 0 <= j < digits@.len() ==> #[trigger] digits@[j] < 10,
            dec_repr(n as nat) == chars_of(digits@).reverse(),
            r@ == dec_repr(n as nat).subrange(0, len - k),
        decreases k,
    {
        k = k - 1;
        let ds = digit_str(digits[k]);
        r.append(ds);
        proof {
            assert(chars_of(digits@).reverse()[len - 1 - k] == chars_of(digits@)[k as int]);
            assert(r@ =~= dec_repr(n as nat).subrange(0, len - k));
        }
    }
    proof {
        assert(dec_repr(n as nat).subrange(0, len as int) =~= dec_repr(n as nat));
    }
    r
}

/// Encode a signed integer for writing: decimal text with a leading `'-'`
/// for negative values, no padding.
pub fn encode_i64(i: i64) -> (r: String)
    ensures
        r@ == i64_encoding(i as int),
{
    if i >= 0 {
        encode_u64(i as u64)
    } else {
        let m: u64 = ((-(i + 1)) as u64) + 1;
        proof {
            reveal_strlit("-");
        }
        let mut r = String::from_str("-");
        let ds = encode_u64(m);
        r.append(ds.as_str());
        proof {
            assert(r@ =~= seq!['-'] + dec_repr((-(i as int)) as nat));
        }
        r
    }
}

proof fn lemma_dec_repr_digits(n: nat)
    ensures
        dec_repr(n).len() >= 1,
        all_digits(dec_repr(n)),
    decreases n,
{
    if n < 10 {
        assert(is_digit(digit_char(n)));
    } else {
        lemma_dec_repr_digits(n / 10);
        let s = dec_repr(n / 10);
        assert(is_digit(digit_char(n % 10)));
        assert(forall|k: int| 0 <= k < s.push(digit_char(n % 10)).len() ==> is_digit(
            #[trigger] s.push(digit_char(n % 10))[k],
        ));
    }
}

proof fn lemma_dec_val_repr(n: nat)
    ensures
        dec_val(dec_repr(n)) == n,
    decreases n,
{
    if n < 10 {
        assert(dec_repr(n) == seq![digit_char(n)]);
        assert(seq![digit_char(n)].drop_last() =~= Seq::<char>::empty());
        assert(seq![digit_char(n)].last() == digit_char(n));
        assert(dec_val(Seq::<char>::empty()) == 0);
        assert(dec_val(seq![digit_char(n)]) == digit_val(digit_char(n)));
        assert(digit_val(digit_char(n)) == n);
    } else {
        lemma_dec_val_repr(n / 10);
        let s = dec_repr(n / 10);
        let c = digit_char(n % 10);
        assert(dec_repr(n) == s.push(c));
        assert(s.push(c).drop_last() =~= s);
        assert(s.push(c).last() == c);
        assert(dec_val(s.push(c)) == dec_val(s) * 10 + digit_val(c));
        assert(digit_val(c) == n % 10);
        vstd::arithmetic::div_mod::lemma_fundamental_div_mod(n as int, 10);
        assert(n == 10 * (n / 10) + n % 10);
    }
}

/// Decimal text produced by the encoder parses back to the value it encodes:
/// for every `n`, decoding `dec_repr(n)` yields `Some(n)`.
pub proof fn lemma_u64_round_trip(n: u64)
    ensures
        u64_decode(dec_repr(n as nat)) == Some(n),
{
    let s = dec_repr(n as nat);
    lemma_dec_repr_digits(n as nat);
    lemma_dec_val_repr(n as nat);
    assert(!is_ascii_ws(s[0]));
    assert(trim_leading(s) == s);
    assert(!is_ascii_ws(s.last()));
    assert(trim_trailing(s) == s);
}

/// A boolean written through the encoder reads back as the same boolean
/// through the typed decoder: `decode(encode(b)) == b`.
pub proof fn lemma_bool_round_trip(b: bool)
    ensures
        bool_decode(bool_encoding(b)) == b,
{
    if b {
        assert(bool_encoding(true) =~= dec_repr(1));
        lemma_u64_round_trip(1);
    } else {
        assert(bool_encoding(false) =~= dec_repr(0));
        lemma_u64_round_trip(0);
    }
}

} // verus!
