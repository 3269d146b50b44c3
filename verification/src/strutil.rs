//! Verified string building blocks: decimal formatting, character-level
//! comparison, trimming and tokenizing.
//!
//! All contracts are stated over `Seq<char>` views.

use vstd::prelude::*;

verus! {

/// Relies on `alloc::string::String::push`: appends one character at the
/// end of the string.
pub assume_specification[ String::push ](s: &mut String, ch: char)
    ensures
        final(s)@ == old(s)@.push(ch),
;

/// The decimal digit character for a value below ten.
pub open spec fn dec_digit(d: nat) -> char {
    if d == 0 {
        '0'
    } else if d == 1 {
        '1'
    } else if d == 2 {
        '2'
    } else if d == 3 {
        '3'
    } else if d == 4 {
        '4'
    } else if d == 5 {
        '5'
    } else if d == 6 {
        '6'
    } else if d == 7 {
        '7'
    } else if d == 8 {
        '8'
    } else {
        '9'
    }
}

/// The decimal representation of a natural number, most significant
/// digit first, without sign and without leading zeros (except for the
/// single digit of zero itself).
pub open spec fn dec_str(n: nat) -> Seq<char>
    decreases n,
{
    if n < 10 {
        seq![dec_digit(n)]
    } else {
        dec_str(n / 10).push(dec_digit(n % 10))
    }
}

/// The decimal representation of an integer: a minus sign before the
/// digits of the magnitude when negative.
pub open spec fn int_str(i: int) -> Seq<char> {
    if i < 0 {
        seq!['-'] + dec_str((-i) as nat)
    } else {
        dec_str(i as nat)
    }
}

/// The digit character for `d`.
pub fn digit_char(d: u8) -> (c: char)
    requires
        d < 10,
    ensures
        c == dec_digit(d as nat),
{
    if d == 0 {
        '0'
    } else if d == 1 {
        '1'
    } else if d == 2 {
        '2'
    } else if d == 3 {
        '3'
    } else if d == 4 {
        '4'
    } else if d == 5 {
        '5'
    } else if d == 6 {
        '6'
    } else if d == 7 {
        '7'
    } else if d == 8 {
        '8'
    } else {
        '9'
    }
}

/// Appends the decimal digits of `n` to `out`.
pub fn push_dec_u64(out: &mut String, n: u64)
    ensures
        final(out)@ == old(out)@ + dec_str(n as nat),
    decreases n,
{
    if n >= 10 {
        push_dec_u64(out, n / 10);
        out.push(digit_char((n % 10) as u8));
        proof {
            assert(out@ =~= old(out)@ + dec_str(n as nat));
        }
    } else {
        out.push(digit_char(n as u8));
        proof {
            assert(out@ =~= old(out)@ + dec_str(n as nat));
        }
    }
}

/// The decimal string of an unsigned machine integer.
pub fn u64_to_string(n: u64) -> (r: String)
    ensures
        r@ == dec_str(n as nat),
{
    let mut s = String::new();
    push_dec_u64(&mut s, n);
    proof {
        assert(s@ =~= dec_str(n as nat));
    }
    s
}

/// The decimal string of a signed machine integer, with a leading minus
/// sign when negative.
pub fn i64_to_string(i: i64) -> (r: String)
    ensures
        r@ == int_str(i as int),
{
    if i >= 0 {
        let r = u64_to_string(i as u64);
        r
    } else {
        let m: u64 = if i == i64::MIN {
            9223372036854775808u64
        } else {
            (-i) as u64
        };
        let mut s = String::new();
        s.push('-');
        push_dec_u64(&mut s, m);
        proof {
            assert(s@ =~= int_str(i as int));
        }
        s
    }
}

/// The decimal string of a signed 32-bit integer.
pub fn i32_to_string(i: i32) -> (r: String)
    ensures
        r@ == int_str(i as int),
{
    i64_to_string(i as i64)
}

/// Character-for-character string equality.
pub fn str_eq(a: &str, b: &str) -> (r: bool)
    ensures
        r == (a@ == b@),
{
    let la = a.unicode_len();
    let lb = b.unicode_len();
    if la != lb {
        return false;
    }
    let mut i: usize = 0;
    while i < la
        invariant
            la == a@.len(),
            la == b@.len(),
            i <= la,
            forall|j: int| 0 <= j < i ==> a@[j] == b@[j],
        decreases la - i,
    {
        if a.get_char(i) != b.get_char(i) {
            return false;
        }
        i += 1;
    }
    proof {
        assert(a@ =~= b@);
    }
    true
}

/// Whether `p` is a prefix of `s`.
pub open spec fn is_prefix(p: Seq<char>, s: Seq<char>) -> bool {
    p.len() <= s.len() && p == s.subrange(0, p.len() as int)
}

/// Prefix test, character for character.
pub fn starts_with(s: &str, p: &str) -> (r: bool)
    ensures
        r == is_prefix(p@, s@),
{
    let ls = s.unicode_len();
    let lp = p.unicode_len();
    if lp > ls {
        assert(!is_prefix(p@, s@));
        return false;
    }
    let mut i: usize = 0;
    while i < lp
        invariant
            ls == s@.len(),
            lp == p@.len(),
            lp <= ls,
            i <= lp,
            forall|j: int| 0 <= j < i ==> p@[j] == s@[j],
        decreases lp - i,
    {
        if s.get_char(i) != p.get_char(i) {
            assert(s@.subrange(0, p@.len() as int)[i as int] == s@[i as int]);
            return false;
        }
        i += 1;
    }
    proof {
        assert(p@ =~= s@.subrange(0, p@.len() as int));
    }
    true
}

/// The whitespace characters the tokenizer and the trimmers recognize.
pub open spec fn is_ws(c: char) -> bool {
    c == ' ' || c == '\t' || c == '\r' || c == '\n'
}

/// Whitespace test on one character.
pub fn is_ws_char(c: char) -> (r: bool)
    ensures
        r == is_ws(c),
{
    c == ' ' || c == '\t' || c == '\r' || c == '\n'
}

/// `s` with leading whitespace removed.
pub open spec fn trim_front(s: Seq<char>) -> Seq<char>
    decreases s.len(),
{
    if s.len() > 0 && is_ws(s[0]) {
        trim_front(s.drop_first())
    } else {
        s
    }
}

/// `s` with trailing whitespace removed.
pub open spec fn trim_back(s: Seq<char>) -> Seq<char>
    decreases s.len(),
{
    if s.len() > 0 && is_ws(s[s.len() - 1]) {
        trim_back(s.drop_last())
    } else {
        s
    }
}

/// `s` with whitespace removed at both ends.
pub open spec fn trimmed(s: Seq<char>) -> Seq<char> {
    trim_back(trim_front(s))
}

proof fn lemma_trim_front_skip(s: Seq<char>, i: int)
    requires
        0 <= i <= s.len(),
        forall|k: int| 0 <= k < i ==> is_ws(s[k]),
    ensures
        trim_front(s) == trim_front(s.skip(i)),
    decreases i,
{
    if i > 0 {
        assert(s.drop_first() =~= s.skip(1));
        assert(s.skip(1).skip(i - 1) =~= s.skip(i));
        lemma_trim_front_skip(s.skip(1), i - 1);
    } else {
        assert(s.skip(0) =~= s);
    }
}

proof fn lemma_trim_back_take(s: Seq<char>, j: int)
    requires
        0 <= j <= s.len(),
        forall|k: int| j <= k < s.len() ==> is_ws(s[k]),
    ensures
        trim_back(s) == trim_back(s.take(j)),
    decreases s.len() - j,
{
    if j < s.len() {
        assert(s.drop_last() =~= s.take(s.len() - 1));
        assert(s.take(s.len() - 1).take(j) =~= s.take(j));
        lemma_trim_back_take(s.take(s.len() - 1), j);
    } else {
        assert(s.take(j) =~= s);
    }
}

/// `s` with whitespace removed at both ends, as a slice of `s`.
pub fn trim(s: &str) -> (r: &str)
    ensures
        r@ == trimmed(s@),
{
    let len = s.unicode_len();
    let mut i: usize = 0;
    while i < len && is_ws_char(s.get_char(i))
        invariant
            len == s@.len(),
            i <= len,
            forall|k: int| 0 <= k < i ==> is_ws(s@[k]),
        decreases len - i,
    {
        i += 1;
    }
    proof {
        lemma_trim_front_skip(s@, i as int);
        if i < len {
            assert(s@.skip(i as int)[0] == s@[i as int]);
        }
        assert(trim_front(s@) == s@.skip(i as int));
    }
    let mut j: usize = len;
    while j > i && is_ws_char(s.get_char(j - 1))
        invariant
            len == s@.len(),
            i <= j <= len,
            forall|k: int| j <= k < len ==> is_ws(s@[k]),
        decreases j,
    {
        j -= 1;
    }
    let r = s.substring_char(i, j);
    proof {
        let t = s@.skip(i as int);
        lemma_trim_back_take(t, j - i);
        if j > i {
            assert(t.take(j - i)[j - i - 1] == s@[j - 1]);
        } else {
            assert(forall|k: int| i <= k < len ==> is_ws(s@[k]));
            if t.len() > 0 {
                assert(t[t.len() - 1] == s@[len - 1]);
            }
        }
        assert(trim_back(t.take(j - i)) == t.take(j - i));
        assert(t.take(j - i) =~= s@.subrange(i as int, j as int));
    }
    r
}

/// `s` with every trailing semicolon removed.
pub open spec fn drop_semis(s: Seq<char>) -> Seq<char>
    decreases s.len(),
{
    if s.len() > 0 && s[s.len() - 1] == ';' {
        drop_semis(s.drop_last())
    } else {
        s
    }
}

proof fn lemma_drop_semis_take(s: Seq<char>, j: int)
    requires
        0 <= j <= s.len(),
        forall|k: int| j <= k < s.len() ==> s[k] == ';',
    ensures
        drop_semis(s) == drop_semis(s.take(j)),
    decreases s.len() - j,
{
    if j < s.len() {
        assert(s.drop_last() =~= s.take(s.len() - 1));
        assert(s.take(s.len() - 1).take(j) =~= s.take(j));
        lemma_drop_semis_take(s.take(s.len() - 1), j);
    } else {
        assert(s.take(j) =~= s);
    }
}

/// `s` without its trailing semicolons, as a slice of `s`.
pub fn trim_end_semicolons(s: &str) -> (r: &str)
    ensures
        r@ == drop_semis(s@),
{
    let len = s.unicode_len();
    let mut j: usize = len;
    while j > 0 && s.get_char(j - 1) == ';'
        invariant
            len == s@.len(),
            j <= len,
            forall|k: int| j <= k < len ==> s@[k] == ';',
        decreases j,
    {
        j -= 1;
    }
    let r = s.substring_char(0, j);
    proof {
        lemma_drop_semis_take(s@, j as int);
        if j > 0 {
            assert(s@.take(j as int)[j - 1] == s@[j - 1]);
        }
        assert(drop_semis(s@.take(j as int)) == s@.take(j as int));
        assert(s@.take(j as int) =~= s@.subrange(0, j as int));
    }
    r
}

/// The lower-case form of an ASCII letter; any other character is kept.
pub open spec fn lower_char_s(c: char) -> char {
    if c == 'A' {
        'a'
    } else if c == 'B' {
        'b'
    } else if c == 'C' {
        'c'
    } else if c == 'D' {
        'd'
    } else if c == 'E' {
        'e'
    } else if c == 'F' {
        'f'
    } else if c == 'G' {
        'g'
    } else if c == 'H' {
        'h'
    } else if c == 'I' {
        'i'
    } else if c == 'J' {
        'j'
    } else if c == 'K' {
        'k'
    } else if c == 'L' {
        'l'
    } else if c == 'M' {
        'm'
    } else if c == 'N' {
        'n'
    } else if c == 'O' {
        'o'
    } else if c == 'P' {
        'p'
    } else if c == 'Q' {
        'q'
    } else if c == 'R' {
        'r'
    } else if c == 'S' {
        's'
    } else if c == 'T' {
        't'
    } else if c == 'U' {
        'u'
    } else if c == 'V' {
        'v'
    } else if c == 'W' {
        'w'
    } else if c == 'X' {
        'x'
    } else if c == 'Y' {
        'y'
    } else if c == 'Z' {
        'z'
    } else {
        c
    }
}

/// The ASCII lower-case form of a string.
pub open spec fn lower_str(s: Seq<char>) -> Seq<char> {
    s.map_values(|c: char| lower_char_s(c))
}

/// Lower-cases one ASCII letter.
pub fn lower_char(c: char) -> (r: char)
    ensures
        r == lower_char_s(c),
{
    match c {
        'A' => 'a',
        'B' => 'b',
        'C' => 'c',
        'D' => 'd',
        'E' => 'e',
        'F' => 'f',
        'G' => 'g',
        'H' => 'h',
        'I' => 'i',
        'J' => 'j',
        'K' => 'k',
        'L' => 'l',
        'M' => 'm',
        'N' => 'n',
        'O' => 'o',
        'P' => 'p',
        'Q' => 'q',
        'R' => 'r',
        'S' => 's',
        'T' => 't',
        'U' => 'u',
        'V' => 'v',
        'W' => 'w',
        'X' => 'x',
        'Y' => 'y',
        'Z' => 'z',
        _ => c,
    }
}

/// ASCII lower-casing of identifiers, used to reconcile the catalogs of
/// backends that report upper-case names.
pub fn to_lowercase(s: &str) -> (r: String)
    ensures
        r@ == lower_str(s@),
{
    let len = s.unicode_len();
    let mut r = String::new();
    let mut i: usize = 0;
    while i < len
        invariant
            len == s@.len(),
            i <= len,
            r@.len() == i,
            forall|j: int| 0 <= j < i ==> r@[j] == lower_char_s(s@[j]),
        decreases len - i,
    {
        r.push(lower_char(s.get_char(i)));
        i += 1;
    }
    proof {
        assert(r@ =~= lower_str(s@));
    }
    r
}

/// The length of the leading run of non-whitespace characters.
pub open spec fn run_len(s: Seq<char>) -> nat
    decreases s.len(),
{
    if s.len() > 0 && !is_ws(s[0]) {
        1 + run_len(s.drop_first())
    } else {
        0
    }
}

/// The leading run is never longer than the string.
pub proof fn lemma_run_len_bound(s: Seq<char>)
    ensures
        run_len(s) <= s.len(),
    decreases s.len(),
{
    if s.len() > 0 && !is_ws(s[0]) {
        lemma_run_len_bound(s.drop_first());
    }
}

/// The whitespace-separated tokens of `s`, in order.
pub open spec fn tokens_of(s: Seq<char>) -> Seq<Seq<char>>
    decreases s.len(),
    via tokens_of_decreases
{
    if s.len() == 0 {
        Seq::empty()
    } else if is_ws(s[0]) {
        tokens_of(s.drop_first())
    } else {
        let r = 1 + run_len(s.drop_first());
        seq![s.take(r as int)] + tokens_of(s.skip(r as int))
    }
}

#[via_fn]
proof fn tokens_of_decreases(s: Seq<char>) {
    if s.len() > 0 && !is_ws(s[0]) {
        lemma_run_len_bound(s.drop_first());
    }
}

proof fn lemma_run_len(t: Seq<char>, r: int)
    requires
        0 <= r <= t.len(),
        forall|k: int| 0 <= k < r ==> !is_ws(t[k]),
        r == t.len() || is_ws(t[r]),
    ensures
        run_len(t) == r,
    decreases r,
{
    if r == 0 {
        assert(run_len(t) == 0);
    } else {
        assert(!is_ws(t[0]));
        let u = t.drop_first();
        assert(forall|k: int| 0 <= k < r - 1 ==> u[k] == t[k + 1] && !is_ws(u[k]));
        if r - 1 < u.len() {
            assert(u[r - 1] == t[r]);
        }
        lemma_run_len(u, r - 1);
    }
}

/// Splits `s` at whitespace into its tokens.
pub fn tokenize(s: &str) -> (r: Vec<String>)
    ensures
        r@.map_values(|t: String| t@) == tokens_of(s@),
{
    let len = s.unicode_len();
    let mut acc: Vec<String> = Vec::new();
    let mut i: usize = 0;
    proof {
        assert(s@.skip(0) =~= s@);
        assert(acc@.map_values(|t: String| t@) =~= Seq::<Seq<char>>::empty());
    }
    while i < len
        invariant
            len == s@.len(),
            i <= len,
            tokens_of(s@) =~= acc@.map_values(|t: String| t@) + tokens_of(s@.skip(i as int)),
        decreases len - i,
    {
        if is_ws_char(s.get_char(i)) {
            proof {
                assert(s@.skip(i as int)[0] == s@[i as int]);
                assert(s@.skip(i as int).drop_first() =~= s@.skip(i + 1));
            }
            i += 1;
        } else {
            let start = i;
            let mut j = i + 1;
            while j < len && !is_ws_char(s.get_char(j))
                invariant
                    len == s@.len(),
                    start < j <= len,
                    forall|k: int| start <= k < j ==> !is_ws(s@[k]),
                decreases len - j,
            {
                j += 1;
            }
            let tok = s.substring_char(start, j);
            proof {
                let t = s@.skip(start as int);
                assert(forall|k: int|
                    0 <= k < j - start ==> t[k] == s@[k + start] && !is_ws(t[k]));
                if j < len {
                    assert(t[j - start] == s@[j as int]);
                }
                lemma_run_len(t, j - start);
                assert(t.take(j - start) =~= s@.subrange(start as int, j as int));
                assert(t.skip(j - start) =~= s@.skip(j as int));
                assert(tokens_of(t) == seq![s@.subrange(start as int, j as int)]
                    + tokens_of(s@.skip(j as int)));
            }
            let gstart: Ghost<int> = Ghost(start as int);
            acc.push(tok.to_owned());
            proof {
                let f = |t: String| t@;
                assert(acc@.map_values(f) =~= acc@.drop_last().map_values(f)
                    + seq![s@.subrange(gstart@, j as int)]);
            }
            i = j;
        }
    }
    proof {
        assert(s@.skip(len as int) =~= Seq::<char>::empty());
        assert(tokens_of(s@) =~= acc@.map_values(|t: String| t@));
    }
    acc
}

/// A decimal digit.
pub open spec fn is_digit(c: char) -> bool {
    c == '0' || c == '1' || c == '2' || c == '3' || c == '4' || c == '5' || c == '6'
        || c == '7' || c == '8' || c == '9'
}

/// The value of a decimal digit; zero for any other character.
pub open spec fn digit_val(c: char) -> nat {
    if c == '1' {
        1
    } else if c == '2' {
        2
    } else if c == '3' {
        3
    } else if c == '4' {
        4
    } else if c == '5' {
        5
    } else if c == '6' {
        6
    } else if c == '7' {
        7
    } else if c == '8' {
        8
    } else if c == '9' {
        9
    } else {
        0
    }
}

/// The numeric value of a digit string, most significant digit first.
pub open spec fn dec_val(s: Seq<char>) -> nat
    decreases s.len(),
{
    if s.len() == 0 {
        0
    } else {
        dec_val(s.drop_last()) * 10 + digit_val(s.last())
    }
}

/// All characters are decimal digits.
pub open spec fn all_digits(s: Seq<char>) -> bool {
    forall|i: int| 0 <= i < s.len() ==> is_digit(s[i])
}

/// `s` without one optional leading plus sign.
pub open spec fn strip_plus(s: Seq<char>) -> Seq<char> {
    if s.len() > 0 && s[0] == '+' {
        s.drop_first()
    } else {
        s
    }
}

/// The strings `str::parse::<usize>` accepts: an optional plus sign, one
/// or more digits, and a value that fits the machine word.
pub open spec fn is_usize_literal(s: Seq<char>) -> bool {
    strip_plus(s).len() > 0 && all_digits(strip_plus(s)) && dec_val(strip_plus(s))
        <= usize::MAX
}

/// Reads a digit character.
pub fn digit_of(c: char) -> (r: Option<u8>)
    ensures
        match r {
            Some(d) => is_digit(c) && d < 10 && d as nat == digit_val(c),
            None => !is_digit(c),
        },
{
    match c {
        '0' => Some(0),
        '1' => Some(1),
        '2' => Some(2),
        '3' => Some(3),
        '4' => Some(4),
        '5' => Some(5),
        '6' => Some(6),
        '7' => Some(7),
        '8' => Some(8),
        '9' => Some(9),
        _ => None,
    }
}

proof fn lemma_dec_val_prefix(s: Seq<char>, m: int)
    requires
        0 <= m <= s.len(),
    ensures
        dec_val(s) >= dec_val(s.take(m)),
    decreases s.len() - m,
{
    if m == s.len() {
        assert(s.take(m) =~= s);
    } else {
        assert(s.take(m + 1).drop_last() =~= s.take(m));
        assert(dec_val(s.take(m + 1)) == dec_val(s.take(m)) * 10 + digit_val(s.take(m + 1).last()));
        lemma_dec_val_prefix(s, m + 1);
    }
}

/// Parses an unsigned decimal integer as `str::parse::<usize>` would:
/// an optional leading plus sign, then digits. `None` on an empty digit
/// string, a stray character, or overflow.
pub fn parse_usize(s: &str) -> (r: Option<usize>)
    ensures
        match r {
            Some(v) => is_usize_literal(s@) && v as nat == dec_val(strip_plus(s@)),
            None => !is_usize_literal(s@),
        },
{
    let len = s.unicode_len();
    let start: usize = if len > 0 && s.get_char(0) == '+' {
        1
    } else {
        0
    };
    let ghost t = strip_plus(s@);
    proof {
        assert(t =~= s@.skip(start as int));
    }
    if start >= len {
        return None;
    }
    let mut val: usize = 0;
    let mut i = start;
    while i < len
        invariant
            len == s@.len(),
            start <= i <= len,
            start < len,
            t == s@.skip(start as int),
            t == strip_plus(s@),
            forall|k: int| start <= k < i ==> is_digit(s@[k]),
            val as nat == dec_val(t.take(i - start)),
        decreases len - i,
    {
        let c = s.get_char(i);
        proof {
            assert(t[i - start] == s@[i as int]);
        }
        match digit_of(c) {
            None => {
                return None;
            },
            Some(d) => {
                proof {
                    assert(t.take(i - start + 1).drop_last() =~= t.take(i - start));
                    assert(t.take(i - start + 1).last() == s@[i as int]);
                }
                if val > usize::MAX / 10 || (val == usize::MAX / 10 && d as usize > usize::MAX % 10) {
                    proof {
                        assert(usize::MAX == (usize::MAX / 10) * 10 + usize::MAX % 10);
                        assert(dec_val(t.take(i - start + 1)) > usize::MAX);
                        lemma_dec_val_prefix(t, i - start + 1);
                    }
                    return None;
                }
                proof {
                    assert(usize::MAX == (usize::MAX / 10) * 10 + usize::MAX % 10);
                }
                val = val * 10 + d as usize;
                i += 1;
            },
        }
    }
    proof {
        assert(t.take(i - start) =~= t);
    }
    Some(val)
}

/// A run of zero characters.
pub open spec fn zeros(n: nat) -> Seq<char> {
    Seq::new(n, |i: int| '0')
}

/// The decimal digits of `n`, zero-padded at the left to at least `w`
/// characters.
pub open spec fn padded_dec(n: nat, w: nat) -> Seq<char> {
    if dec_str(n).len() >= w {
        dec_str(n)
    } else {
        zeros((w - dec_str(n).len()) as nat) + dec_str(n)
    }
}

/// Formats `n` zero-padded to at least `w` characters.
pub fn pad_u64(n: u64, w: usize) -> (r: String)
    ensures
        r@ == padded_dec(n as nat, w as nat),
{
    let s = u64_to_string(n);
    let l = s.as_str().unicode_len();
    if l >= w {
        return s;
    }
    let mut r = String::new();
    let mut z: usize = 0;
    while z < w - l
        invariant
            w - l > 0,
            z <= w - l,
            r@ =~= zeros(z as nat),
        decreases w - l - z,
    {
        r.push('0');
        proof {
            assert(r@ =~= zeros((z + 1) as nat));
        }
        z += 1;
    }
    r.append(s.as_str());
    proof {
        assert(r@ =~= padded_dec(n as nat, w as nat));
    }
    r
}

/// The decimal form of `i` padded with zeros to a total width of six
/// characters, sign included, as `{:06}` formatting pads it.
pub open spec fn pad6_str(i: int) -> Seq<char> {
    if int_str(i).len() >= 6 {
        int_str(i)
    } else if i >= 0 {
        zeros((6 - int_str(i).len()) as nat) + int_str(i)
    } else {
        seq!['-'] + zeros((6 - int_str(i).len()) as nat) + dec_str((-i) as nat)
    }
}

/// Formats `i` zero-padded to a total width of six, sign included.
pub fn pad6_i64(i: i64) -> (r: String)
    ensures
        r@ == pad6_str(i as int),
{
    let s = i64_to_string(i);
    let l = s.as_str().unicode_len();
    if l >= 6 {
        return s;
    }
    let mut r = String::new();
    if i < 0 {
        r.push('-');
    }
    let mut z: usize = 0;
    while z < 6 - l
        invariant
            l < 6,
            z <= 6 - l,
            i < 0 ==> r@ =~= seq!['-'] + zeros(z as nat),
            i >= 0 ==> r@ =~= zeros(z as nat),
        decreases 6 - l - z,
    {
        r.push('0');
        proof {
            if i < 0 {
                assert(r@ =~= seq!['-'] + zeros((z + 1) as nat));
            } else {
                assert(r@ =~= zeros((z + 1) as nat));
            }
        }
        z += 1;
    }
    if i < 0 {
        let digits = s.as_str().substring_char(1, l);
        proof {
            assert(digits@ =~= dec_str((-(i as int)) as nat));
        }
        r.append(digits);
    } else {
        r.append(s.as_str());
    }
    proof {
        assert(r@ =~= pad6_str(i as int));
    }
    r
}

} // verus!
