//! Decimal text of indexes: the fixed-width keys under which log entries are
//! stored, and the paths of a node's storage directory.
use vstd::prelude::*;

verus! {

/// The number of characters of an entry key.
pub const ENTRY_KEY_LENGTH: usize = 10;

/// The character of a decimal digit.
pub open spec fn digit_char(d: int) -> char {
    if d == 0 {
        '0'
    } else if d == 1 {
        '1'
    } else if d == 2 {
        '2'
    } else if d == 3 {
        '3'
    } else if d == 4 {
        '4'
    } else if d == 5 {
        '5'
    } else if d == 6 {
        '6'
    } else if d == 7 {
        '7'
    } else if d == 8 {
        '8'
    } else {
        '9'
    }
}

/// The value of a decimal digit character, or -1 for any other character.
pub open spec fn digit_value(c: char) -> int {
    if c == '0' {
        0
    } else if c == '1' {
        1
    } else if c == '2' {
        2
    } else if c == '3' {
        3
    } else if c == '4' {
        4
    } else if c == '5' {
        5
    } else if c == '6' {
        6
    } else if c == '7' {
        7
    } else if c == '8' {
        8
    } else if c == '9' {
        9
    } else {
        -1
    }
}

pub open spec fn is_digit(c: char) -> bool {
    digit_value(c) >= 0
}

pub open spec fn all_digits(s: Seq<char>) -> bool {
    forall|i: int| 0 <= i < s.len() ==> is_digit(#[trigger] s[i])
}

/// The shortest decimal text of `n`.
pub open spec fn decimal(n: nat) -> Seq<char>
    decreases n,
{
    if n < 10 {
        seq![digit_char(n as int)]
    } else {
        decimal(n / 10).push(digit_char((n % 10) as int))
    }
}

/// The number that a text of decimal digits denotes.
pub open spec fn digits_value(s: Seq<char>) -> nat
    decreases s.len(),
{
    if s.len() == 0 {
        0
    } else {
        digits_value(s.drop_last()) * 10 + digit_value(s.last()) as nat
    }
}

/// `s` with zeros put in front until it is `width` characters long.
pub open spec fn zero_pad(s: Seq<char>, width: nat) -> Seq<char> {
    if s.len() >= width {
        s
    } else {
        Seq::new((width - s.len()) as nat, |i: int| '0') + s
    }
}

/// The key under which the entry at index `n` is stored.
pub open spec fn entry_key(n: nat) -> Seq<char> {
    zero_pad(decimal(n), ENTRY_KEY_LENGTH as nat)
}

/// The digits of an unsigned number's text, after an optional leading `+`.
pub open spec fn unsigned_digits(s: Seq<char>) -> Seq<char> {
    if s.len() > 0 && s[0] == '+' {
        s.drop_first()
    } else {
        s
    }
}

/// Whether `s` is the text of a `u64`, as Rust's `u64::from_str` reads it.
pub open spec fn parses_as_u64(s: Seq<char>) -> bool {
    let t = unsigned_digits(s);
    &&& t.len() > 0
    &&& all_digits(t)
    &&& digits_value(t) <= u64::MAX
}

/// The number that the text of a `u64` denotes.
pub open spec fn parsed_u64(s: Seq<char>) -> nat {
    digits_value(unsigned_digits(s))
}

/// Byte-wise lexicographic order, in which a key-value store walks its keys.
pub open spec fn lex_less(x: Seq<char>, y: Seq<char>) -> bool {
    ||| exists|i: int|
        0 <= i < x.len() && i < y.len() && #[trigger] x.take(i) == y.take(i) && (x[i] as int) < (
        y[i] as int)
    ||| (x.len() < y.len() && y.take(x.len() as int) == x)
}

pub open spec fn pow10(k: nat) -> nat
    decreases k,
{
    if k == 0 {
        1
    } else {
        10 * pow10((k - 1) as nat)
    }
}

/// The one-character text of a digit.
fn digit_str(d: u64) -> (r: &'static str)
    requires
        d < 10,
    ensures
        r@ == seq![digit_char(d as int)],
{
    if d == 0 {
        proof { reveal_strlit("0"); }
        "0"
    } else if d == 1 {
        proof { reveal_strlit("1"); }
        "1"
    } else if d == 2 {
        proof { reveal_strlit("2"); }
        "2"
    } else if d == 3 {
        proof { reveal_strlit("3"); }
        "3"
    } else if d == 4 {
        proof { reveal_strlit("4"); }
        "4"
    } else if d == 5 {
        proof { reveal_strlit("5"); }
        "5"
    } else if d == 6 {
        proof { reveal_strlit("6"); }
        "6"
    } else if d == 7 {
        proof { reveal_strlit("7"); }
        "7"
    } else if d == 8 {
        proof { reveal_strlit("8"); }
        "8"
    } else {
        proof { reveal_strlit("9"); }
        "9"
    }
}

/// Appends the decimal text of `n` to `s`.
pub fn push_decimal(s: &mut String, n: u64)
    ensures
        final(s)@ == old(s)@ + decimal(n as nat),
    decreases n,
{
    if n >= 10 {
        push_decimal(s, n / 10);
    }
    s.append(digit_str(n % 10));
    proof {
        if n >= 10 {
            assert(decimal(n as nat) == decimal((n / 10) as nat).push(digit_char((n % 10) as int)));
        }
        assert(final(s)@ =~= old(s)@ + decimal(n as nat)) by {
            if n >= 10 {
                assert(final(s)@ =~= old(s)@ + decimal((n / 10) as nat) + seq![digit_char((n % 10) as int)]);
            }
        }
    }
}

/// The decimal text of `n`.
pub fn decimal_string(n: u64) -> (r: String)
    ensures
        r@ == decimal(n as nat),
{
    let mut s = String::new();
    push_decimal(&mut s, n);
    assert(s@ =~= decimal(n as nat));
    s
}

/// The decimal value of a digit character.
fn char_digit(c: char) -> (r: Option<u64>)
    ensures
        match r {
            Some(d) => is_digit(c) && d == digit_value(c),
            None => !is_digit(c),
        },
{
    if c == '0' {
        Some(0)
    } else if c == '1' {
        Some(1)
    } else if c == '2' {
        Some(2)
    } else if c == '3' {
        Some(3)
    } else if c == '4' {
        Some(4)
    } else if c == '5' {
        Some(5)
    } else if c == '6' {
        Some(6)
    } else if c == '7' {
        Some(7)
    } else if c == '8' {
        Some(8)
    } else if c == '9' {
        Some(9)
    } else {
        None
    }
}

/// A prefix of a text of digits denotes no more than the whole text.
proof fn lemma_prefix_value_le(s: Seq<char>, k: int)
    requires
        0 <= k <= s.len(),
        all_digits(s),
    ensures
        digits_value(s.take(k)) <= digits_value(s),
    decreases s.len() - k,
{
    if k < s.len() {
        lemma_prefix_value_le(s, k + 1);
        let p = s.take(k + 1);
        assert(p.drop_last() =~= s.take(k));
        assert(is_digit(s[k]));
    } else {
        assert(s.take(k) =~= s);
    }
}

/// Reads the text of a `u64` as Rust's `u64::from_str` does: an optional `+`
/// followed by at least one decimal digit, with a value that fits in a `u64`.
pub fn parse_u64(s: &str) -> (r: Option<u64>)
    ensures
        match r {
            Some(n) => parses_as_u64(s@) && n == parsed_u64(s@),
            None => !parses_as_u64(s@),
        },
{
    let len = s.unicode_len();
    let mut start: usize = 0;
    if len > 0 && s.get_char(0) == '+' {
        start = 1;
    }
    let ghost t = unsigned_digits(s@);
    assert(t =~= s@.skip(start as int));
    if start >= len {
        return None;
    }
    let mut value: u64 = 0;
    let mut i: usize = start;
    while i < len
        invariant
            start <= i <= len,
            len == s@.len(),
            t == s@.skip(start as int),
            t == unsigned_digits(s@),
            all_digits(t.take(i - start)),
            value == digits_value(t.take(i - start)),
        decreases len - i,
    {
        let c = s.get_char(i);
        let ghost k: int = i - start;
        assert(t[k] == c);
        match char_digit(c) {
            None => {
                assert(!all_digits(t));
                return None;
            },
            Some(d) => {
                assert(t.take(k + 1).drop_last() =~= t.take(k));
                assert(digits_value(t.take(k + 1)) == value * 10 + d);
                let next = match value.checked_mul(10) {
                    Some(v) => v.checked_add(d),
                    None => None,
                };
                match next {
                    None => {
                        proof {
                            assert(all_digits(t.take(k + 1)));
                            if all_digits(t) {
                                assert(t.take(k + 1) =~= t.take(k + 1));
                                lemma_prefix_value_le(t, k + 1);
                            }
                        }
                        return None;
                    },
                    Some(v) => {
                        value = v;
                    },
                }
            },
        }
        i = i + 1;
    }
    assert(t.take(len - start) =~= t);
    Some(value)
}

/// The text `s` with zeros in front until it is `width` characters long.
pub fn pad_zeros(s: &str, width: usize) -> (r: String)
    ensures
        r@ == zero_pad(s@, width as nat),
{
    let len = s.unicode_len();
    let mut r = String::new();
    if len < width {
        let mut k: usize = 0;
        while k < width - len
            invariant
                len < width,
                k <= width - len,
                r@ == Seq::new(k as nat, |i: int| '0'),
            decreases width - len - k,
        {
            proof { reveal_strlit("0"); }
            r.append("0");
            k = k + 1;
            assert(r@ =~= Seq::new(k as nat, |i: int| '0'));
        }
    }
    r.append(s);
    assert(r@ =~= zero_pad(s@, width as nat));
    r
}

/// The key under which the entry at `index` is stored.
pub fn entry_key_string(index: u64) -> (r: String)
    ensures
        r@ == entry_key(index as nat),
{
    let d = decimal_string(index);
    pad_zeros(d.as_str(), ENTRY_KEY_LENGTH)
}

/// Rewrites the decimal text of an entry index as its storage key: the same
/// number, with zeros in front up to ten digits.
pub fn format_entry_key_string(entry_key: &str) -> (r: String)
    requires
        parses_as_u64(entry_key@),
    ensures
        r@ == self::entry_key(parsed_u64(entry_key@)),
{
    let n = parse_u64(entry_key);
    match n {
        Some(n) => entry_key_string(n),
        None => {
            assert(false);
            String::new()
        },
    }
}

pub open spec fn storage_path(log_dir: Seq<char>, node_id: u64) -> Seq<char> {
    log_dir + "/node-"@ + decimal(node_id as nat)
}

/// The directory of node `node_id` under `log_dir`: `<log_dir>/node-<node_id>`.
pub fn get_storage_path(log_dir: &str, node_id: u64) -> (r: String)
    ensures
        r@ == storage_path(log_dir@, node_id),
{
    let mut r = String::new();
    r.append(log_dir);
    r.append("/node-");
    let id = decimal_string(node_id);
    r.append(id.as_str());
    assert(r@ =~= storage_path(log_dir@, node_id));
    r
}

/// The LMDB data file of node `node_id` under `log_dir`:
/// `<log_dir>/node-<node_id>/data.mdb`.
pub fn get_data_mdb_path(log_dir: &str, node_id: u64) -> (r: String)
    ensures
        r@ == storage_path(log_dir@, node_id) + "/data.mdb"@,
{
    let mut r = get_storage_path(log_dir, node_id);
    r.append("/data.mdb");
    r
}


proof fn lemma_digit_char(d: int)
    requires
        0 <= d < 10,
    ensures
        is_digit(digit_char(d)),
        digit_value(digit_char(d)) == d,
{
}

proof fn lemma_digit_code(c: char)
    requires
        is_digit(c),
    ensures
        digit_value(c) == (c as int) - 48,
{
}

/// The decimal text of `n` is made of digits and denotes `n`.
pub proof fn lemma_decimal(n: nat)
    ensures
        decimal(n).len() >= 1,
        all_digits(decimal(n)),
        digits_value(decimal(n)) == n,
    decreases n,
{
    if n < 10 {
        lemma_digit_char(n as int);
        assert(decimal(n).drop_last() =~= Seq::<char>::empty());
        assert(digits_value(Seq::<char>::empty()) == 0);
        assert(digits_value(decimal(n)) == digits_value(decimal(n).drop_last()) * 10 + digit_value(
            decimal(n).last(),
        ) as nat);
    } else {
        lemma_decimal(n / 10);
        lemma_digit_char((n % 10) as int);
        let d = decimal(n);
        assert(d.last() == digit_char((n % 10) as int));
        assert(n == (n / 10) * 10 + n % 10);
        assert(digits_value(d) == digits_value(d.drop_last()) * 10 + digit_value(d.last()) as nat);
        assert(d.drop_last() =~= decimal(n / 10));
        assert forall|i: int| 0 <= i < d.len() implies is_digit(#[trigger] d[i]) by {
            if i < d.len() - 1 {
                assert(d[i] == decimal(n / 10)[i]);
            }
        }
    }
}

proof fn lemma_zeros_value(z: nat)
    ensures
        digits_value(Seq::new(z, |i: int| '0')) == 0,
        all_digits(Seq::new(z, |i: int| '0')),
    decreases z,
{
    if z > 0 {
        lemma_zeros_value((z - 1) as nat);
        assert(Seq::new(z, |i: int| '0').drop_last() =~= Seq::new((z - 1) as nat, |i: int| '0'));
    }
}

/// Zeros in front of a text of digits do not change the number it denotes.
proof fn lemma_leading_zeros(z: nat, s: Seq<char>)
    requires
        all_digits(s),
    ensures
        digits_value(Seq::new(z, |i: int| '0') + s) == digits_value(s),
        all_digits(Seq::new(z, |i: int| '0') + s),
    decreases s.len(),
{
    let zs = Seq::new(z, |i: int| '0');
    lemma_zeros_value(z);
    if s.len() == 0 {
        assert(zs + s =~= zs);
    } else {
        lemma_leading_zeros(z, s.drop_last());
        assert((zs + s).drop_last() =~= zs + s.drop_last());
        assert((zs + s).last() == s.last());
    }
    assert forall|i: int| 0 <= i < (zs + s).len() implies is_digit(#[trigger] (zs + s)[i]) by {
        if i >= z {
            assert((zs + s)[i] == s[i - z]);
        }
    }
}

/// A number below `10^k` has at most `k` digits.
proof fn lemma_decimal_len(n: nat, k: nat)
    requires
        k >= 1,
        n < pow10(k),
    ensures
        decimal(n).len() <= k,
    decreases n,
{
    if n >= 10 {
        assert(k >= 2) by {
            if k == 1 {
                assert(pow10(1) == 10 * pow10(0));
            }
        }
        assert(pow10(k) == 10 * pow10((k - 1) as nat));
        assert(n / 10 < pow10((k - 1) as nat)) by (nonlinear_arith)
            requires
                n < 10 * pow10((k - 1) as nat),
        ;
        lemma_decimal_len(n / 10, (k - 1) as nat);
    }
}

/// Entry keys are made of digits, and denote the index they were made from.
pub proof fn lemma_entry_key_digits(n: nat)
    ensures
        entry_key(n).len() >= ENTRY_KEY_LENGTH,
        entry_key(n).len() >= 1,
        all_digits(entry_key(n)),
        digits_value(entry_key(n)) == n,
{
    lemma_decimal(n);
    let d = decimal(n);
    if d.len() < ENTRY_KEY_LENGTH {
        lemma_leading_zeros((ENTRY_KEY_LENGTH - d.len()) as nat, d);
    }
}

/// Reading an entry key back gives the index it was made from.
pub proof fn law_entry_key_round_trip(n: u64)
    ensures
        parses_as_u64(entry_key(n as nat)),
        parsed_u64(entry_key(n as nat)) == n,
{
    lemma_entry_key_digits(n as nat);
    let k = entry_key(n as nat);
    assert(is_digit(k[0]));
    assert(unsigned_digits(k) == k);
}

/// Between texts of digits of one length, the lexicographic order is the
/// order of the numbers they denote.
proof fn lemma_lex_value(x: Seq<char>, y: Seq<char>)
    requires
        x.len() == y.len(),
        all_digits(x),
        all_digits(y),
        lex_less(x, y),
    ensures
        digits_value(x) < digits_value(y),
    decreases x.len(),
{
    let n = x.len() as int;
    let i = choose|i: int|
        0 <= i < x.len() && i < y.len() && #[trigger] x.take(i) == y.take(i) && (x[i] as int) < (
        y[i] as int);
    let xs = x.drop_last();
    let ys = y.drop_last();
    lemma_digit_code(x.last());
    lemma_digit_code(y.last());
    assert(is_digit(x[n - 1]));
    assert(is_digit(y[n - 1]));
    assert(all_digits(xs));
    assert(all_digits(ys));
    if i == n - 1 {
        assert(xs =~= x.take(i));
        assert(ys =~= y.take(i));
    } else {
        assert(xs.take(i) =~= x.take(i));
        assert(ys.take(i) =~= y.take(i));
        assert(xs[i] == x[i] && ys[i] == y[i]);
        assert(lex_less(xs, ys));
        lemma_lex_value(xs, ys);
        assert(digit_value(x.last()) <= 9);
        assert(digit_value(y.last()) >= 0);
    }
}

/// Two distinct texts of one length are ordered one way or the other.
proof fn lemma_lex_total(x: Seq<char>, y: Seq<char>)
    requires
        x.len() == y.len(),
        x != y,
    ensures
        lex_less(x, y) || lex_less(y, x),
    decreases x.len(),
{
    let n = x.len() as int;
    if n == 0 {
        assert(x =~= y);
    } else {
        let xs = x.drop_last();
        let ys = y.drop_last();
        if xs == ys {
            assert(x[n - 1] != y[n - 1]) by {
                if x[n - 1] == y[n - 1] {
                    assert(x =~= y) by {
                        assert forall|k: int| 0 <= k < n implies x[k] == y[k] by {
                            if k < n - 1 {
                                assert(x[k] == xs[k] && y[k] == ys[k]);
                            }
                        }
                    }
                }
            }
            assert(x.take(n - 1) =~= xs);
            assert(y.take(n - 1) =~= ys);
            if (x[n - 1] as int) < (y[n - 1] as int) {
                assert(lex_less(x, y));
            } else {
                assert((y[n - 1] as int) < (x[n - 1] as int));
                assert(y.take(n - 1) == x.take(n - 1));
                assert(lex_less(y, x));
            }
        } else {
            lemma_lex_total(xs, ys);
            if lex_less(xs, ys) {
                let i = choose|i: int|
                    0 <= i < xs.len() && i < ys.len() && #[trigger] xs.take(i) == ys.take(i) && (
                    xs[i] as int) < (ys[i] as int);
                assert(x.take(i) =~= xs.take(i));
                assert(y.take(i) =~= ys.take(i));
                assert(lex_less(x, y));
            } else {
                let i = choose|i: int|
                    0 <= i < ys.len() && i < xs.len() && #[trigger] ys.take(i) == xs.take(i) && (
                    ys[i] as int) < (xs[i] as int);
                assert(x.take(i) =~= xs.take(i));
                assert(y.take(i) =~= ys.take(i));
                assert(lex_less(y, x));
            }
        }
    }
}

/// Entry keys sort like the indexes they are made from: for indexes below
/// `10^10`, every key has exactly ten characters, and one key comes before
/// another in the store's byte-wise order exactly when its index is smaller.
pub proof fn law_entry_key_order(a: u64, b: u64)
    requires
        a < pow10(ENTRY_KEY_LENGTH as nat),
        b < pow10(ENTRY_KEY_LENGTH as nat),
    ensures
        entry_key(a as nat).len() == ENTRY_KEY_LENGTH,
        entry_key(b as nat).len() == ENTRY_KEY_LENGTH,
        lex_less(entry_key(a as nat), entry_key(b as nat)) <==> a < b,
{
    lemma_decimal_len(a as nat, ENTRY_KEY_LENGTH as nat);
    lemma_decimal_len(b as nat, ENTRY_KEY_LENGTH as nat);
    lemma_entry_key_digits(a as nat);
    lemma_entry_key_digits(b as nat);
    let ka = entry_key(a as nat);
    let kb = entry_key(b as nat);
    if lex_less(ka, kb) {
        lemma_lex_value(ka, kb);
    }
    if a < b {
        if lex_less(kb, ka) {
            lemma_lex_value(kb, ka);
        }
        lemma_lex_total(ka, kb);
    }
}

} // verus!
