//! Frame grammar of the monitor engine.
//!
//! A record boundary is a line terminator (`\n`). One frame is a
//! comma-separated list of `name=value` pairs; a name is an ASCII
//! identifier and a value a decimal numeral with an optional sign and
//! at most three fraction digits. Values are read as fixed-point
//! thousandths, so `22.5` parses to `22500`. A frame that does not
//! match this grammar is malformed: it produces a parse warning and is
//! skipped, never aborting the stream.

use vstd::prelude::*;
use crate::record::{Field, FieldModel, is_ascii_digit, is_name_start, is_name_byte, valid_name};

verus! {

pub const NEWLINE: u8 = 10;
pub const COMMA: u8 = 44;
pub const DOT: u8 = 46;
pub const MINUS: u8 = 45;
pub const EQUALS: u8 = 61;

/// Every byte of `s` is an ASCII decimal digit.
pub open spec fn all_digits(s: Seq<u8>) -> bool {
    forall|i: int| 0 <= i < s.len() ==> is_ascii_digit(#[trigger] s[i])
}

/// The numeral `s` read as a base-10 integer, most significant digit
/// first.
pub open spec fn digits_val(s: Seq<u8>) -> int
    decreases s.len(),
{
    if s.len() == 0 {
        0
    } else {
        digits_val(s.drop_last()) * 10 + (s.last() - 48)
    }
}

/// 10 to the `n`-th power.
pub open spec fn pow10(n: nat) -> int
    decreases n,
{
    if n == 0 {
        1
    } else {
        10 * pow10((n - 1) as nat)
    }
}

pub proof fn lemma_pow10_mono(a: nat, b: nat)
    requires
        a <= b,
    ensures
        pow10(a) <= pow10(b),
        pow10(a) >= 1,
    decreases b,
{
    if b > 0 {
        if a == b {
            lemma_pow10_mono((a - 1) as nat, (b - 1) as nat);
        } else {
            lemma_pow10_mono(a, (b - 1) as nat);
        }
    }
}

pub proof fn lemma_int_part_bound(s: Seq<u8>)
    requires
        valid_int_part(s),
    ensures
        0 <= digits_val(s) <= 999999999999999,
{
    lemma_digits_val_bound(s);
    lemma_pow10_mono(s.len(), 15);
    assert(pow10(15) == 1000000000000000) by {
        reveal_with_fuel(pow10, 16);
    }
}

pub proof fn lemma_frac_bound(s: Seq<u8>)
    requires
        all_digits(s),
        s.len() <= 3,
    ensures
        0 <= digits_val(s) <= 999,
        s.len() <= 2 ==> digits_val(s) <= 99,
{
    lemma_digits_val_bound(s);
    lemma_pow10_mono(s.len(), 3);
    assert(pow10(2) == 100 && pow10(3) == 1000) by {
        reveal_with_fuel(pow10, 4);
    }
    if s.len() <= 2 {
        lemma_pow10_mono(s.len(), 2);
    }
}

pub proof fn lemma_digits_val_bound(s: Seq<u8>)
    requires
        all_digits(s),
    ensures
        0 <= digits_val(s) < pow10(s.len()),
    decreases s.len(),
{
    if s.len() > 0 {
        assert(all_digits(s.drop_last())) by {
            assert(forall|i: int|
                0 <= i < s.drop_last().len() ==> #[trigger] s.drop_last()[i] == s[i]);
        }
        lemma_digits_val_bound(s.drop_last());
    }
}

/// The integer part of a numeral: one to fifteen digits.
pub open spec fn valid_int_part(s: Seq<u8>) -> bool {
    &&& 1 <= s.len() <= 15
    &&& all_digits(s)
}

/// An unsigned numeral: an integer part, optionally followed by a dot
/// and one, two or three fraction digits.
pub open spec fn valid_unsigned(s: Seq<u8>) -> bool {
    if s.len() >= 3 && s[s.len() - 2] == DOT {
        valid_int_part(s.take(s.len() - 2)) && is_ascii_digit(s[s.len() - 1])
    } else if s.len() >= 4 && s[s.len() - 3] == DOT {
        valid_int_part(s.take(s.len() - 3)) && all_digits(s.skip(s.len() - 2))
    } else if s.len() >= 5 && s[s.len() - 4] == DOT {
        valid_int_part(s.take(s.len() - 4)) && all_digits(s.skip(s.len() - 3))
    } else {
        valid_int_part(s)
    }
}

/// The value of an unsigned numeral in thousandths.
pub open spec fn unsigned_milli(s: Seq<u8>) -> int {
    if s.len() >= 3 && s[s.len() - 2] == DOT {
        digits_val(s.take(s.len() - 2)) * 1000 + (s[s.len() - 1] - 48) * 100
    } else if s.len() >= 4 && s[s.len() - 3] == DOT {
        digits_val(s.take(s.len() - 3)) * 1000 + digits_val(s.skip(s.len() - 2)) * 10
    } else if s.len() >= 5 && s[s.len() - 4] == DOT {
        digits_val(s.take(s.len() - 4)) * 1000 + digits_val(s.skip(s.len() - 3))
    } else {
        digits_val(s) * 1000
    }
}

/// A numeral with an optional leading minus sign.
pub open spec fn valid_number(s: Seq<u8>) -> bool {
    if s.len() >= 1 && s[0] == MINUS {
        valid_unsigned(s.skip(1))
    } else {
        valid_unsigned(s)
    }
}

/// The signed value of a numeral in thousandths.
pub open spec fn number_milli(s: Seq<u8>) -> int {
    if s.len() >= 1 && s[0] == MINUS {
        -unsigned_milli(s.skip(1))
    } else {
        unsigned_milli(s)
    }
}

pub proof fn lemma_unsigned_milli_bound(s: Seq<u8>)
    requires
        valid_unsigned(s),
    ensures
        0 <= unsigned_milli(s) < 1000000000000000000,
{
    if s.len() >= 3 && s[s.len() - 2] == DOT {
        lemma_int_part_bound(s.take(s.len() - 2));
    } else if s.len() >= 4 && s[s.len() - 3] == DOT {
        lemma_int_part_bound(s.take(s.len() - 3));
        lemma_frac_bound(s.skip(s.len() - 2));
    } else if s.len() >= 5 && s[s.len() - 4] == DOT {
        lemma_int_part_bound(s.take(s.len() - 4));
        lemma_frac_bound(s.skip(s.len() - 3));
    } else {
        lemma_int_part_bound(s);
    }
}

/// Reads the digit run `v[start..end]` as an integer, refusing runs
/// that are empty, longer than fifteen digits, or not all digits.
pub fn parse_digits(v: &Vec<u8>, start: usize, end: usize) -> (r: Option<i64>)
    requires
        start <= end <= v@.len(),
    ensures
        ({
            let s = v@.subrange(start as int, end as int);
            match r {
                Some(m) => valid_int_part(s) && m == digits_val(s),
                None => !valid_int_part(s),
            }
        }),
{
    let ghost s = v@.subrange(start as int, end as int);
    let len = end - start;
    if len < 1 || len > 15 {
        return None;
    }
    let mut acc: i64 = 0;
    let mut i = start;
    while i < end
        invariant
            start <= i <= end <= v@.len(),
            end - start <= 15,
            s == v@.subrange(start as int, end as int),
            all_digits(v@.subrange(start as int, i as int)),
            acc == digits_val(v@.subrange(start as int, i as int)),
            0 <= acc < pow10((i - start) as nat),
        decreases end - i,
    {
        let b = v[i];
        if b < 48 || b > 57 {
            assert(!is_ascii_digit(s[i - start]));
            return None;
        }
        proof {
            lemma_pow10_mono((i - start) as nat, 14);
            assert(pow10(14) == 100000000000000) by {
                reveal_with_fuel(pow10, 15);
            }
            let pre = v@.subrange(start as int, i as int);
            let ext = v@.subrange(start as int, i + 1);
            assert(ext.drop_last() =~= pre);
            assert(ext.last() == v@[i as int]);
        }
        acc = acc * 10 + (b - 48) as i64;
        i = i + 1;
    }
    assert(v@.subrange(start as int, i as int) =~= s);
    Some(acc)
}

/// Reads the numeral `v[start..end]` as a signed fixed-point value in
/// thousandths; `None` exactly on byte runs the grammar refuses.
pub fn parse_number(v: &Vec<u8>, start: usize, end: usize) -> (r: Option<i64>)
    requires
        start <= end <= v@.len(),
    ensures
        ({
            let s = v@.subrange(start as int, end as int);
            match r {
                Some(m) => valid_number(s) && m == number_milli(s),
                None => !valid_number(s),
            }
        }),
{
    let ghost s0 = v@.subrange(start as int, end as int);
    let neg = start < end && v[start] == MINUS;
    let ustart = if neg { start + 1 } else { start };
    let ghost s = v@.subrange(ustart as int, end as int);
    proof {
        if neg {
            assert(s0.skip(1) =~= s);
        }
    }
    let r = parse_unsigned(v, ustart, end);
    match r {
        Some(m) => {
            proof {
                lemma_unsigned_milli_bound(s);
            }
            if neg {
                Some(-m)
            } else {
                Some(m)
            }
        },
        None => None,
    }
}

/// Reads the unsigned numeral `v[start..end]` in thousandths.
pub fn parse_unsigned(v: &Vec<u8>, start: usize, end: usize) -> (r: Option<i64>)
    requires
        start <= end <= v@.len(),
    ensures
        ({
            let s = v@.subrange(start as int, end as int);
            match r {
                Some(m) => valid_unsigned(s) && m == unsigned_milli(s),
                None => !valid_unsigned(s),
            }
        }),
{
    let ghost s = v@.subrange(start as int, end as int);
    let len = end - start;
    if len >= 3 && v[end - 2] == DOT {
        assert(s[s.len() - 2] == DOT);
        let ip = parse_digits(v, start, end - 2);
        proof {
            assert(s.take(s.len() - 2) =~= v@.subrange(start as int, end - 2));
        }
        match ip {
            Some(m) => {
                let d = v[end - 1];
                if d < 48 || d > 57 {
                    assert(!is_ascii_digit(s[s.len() - 1]));
                    return None;
                }
                proof {
                    lemma_int_part_bound(s.take(s.len() - 2));
                }
                Some(m * 1000 + ((d - 48) as i64) * 100)
            },
            None => None,
        }
    } else if len >= 4 && v[end - 3] == DOT {
        assert(s[s.len() - 3] == DOT);
        assert(!(s.len() >= 3 && s[s.len() - 2] == DOT)) by {
            assert(is_ascii_digit(s[s.len() - 3]) == false);
        }
        let ip = parse_digits(v, start, end - 3);
        let fp = parse_digits(v, end - 2, end);
        proof {
            assert(s.take(s.len() - 3) =~= v@.subrange(start as int, end - 3));
            assert(s.skip(s.len() - 2) =~= v@.subrange(end - 2, end as int));
        }
        match (ip, fp) {
            (Some(m), Some(f)) => {
                proof {
                    lemma_int_part_bound(s.take(s.len() - 3));
                    lemma_frac_bound(s.skip(s.len() - 2));
                }
                Some(m * 1000 + f * 10)
            },
            _ => None,
        }
    } else if len >= 5 && v[end - 4] == DOT {
        assert(s[s.len() - 4] == DOT);
        let ip = parse_digits(v, start, end - 4);
        let fp = parse_digits(v, end - 3, end);
        proof {
            assert(s.take(s.len() - 4) =~= v@.subrange(start as int, end - 4));
            assert(s.skip(s.len() - 3) =~= v@.subrange(end - 3, end as int));
        }
        match (ip, fp) {
            (Some(m), Some(f)) => {
                proof {
                    lemma_int_part_bound(s.take(s.len() - 4));
                    lemma_frac_bound(s.skip(s.len() - 3));
                }
                Some(m * 1000 + f)
            },
            _ => None,
        }
    } else {
        let ip = parse_digits(v, start, end);
        match ip {
            Some(m) => {
                proof {
                    lemma_int_part_bound(s);
                }
                Some(m * 1000)
            },
            None => None,
        }
    }
}

/// Index of the first occurrence of `sep` in `s`, or `s.len()` if
/// `sep` does not occur.
pub open spec fn find_sep(s: Seq<u8>, sep: u8) -> int
    decreases s.len(),
{
    if s.len() == 0 {
        0
    } else if s[0] == sep {
        0
    } else {
        1 + find_sep(s.skip(1), sep)
    }
}

pub proof fn lemma_find_sep_props(s: Seq<u8>, sep: u8)
    ensures
        0 <= find_sep(s, sep) <= s.len(),
        find_sep(s, sep) < s.len() ==> s[find_sep(s, sep)] == sep,
        forall|j: int| 0 <= j < find_sep(s, sep) ==> s[j] != sep,
    decreases s.len(),
{
    if s.len() > 0 && s[0] != sep {
        lemma_find_sep_props(s.skip(1), sep);
        assert forall|j: int| 0 <= j < find_sep(s, sep) implies s[j] != sep by {
            if j >= 1 {
                assert(s.skip(1)[j - 1] == s[j]);
            }
        }
    }
}

pub proof fn lemma_find_sep_at(s: Seq<u8>, sep: u8, k: int)
    requires
        0 <= k <= s.len(),
        forall|j: int| 0 <= j < k ==> s[j] != sep,
        k < s.len() ==> s[k] == sep,
    ensures
        find_sep(s, sep) == k,
    decreases s.len(),
{
    if s.len() > 0 && k > 0 {
        assert forall|j: int| 0 <= j < k - 1 implies s.skip(1)[j] != sep by {
            assert(s.skip(1)[j] == s[j + 1]);
        }
        assert(k - 1 < s.skip(1).len() ==> s.skip(1)[k - 1] == sep);
        lemma_find_sep_at(s.skip(1), sep, k - 1);
    }
}

/// Finds the first `sep` at or after `start` and before `end`;
/// returns `end` when there is none.
pub fn find_byte(v: &Vec<u8>, start: usize, end: usize, sep: u8) -> (i: usize)
    requires
        start <= end <= v@.len(),
    ensures
        start <= i <= end,
        i - start == find_sep(v@.subrange(start as int, end as int), sep),
        i < end ==> v@[i as int] == sep,
{
    let ghost s = v@.subrange(start as int, end as int);
    let mut i = start;
    while i < end && v[i] != sep
        invariant
            start <= i <= end <= v@.len(),
            forall|j: int| start <= j < i ==> v@[j] != sep,
        decreases end - i,
    {
        i = i + 1;
    }
    proof {
        assert forall|j: int| 0 <= j < i - start implies s[j] != sep by {
            assert(s[j] == v@[start + j]);
        }
        assert(i - start < s.len() ==> s[i - start] == sep);
        lemma_find_sep_at(s, sep, i - start);
    }
    i
}

/// Whether `v[start..end]` is a well-formed field name.
pub fn check_name(v: &Vec<u8>, start: usize, end: usize) -> (b: bool)
    requires
        start <= end <= v@.len(),
    ensures
        b == valid_name(v@.subrange(start as int, end as int)),
{
    let ghost s = v@.subrange(start as int, end as int);
    if start == end {
        return false;
    }
    let b0 = v[start];
    if !(b0 == 95 || (97 <= b0 && b0 <= 122) || (65 <= b0 && b0 <= 90)) {
        assert(!is_name_start(s[0]));
        return false;
    }
    assert(is_name_start(s[0]));
    let mut i = start + 1;
    while i < end
        invariant
            start < i <= end <= v@.len(),
            s == v@.subrange(start as int, end as int),
            is_name_start(s[0]),
            forall|j: int| 0 <= j < i - start ==> is_name_byte(#[trigger] s[j]),
        decreases end - i,
    {
        let b = v[i];
        if !(b == 95 || (97 <= b && b <= 122) || (65 <= b && b <= 90) || (48 <= b && b <= 57)) {
            assert(!is_name_byte(s[i - start]));
            return false;
        }
        assert(is_name_byte(s[i - start]));
        i = i + 1;
    }
    true
}

/// Copies `v[start..end]` into a fresh vector.
pub fn copy_range(v: &Vec<u8>, start: usize, end: usize) -> (r: Vec<u8>)
    requires
        start <= end <= v@.len(),
    ensures
        r@ == v@.subrange(start as int, end as int),
{
    let mut r: Vec<u8> = Vec::new();
    let mut i = start;
    while i < end
        invariant
            start <= i <= end <= v@.len(),
            r@ == v@.subrange(start as int, i as int),
        decreases end - i,
    {
        r.push(v[i]);
        proof {
            assert(v@.subrange(start as int, i + 1) =~= v@.subrange(start as int, i as int).push(
                v@[i as int],
            ));
        }
        i = i + 1;
    }
    r
}

/// One `name=value` pair of a frame, or `None` if the bytes do not
/// match the pair grammar.
pub open spec fn spec_parse_pair(s: Seq<u8>) -> Option<FieldModel> {
    let e = find_sep(s, EQUALS);
    if 0 <= e < s.len() && valid_name(s.take(e)) && valid_number(s.skip(e + 1)) {
        Some(FieldModel { name: s.take(e), milli: number_milli(s.skip(e + 1)) as i64 })
    } else {
        None
    }
}

/// The fields of one frame, or `None` if any pair is malformed.
pub open spec fn spec_parse_frame(s: Seq<u8>) -> Option<Seq<FieldModel>>
    decreases s.len(),
{
    let c = find_sep(s, COMMA);
    if 0 <= c < s.len() {
        match (spec_parse_pair(s.take(c)), spec_parse_frame(s.skip(c + 1))) {
            (Some(f), Some(rest)) => Some(seq![f] + rest),
            _ => None,
        }
    } else {
        match spec_parse_pair(s) {
            Some(f) => Some(seq![f]),
            None => None,
        }
    }
}

/// Parses one `name=value` pair from `v[start..end]`.
pub fn parse_pair(v: &Vec<u8>, start: usize, end: usize) -> (r: Option<Field>)
    requires
        start <= end <= v@.len(),
    ensures
        ({
            let s = v@.subrange(start as int, end as int);
            match r {
                Some(f) => spec_parse_pair(s) == Some(f@),
                None => spec_parse_pair(s) is None,
            }
        }),
{
    let ghost s = v@.subrange(start as int, end as int);
    let e = find_byte(v, start, end, EQUALS);
    if e == end {
        return None;
    }
    proof {
        assert(s.take(e - start) =~= v@.subrange(start as int, e as int));
        assert(s.skip(e - start + 1) =~= v@.subrange(e + 1, end as int));
    }
    if !check_name(v, start, e) {
        return None;
    }
    match parse_number(v, e + 1, end) {
        Some(milli) => {
            let name = copy_range(v, start, e);
            Some(Field { name, milli })
        },
        None => None,
    }
}

/// Parses a whole frame from `v[start..end]`: a comma-separated list
/// of pairs. Returns the fields in frame order, or `None` for a
/// malformed frame.
pub fn parse_frame(v: &Vec<u8>, start: usize, end: usize) -> (r: Option<Vec<Field>>)
    requires
        start <= end <= v@.len(),
    ensures
        ({
            let s = v@.subrange(start as int, end as int);
            match r {
                Some(fs) => spec_parse_frame(s) == Some(fs@.map(|i: int, f: Field| f@)),
                None => spec_parse_frame(s) is None,
            }
        }),
    decreases end - start,
{
    let ghost s = v@.subrange(start as int, end as int);
    let c = find_byte(v, start, end, COMMA);
    if c == end {
        match parse_pair(v, start, end) {
            Some(f) => {
                let mut fs: Vec<Field> = Vec::new();
                fs.push(f);
                proof {
                    assert(fs@.map(|i: int, g: Field| g@) =~= seq![f@]);
                }
                Some(fs)
            },
            None => None,
        }
    } else {
        proof {
            assert(s.take(c - start) =~= v@.subrange(start as int, c as int));
            assert(s.skip(c - start + 1) =~= v@.subrange(c + 1, end as int));
        }
        match parse_pair(v, start, c) {
            Some(f) => {
                match parse_frame(v, c + 1, end) {
                    Some(rest) => {
                        let mut fs: Vec<Field> = Vec::new();
                        fs.push(f);
                        let mut rest = rest;
                        let ghost rest_view = rest@;
                        fs.append(&mut rest);
                        proof {
                            assert(fs@.map(|i: int, g: Field| g@) =~= seq![f@]
                                + rest_view.map(|i: int, g: Field| g@));
                        }
                        Some(fs)
                    },
                    None => None,
                }
            },
            None => None,
        }
    }
}

} // verus!
