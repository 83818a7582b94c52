use vstd::prelude::*;
use vstd::string::StrSliceExecFns;

verus! {

/// The character for one decimal digit.
pub open spec fn spec_digit_char(d: int) -> char {
    if d == 0 {
        '0'
    } else if d == 1 {
        '1'
    } else if d == 2 {
        '2'
    } else if d == 3 {
        '3'
    } else if d == 4 {
        '4'
    } else if d == 5 {
        '5'
    } else if d == 6 {
        '6'
    } else if d == 7 {
        '7'
    } else if d == 8 {
        '8'
    } else {
        '9'
    }
}

/// The decimal digits of a non-negative integer, most significant first.
pub open spec fn spec_nat_str(n: int) -> Seq<char>
    decreases n,
{
    if n < 10 {
        seq![spec_digit_char(n)]
    } else {
        spec_nat_str(n / 10) + seq![spec_digit_char(n % 10)]
    }
}

/// The decimal rendering of an integer: its digits, with a leading minus
/// sign when it is negative.
pub open spec fn spec_int_str(i: int) -> Seq<char> {
    if i < 0 {
        seq!['-'] + spec_nat_str(-i)
    } else {
        spec_nat_str(i)
    }
}

/// Relies on the `Display` implementation of `i128`: decimal digits with a
/// leading minus sign for negative numbers.
#[verifier::external_body]
pub(crate) fn int_str(i: i128) -> (r: String)
    ensures
        r@ == spec_int_str(i as int),
{
    format!("{}", i)
}

/// Every character of the run is a decimal digit.
pub open spec fn spec_all_digits(s: Seq<char>) -> bool {
    forall|i: int| 0 <= i < s.len() ==> 48 <= (#[trigger] s[i]) as u32 <= 57
}

/// The value of a run of decimal digits, most significant first.
pub open spec fn spec_digits_val(s: Seq<char>) -> int
    decreases s,
{
    if s.len() == 0 {
        0
    } else {
        spec_digits_val(s.drop_last()) * 10 + ((s.last() as u32) - 48)
    }
}

/// The integer a run of text denotes, exactly as the standard library
/// reads one: an optional single leading sign, then one or more decimal
/// digits and nothing else, rejected when the value does not fit.
pub open spec fn int_of_str(s: Seq<char>) -> Option<i128> {
    let negative = s.len() > 0 && s[0] == '-';
    let signed = s.len() > 0 && (s[0] == '-' || s[0] == '+');
    let digits = if signed {
        s.skip(1)
    } else {
        s
    };
    if digits.len() == 0 || !spec_all_digits(digits) {
        None
    } else {
        let value = if negative {
            -spec_digits_val(digits)
        } else {
            spec_digits_val(digits)
        };
        if i128::MIN <= value <= i128::MAX {
            Some(value as i128)
        } else {
            None
        }
    }
}

/// The decimal rendering of a non-negative integer is a non-empty run
/// of digits whose value is the integer itself.
proof fn lemma_nat_str_digits(n: int)
    requires
        n >= 0,
    ensures
        spec_nat_str(n).len() >= 1,
        spec_all_digits(spec_nat_str(n)),
        spec_digits_val(spec_nat_str(n)) == n,
    decreases n,
{
    if n < 10 {
        assert(spec_nat_str(n) =~= seq![spec_digit_char(n)]);
        assert(spec_nat_str(n).drop_last() =~= Seq::<char>::empty());
        assert(spec_nat_str(n).last() == spec_digit_char(n));
        assert(spec_digits_val(Seq::<char>::empty()) == 0);
        assert(spec_digit_char(n) as u32 == 48 + n);
        assert(spec_digits_val(spec_nat_str(n)) == 0 * 10 + (48 + n - 48));
    } else {
        lemma_nat_str_digits(n / 10);
        let pre = spec_nat_str(n / 10);
        let s = spec_nat_str(n);
        assert(s == pre + seq![spec_digit_char(n % 10)]);
        assert(s.drop_last() =~= pre);
        assert(s.last() == spec_digit_char(n % 10));
        assert(spec_digit_char(n % 10) as u32 == 48 + n % 10);
        assert(spec_digits_val(s) == spec_digits_val(pre) * 10 + n % 10);
        assert(n / 10 * 10 + n % 10 == n);
        assert forall|i: int| 0 <= i < s.len() implies 48 <= (#[trigger] s[i]) as u32 <= 57 by {
            if i < pre.len() {
                assert(s[i] == pre[i]);
            } else {
                assert(s[i] == spec_digit_char(n % 10));
            }
        }
    }
}

/// Rendering an integer as decimal text and reading the text back yields
/// the integer again: the two text helpers are inverse to one another.
pub proof fn lemma_int_str_round_trip(i: i128)
    ensures
        int_of_str(spec_int_str(i as int)) == Some(i),
{
    let s = spec_int_str(i as int);
    if i >= 0 {
        lemma_nat_str_digits(i as int);
        assert(48 <= s[0] as u32 <= 57);
        assert(s[0] != '-' && s[0] != '+') by {
            assert('-' as u32 == 45 && '+' as u32 == 43);
        }
        assert(int_of_str(s) == Some(i));
    } else {
        let m = -(i as int);
        lemma_nat_str_digits(m);
        assert(s == seq!['-'] + spec_nat_str(m));
        assert(s[0] == '-');
        assert(s.skip(1) =~= spec_nat_str(m));
        assert(spec_digits_val(s.skip(1)) == m);
        assert(int_of_str(s) == Some(i));
    }
}

/// Relies on `i128::from_str` (through `str::parse`): the integer denoted
/// by the text — an optional single leading sign, then decimal digits and
/// nothing else — or nothing when the text has another shape or the value
/// does not fit, exactly as `int_of_str` states.
#[verifier::external_body]
pub(crate) fn parse_int_str(s: &str) -> (r: Option<i128>)
    ensures
        r == int_of_str(s@),
{
    s.parse::<i128>().ok()
}

/// Relies on `String`'s `FromIterator<char>`: the string holding exactly
/// the given characters in order.
#[verifier::external_body]
pub(crate) fn collect_string(v: &Vec<char>) -> (r: String)
    ensures
        r@ == v@,
{
    v.iter().collect::<String>()
}

pub uninterp spec fn char_of(n: u32) -> char;

/// Relies on `char::from_u32`: the character with the given code point, or
/// nothing when the number is a surrogate or above the Unicode maximum.
#[verifier::external_body]
pub(crate) fn char_of_u32(n: u32) -> (r: Option<char>)
    ensures
        (n < 0xD800 || (0xE000 <= n && n <= 0x10FFFF)) ==> (r is Some && r.unwrap() == char_of(n)
            && r.unwrap() as u32 == n),
        !(n < 0xD800 || (0xE000 <= n && n <= 0x10FFFF)) ==> r is None,
{
    char::from_u32(n)
}

/// The characters of a string, in order.
pub fn chars_of_str(s: &str) -> (r: Vec<char>)
    ensures
        r@ == s@,
{
    let n: usize = s.unicode_len();
    let mut out: Vec<char> = Vec::new();
    let mut i: usize = 0;
    while i < n
        invariant
            n == s@.len(),
            i <= n,
            out@ == s@.subrange(0, i as int),
        decreases n - i,
    {
        let c = s.get_char(i);
        out.push(c);
        i = i + 1;
        proof {
            assert(out@ =~= s@.subrange(0, i as int));
        }
    }
    proof {
        assert(out@ =~= s@);
    }
    out
}


pub uninterp spec fn unquoted_of(s: Seq<char>) -> Option<Seq<char>>;

/// Relies on `enquote::unquote`: strips the surrounding quotes and
/// decodes the escape sequences, or nothing when the text is not a
/// well-formed quoted string; a function of the text alone.
#[verifier::external_body]
pub(crate) fn unquote_str(s: &str) -> (r: Option<String>)
    ensures
        r is Some <==> unquoted_of(s@) is Some,
        r is Some ==> r.unwrap()@ == unquoted_of(s@).unwrap(),
{
    enquote::unquote(s).ok()
}

} // verus!
