//! Domain entities and value objects: `UserName`, `UserId` and the
//! `User` aggregate. Each value object validates its invariant at
//! construction; an already-constructed value is always well formed.

use vstd::prelude::*;

use crate::error::AppError;

verus! {

/// Shortest accepted name, counted in Unicode scalar values.
pub const NAME_MIN_LEN: usize = 2;

/// Longest accepted name, counted in Unicode scalar values.
pub const NAME_MAX_LEN: usize = 20;

/// A name character must be an ASCII letter or digit.
pub open spec fn char_is_ascii_alphanumeric(c: char) -> bool {
    ('0' <= c && c <= '9') || ('A' <= c && c <= 'Z') || ('a' <= c && c <= 'z')
}

/// The length invariant of a name.
pub open spec fn valid_name_length(s: Seq<char>) -> bool {
    NAME_MIN_LEN <= s.len() <= NAME_MAX_LEN
}

/// The full invariant of a name: length in range, every character an
/// ASCII letter or digit.
pub open spec fn valid_user_name(s: Seq<char>) -> bool {
    &&& valid_name_length(s)
    &&& forall|i: int| 0 <= i < s.len() ==> char_is_ascii_alphanumeric(#[trigger] s[i])
}

/// Message produced when a name's length is out of range.
pub open spec fn length_error_message(name: Seq<char>) -> Seq<char> {
    "name: "@ + name + " is too short or long. Use a name between 2 and 20 characters."@
}

/// Message produced when a name holds a character that is not an ASCII
/// letter or digit.
pub open spec fn characters_error_message(name: Seq<char>) -> Seq<char> {
    "name: "@ + name + " should consist of ascii alphanumerics."@
}

/// A validated user name. Immutable once constructed; the inner string
/// always satisfies [`valid_user_name`].
#[derive(Debug, PartialEq)]
pub struct UserName(String);

impl View for UserName {
    type V = Seq<char>;

    closed spec fn view(&self) -> Seq<char> {
        self.0@
    }
}

impl Clone for UserName {
    fn clone(&self) -> (r: Self)
        ensures
            r@ == self@,
    {
        UserName(self.0.clone())
    }
}

impl UserName {
    /// Validating constructor: length first, then character set; the
    /// first failed validation decides the error, whose message names
    /// the offending value and the violated rule.
    pub fn new(name: String) -> (r: Result<UserName, AppError>)
        ensures
            match r {
                Ok(u) => valid_user_name(name@) && u@ == name@,
                Err(e) => {
                    &&& !valid_user_name(name@)
                    &&& e matches AppError::InvalidArgument(m) && m@ == (
                        if !valid_name_length(name@) {
                            length_error_message(name@)
                        } else {
                            characters_error_message(name@)
                        }
                    )
                },
            },
    {
        if let Err(e) = Self::validate_length(&name) {
            return Err(e);
        }
        if let Err(e) = Self::validate_characters(&name) {
            return Err(e);
        }
        Ok(UserName(name))
    }

    /// Length must lie in `[NAME_MIN_LEN, NAME_MAX_LEN]`, counted in
    /// Unicode scalar values, not bytes.
    fn validate_length(name: &String) -> (r: Result<(), AppError>)
        ensures
            match r {
                Ok(()) => valid_name_length(name@),
                Err(e) => {
                    &&& !valid_name_length(name@)
                    &&& e matches AppError::InvalidArgument(m) && m@ == length_error_message(
                        name@,
                    )
                },
            },
    {
        let n = name.as_str().unicode_len();
        if NAME_MIN_LEN <= n && n <= NAME_MAX_LEN {
            Ok(())
        } else {
            let mut m = String::from_str("name: ");
            m.append(name.as_str());
            m.append(" is too short or long. Use a name between 2 and 20 characters.");
            Err(AppError::InvalidArgument(m))
        }
    }

    /// Every character must be an ASCII letter or digit.
    fn validate_characters(name: &String) -> (r: Result<(), AppError>)
        ensures
            match r {
                Ok(()) => forall|i: int|
                    0 <= i < name@.len() ==> char_is_ascii_alphanumeric(#[trigger] name@[i]),
                Err(e) => {
                    &&& exists|i: int|
                        0 <= i < name@.len() && !char_is_ascii_alphanumeric(name@[i])
                    &&& e matches AppError::InvalidArgument(m) && m@ == characters_error_message(
                        name@,
                    )
                },
            },
    {
        let s = name.as_str();
        let n = s.unicode_len();
        let mut i: usize = 0;
        let mut all_ok: bool = true;
        while i < n
            invariant
                0 <= i <= n,
                n == s@.len(),
                s@ == name@,
                all_ok <==> forall|j: int|
                    0 <= j < i ==> char_is_ascii_alphanumeric(#[trigger] s@[j]),
            decreases n - i,
        {
            let c = s.get_char(i);
            if !(('0' <= c && c <= '9') || ('A' <= c && c <= 'Z') || ('a' <= c && c <= 'z')) {
                all_ok = false;
            }
            i += 1;
        }
        if all_ok {
            Ok(())
        } else {
            let mut m = String::from_str("name: ");
            m.append(name.as_str());
            m.append(" should consist of ascii alphanumerics.");
            Err(AppError::InvalidArgument(m))
        }
    }

    /// Same validation as [`UserName::new`], under the conversion name.
    pub fn try_from(name: String) -> (r: Result<UserName, AppError>)
        ensures
            match r {
                Ok(u) => valid_user_name(name@) && u@ == name@,
                Err(e) => {
                    &&& !valid_user_name(name@)
                    &&& e matches AppError::InvalidArgument(m) && m@ == (
                        if !valid_name_length(name@) {
                            length_error_message(name@)
                        } else {
                            characters_error_message(name@)
                        }
                    )
                },
            },
    {
        UserName::new(name)
    }

    /// The name as an owned string.
    pub fn to_string(&self) -> (r: String)
        ensures
            r@ == self@,
    {
        self.0.clone()
    }
}

/// A character of a 128-bit identifier: a hexadecimal digit.
pub open spec fn is_hex_digit(c: char) -> bool {
    ('0' <= c && c <= '9') || ('a' <= c && c <= 'f') || ('A' <= c && c <= 'F')
}

/// Numeric value of a hexadecimal digit (0 for anything else).
pub open spec fn hex_digit_value(c: char) -> int {
    if '0' <= c && c <= '9' {
        c as u32 - '0' as u32
    } else if 'a' <= c && c <= 'f' {
        c as u32 - 'a' as u32 + 10
    } else if 'A' <= c && c <= 'F' {
        c as u32 - 'A' as u32 + 10
    } else {
        0
    }
}

/// The number a sequence of hexadecimal digits denotes, most
/// significant digit first.
pub open spec fn hex_value(s: Seq<char>) -> int
    decreases s.len(),
{
    if s.len() == 0 {
        0
    } else {
        hex_value(s.drop_last()) * 16 + hex_digit_value(s.last())
    }
}

/// Sixteen to the `n`-th power.
pub open spec fn pow16(n: int) -> int
    decreases n,
{
    if n <= 0 {
        1
    } else {
        16 * pow16(n - 1)
    }
}

/// `n` hexadecimal digits denote a number below `16^n`.
proof fn lemma_hex_value_bound(s: Seq<char>)
    ensures
        0 <= hex_value(s) < pow16(s.len() as int),
    decreases s.len(),
{
    if s.len() > 0 {
        lemma_hex_value_bound(s.drop_last());
    }
}

/// `pow16` is positive.
proof fn lemma_pow16_pos(n: int)
    ensures
        pow16(n) >= 1,
    decreases n,
{
    if n > 0 {
        lemma_pow16_pos(n - 1);
    }
}

/// `pow16` grows with its exponent.
proof fn lemma_pow16_increases(i: int, j: int)
    requires
        i <= j,
    ensures
        pow16(i) <= pow16(j),
    decreases j - i,
{
    if i < j {
        lemma_pow16_increases(i, j - 1);
        lemma_pow16_pos(j - 1);
    }
}

/// `16^32` is one more than the largest `u128`.
proof fn lemma_pow16_32()
    ensures
        pow16(32) == 0x100000000000000000000000000000000,
{
    reveal_with_fuel(pow16, 33);
}

/// The hexadecimal digits of an identifier string: every character
/// that is not a hyphen, in order.
pub open spec fn uuid_digits(s: Seq<char>) -> Seq<char>
    decreases s.len(),
{
    if s.len() == 0 {
        Seq::empty()
    } else if s.last() == '-' {
        uuid_digits(s.drop_last())
    } else {
        uuid_digits(s.drop_last()).push(s.last())
    }
}

/// A sequence without hyphens is its own digit sequence.
proof fn lemma_uuid_digits_no_hyphen(s: Seq<char>)
    requires
        forall|i: int| 0 <= i < s.len() ==> #[trigger] s[i] != '-',
    ensures
        uuid_digits(s) == s,
    decreases s.len(),
{
    if s.len() > 0 {
        lemma_uuid_digits_no_hyphen(s.drop_last());
        assert(uuid_digits(s.drop_last()).push(s.last()) =~= s);
    }
}

/// The unhyphenated form: exactly 32 hexadecimal digits.
pub open spec fn is_simple_uuid_string(s: Seq<char>) -> bool {
    s.len() == 32 && forall|i: int| 0 <= i < s.len() ==> is_hex_digit(#[trigger] s[i])
}

/// Positions of the four hyphens in the canonical hyphenated form.
pub open spec fn is_hyphen_position(i: int) -> bool {
    i == 8 || i == 13 || i == 18 || i == 23
}

/// How many hyphen positions lie strictly before position `i` of the
/// hyphenated form.
pub open spec fn hyphens_before(i: int) -> int {
    (if i > 8 {
        1int
    } else {
        0int
    }) + (if i > 13 {
        1int
    } else {
        0int
    }) + (if i > 18 {
        1int
    } else {
        0int
    }) + (if i > 23 {
        1int
    } else {
        0int
    })
}

/// The canonical hyphenated form: 8-4-4-4-12 hexadecimal digits.
pub open spec fn is_hyphenated_uuid_string(s: Seq<char>) -> bool {
    &&& s.len() == 36
    &&& forall|i: int| 0 <= i < 36 && is_hyphen_position(i) ==> #[trigger] s[i] == '-'
    &&& forall|i: int|
        0 <= i < 36 && !is_hyphen_position(i) ==> is_hex_digit(#[trigger] s[i])
}

/// A string accepted as a 128-bit identifier: 32 hexadecimal digits,
/// plain or canonically hyphenated.
pub open spec fn valid_uuid_string(s: Seq<char>) -> bool {
    is_simple_uuid_string(s) || is_hyphenated_uuid_string(s)
}

/// The 128-bit value a valid identifier string denotes.
pub open spec fn uuid_value(s: Seq<char>) -> int {
    hex_value(uuid_digits(s))
}

/// The `k`-th hexadecimal digit of `v`, most significant first,
/// `k` in `[0, 32)`.
pub open spec fn nibble_of(v: u128, k: int) -> u128 {
    (v >> ((4 * (31 - k)) as u128)) & 0xf
}

/// The lower-case character of one hexadecimal digit.
pub open spec fn nibble_char_of(d: int) -> char {
    if d == 0 {
        '0'
    } else if d == 1 {
        '1'
    } else if d == 2 {
        '2'
    } else if d == 3 {
        '3'
    } else if d == 4 {
        '4'
    } else if d == 5 {
        '5'
    } else if d == 6 {
        '6'
    } else if d == 7 {
        '7'
    } else if d == 8 {
        '8'
    } else if d == 9 {
        '9'
    } else if d == 10 {
        'a'
    } else if d == 11 {
        'b'
    } else if d == 12 {
        'c'
    } else if d == 13 {
        'd'
    } else if d == 14 {
        'e'
    } else {
        'f'
    }
}

/// The canonical lower-case hyphenated rendering of a 128-bit value.
pub open spec fn hyphenated_of(v: u128) -> Seq<char> {
    Seq::new(
        36,
        |j: int|
            if is_hyphen_position(j) {
                '-'
            } else {
                nibble_char_of(nibble_of(v, j - hyphens_before(j)) as int)
            },
    )
}

/// Each hexadecimal digit of `v` is below sixteen.
proof fn lemma_nibble_lt(v: u128, k: int)
    requires
        0 <= k < 32,
    ensures
        nibble_of(v, k) < 16,
{
    let sh = (4 * (31 - k)) as u128;
    assert((v >> sh) & 0xf < 16) by (bit_vector);
}

/// `nibble_char_of` renders exactly the digit it was given.
proof fn lemma_nibble_char_value(d: int)
    requires
        0 <= d < 16,
    ensures
        is_hex_digit(nibble_char_of(d)),
        hex_digit_value(nibble_char_of(d)) == d,
        nibble_char_of(d) != '-',
{
}

/// After consuming the first `j` characters of the rendering of `v`,
/// the digits seen so far denote the consumed prefix of `v`'s bits.
proof fn lemma_hyphenated_prefix(v: u128, j: int)
    requires
        0 <= j <= 36,
    ensures
        ({
            let digits = uuid_digits(hyphenated_of(v).subrange(0, j));
            let k = j - hyphens_before(j);
            &&& digits.len() == k
            &&& hex_value(digits) == (if k == 0 {
                0int
            } else {
                (v >> ((4 * (32 - k)) as u128)) as int
            })
        }),
    decreases j,
{
    if j > 0 {
        lemma_hyphenated_prefix(v, j - 1);
        let s = hyphenated_of(v);
        assert(s.subrange(0, j).drop_last() =~= s.subrange(0, j - 1));
        let c = s[j - 1];
        if is_hyphen_position(j - 1) {
            assert(c == '-');
        } else {
            let k0 = (j - 1) - hyphens_before(j - 1);
            assert(c == nibble_char_of(nibble_of(v, k0) as int));
            lemma_nibble_lt(v, k0);
            lemma_nibble_char_value(nibble_of(v, k0) as int);
            let digits0 = uuid_digits(s.subrange(0, j - 1));
            assert(uuid_digits(s.subrange(0, j)) == digits0.push(c));
            assert(digits0.push(c).drop_last() =~= digits0);
            if k0 == 0 {
                assert(v >> 124 == (v >> 124) & 0xf) by (bit_vector);
                assert(hex_value(digits0.push(c)) == nibble_of(v, 0) as int);
            } else {
                let sh = (4 * (31 - k0)) as u128;
                assert(sh <= 120) by {
                    assert(1 <= k0 < 32);
                }
                assert(v >> sh == (v >> (sh + 4)) * 16 + ((v >> sh) & 0xf)) by (bit_vector)
                    requires
                        sh <= 120,
                ;
                assert((4 * (32 - (k0 + 1))) as u128 == sh);
                assert((4 * (32 - k0)) as u128 == sh + 4);
            }
        }
    }
}

/// The canonical rendering of a value is itself a valid identifier
/// string, and it denotes exactly the value it was rendered from: the
/// two string forms and the 128-bit value describe one identifier.
pub proof fn lemma_hyphenated_round_trip(v: u128)
    ensures
        is_hyphenated_uuid_string(hyphenated_of(v)),
        valid_uuid_string(hyphenated_of(v)),
        uuid_value(hyphenated_of(v)) == v,
{
    let s = hyphenated_of(v);
    assert forall|i: int|
        0 <= i < 36 && !is_hyphen_position(i) implies is_hex_digit(#[trigger] s[i]) by {
        lemma_nibble_lt(v, i - hyphens_before(i));
        lemma_nibble_char_value(nibble_of(v, i - hyphens_before(i)) as int);
    }
    lemma_hyphenated_prefix(v, 36);
    assert(s.subrange(0, 36) =~= s);
    assert(v >> 0u128 == v) by (bit_vector);
}

/// An opaque 128-bit identifier. Its view is the identifier's value.
#[derive(Clone, Copy, Debug, PartialEq, Eq, Hash, Structural)]
pub struct UserId(u128);

impl View for UserId {
    type V = u128;

    closed spec fn view(&self) -> u128 {
        self.0
    }
}

/// Whether a vector of identifiers holds the given one.
pub fn vec_contains_id(ids: &Vec<UserId>, id: UserId) -> (r: bool)
    ensures
        r == ids@.contains(id),
{
    let n = ids.len();
    let mut t: usize = 0;
    while t < n
        invariant
            t <= n,
            n == ids@.len(),
            forall|q: int| 0 <= q < t ==> ids@[q] != id,
        decreases n - t,
    {
        if ids[t] == id {
            proof {
                assert(ids@.contains(id));
            }
            return true;
        }
        t += 1;
    }
    false
}

/// Identifiers with the same underlying value are the same identifier.
pub proof fn lemma_user_id_determined(a: UserId, b: UserId)
    ensures
        a@ == b@ ==> a == b,
{
}

/// The identifier holding the given value.
pub closed spec fn user_id_of(v: u128) -> UserId {
    UserId(v)
}

/// What `user_id_of` denotes, stated over the view.
pub proof fn lemma_user_id_of(v: u128)
    ensures
        user_id_of(v)@ == v,
{
}

/// Relies on `uuid::Uuid::new_v4` (read back with `as_u128`): a fresh
/// 128-bit identifier drawn from the operating system's randomness,
/// with the version nibble set to 4 and the variant bits to binary 10;
/// nothing else is promised of a random value.
#[verifier::external_body]
fn fresh_uuid_value() -> (r: u128)
    ensures
        r & 0xF000C000000000000000u128 == 0x40008000000000000000u128,
{
    uuid::Uuid::new_v4().as_u128()
}

/// Numeric value of one hexadecimal digit character.
fn hex_digit_val(c: char) -> (r: Option<u8>)
    ensures
        match r {
            Some(d) => is_hex_digit(c) && d < 16 && d as int == hex_digit_value(c),
            None => !is_hex_digit(c),
        },
{
    let u = c as u32;
    if '0' <= c && c <= '9' {
        Some((u - 48) as u8)
    } else if 'a' <= c && c <= 'f' {
        Some((u - 97 + 10) as u8)
    } else if 'A' <= c && c <= 'F' {
        Some((u - 65 + 10) as u8)
    } else {
        None
    }
}

/// Parse the unhyphenated 32-digit form.
fn parse_hex32(s: &str) -> (r: Option<u128>)
    requires
        s@.len() == 32,
    ensures
        match r {
            Some(v) => is_simple_uuid_string(s@) && v as int == hex_value(s@),
            None => !is_simple_uuid_string(s@),
        },
{
    let mut val: u128 = 0;
    let mut i: usize = 0;
    while i < 32
        invariant
            i <= 32,
            s@.len() == 32,
            forall|j: int| 0 <= j < i ==> is_hex_digit(#[trigger] s@[j]),
            val as int == hex_value(s@.subrange(0, i as int)),
        decreases 32 - i,
    {
        let c = s.get_char(i);
        let d = match hex_digit_val(c) {
            Some(d) => d,
            None => {
                return None;
            },
        };
        proof {
            lemma_hex_value_bound(s@.subrange(0, i as int));
            lemma_pow16_increases(i as int, 31);
            lemma_pow16_32();
        }
        val = val * 16 + (d as u128);
        proof {
            assert(s@.subrange(0, i + 1).drop_last() =~= s@.subrange(0, i as int));
        }
        i += 1;
    }
    proof {
        assert(s@.subrange(0, 32) =~= s@);
    }
    Some(val)
}

/// Parse the canonical hyphenated 36-character form.
fn parse_hex36(s: &str) -> (r: Option<u128>)
    requires
        s@.len() == 36,
    ensures
        match r {
            Some(v) => is_hyphenated_uuid_string(s@) && v as int == uuid_value(s@),
            None => !is_hyphenated_uuid_string(s@),
        },
{
    let mut val: u128 = 0;
    let mut i: usize = 0;
    while i < 36
        invariant
            i <= 36,
            s@.len() == 36,
            forall|j: int| 0 <= j < i && is_hyphen_position(j) ==> #[trigger] s@[j] == '-',
            forall|j: int|
                0 <= j < i && !is_hyphen_position(j) ==> is_hex_digit(#[trigger] s@[j]),
            uuid_digits(s@.subrange(0, i as int)).len() == i - hyphens_before(i as int),
            val as int == hex_value(uuid_digits(s@.subrange(0, i as int))),
        decreases 36 - i,
    {
        let c = s.get_char(i);
        let ghost prefix = s@.subrange(0, i as int);
        proof {
            assert(s@.subrange(0, i + 1).drop_last() =~= prefix);
        }
        if i == 8 || i == 13 || i == 18 || i == 23 {
            if c != '-' {
                return None;
            }
            proof {
                assert(s@.subrange(0, i + 1).last() == '-');
                assert(uuid_digits(s@.subrange(0, i + 1)) == uuid_digits(prefix));
            }
        } else {
            let d = match hex_digit_val(c) {
                Some(d) => d,
                None => {
                    return None;
                },
            };
            proof {
                lemma_hex_value_bound(uuid_digits(prefix));
                lemma_pow16_increases(uuid_digits(prefix).len() as int, 31);
                lemma_pow16_32();
            }
            val = val * 16 + (d as u128);
            proof {
                assert(c != '-');
                assert(uuid_digits(s@.subrange(0, i + 1)) =~= uuid_digits(prefix).push(c));
                assert(uuid_digits(prefix).push(c).drop_last() =~= uuid_digits(prefix));
                assert(uuid_digits(prefix).push(c).last() == c);
                assert(hex_value(uuid_digits(s@.subrange(0, i + 1))) == hex_value(
                    uuid_digits(prefix),
                ) * 16 + hex_digit_value(c));
            }
        }
        i += 1;
    }
    proof {
        assert(s@.subrange(0, 36) =~= s@);
    }
    Some(val)
}

/// The lower-case character of one hexadecimal digit, as a slice fit
/// for appending.
fn nibble_str(d: u128) -> (r: &'static str)
    requires
        d < 16,
    ensures
        r@ =~= seq![nibble_char_of(d as int)],
{
    if d == 0 {
        proof {
            reveal_strlit("0");
        }
        "0"
    } else if d == 1 {
        proof {
            reveal_strlit("1");
        }
        "1"
    } else if d == 2 {
        proof {
            reveal_strlit("2");
        }
        "2"
    } else if d == 3 {
        proof {
            reveal_strlit("3");
        }
        "3"
    } else if d == 4 {
        proof {
            reveal_strlit("4");
        }
        "4"
    } else if d == 5 {
        proof {
            reveal_strlit("5");
        }
        "5"
    } else if d == 6 {
        proof {
            reveal_strlit("6");
        }
        "6"
    } else if d == 7 {
        proof {
            reveal_strlit("7");
        }
        "7"
    } else if d == 8 {
        proof {
            reveal_strlit("8");
        }
        "8"
    } else if d == 9 {
        proof {
            reveal_strlit("9");
        }
        "9"
    } else if d == 10 {
        proof {
            reveal_strlit("a");
        }
        "a"
    } else if d == 11 {
        proof {
            reveal_strlit("b");
        }
        "b"
    } else if d == 12 {
        proof {
            reveal_strlit("c");
        }
        "c"
    } else if d == 13 {
        proof {
            reveal_strlit("d");
        }
        "d"
    } else if d == 14 {
        proof {
            reveal_strlit("e");
        }
        "e"
    } else {
        proof {
            reveal_strlit("f");
        }
        "f"
    }
}

impl UserId {
    /// A freshly generated random identifier.
    pub fn new() -> (r: UserId)
        ensures
            r@ & 0xF000C000000000000000u128 == 0x40008000000000000000u128,
    {
        UserId(fresh_uuid_value())
    }

    /// Parse an identifier from its string form. Succeeds exactly on
    /// the two accepted forms; anything else is an invalid argument.
    pub fn try_from(id: String) -> (r: Result<UserId, AppError>)
        ensures
            match r {
                Ok(u) => valid_uuid_string(id@) && u@ as int == uuid_value(id@),
                Err(e) => {
                    &&& !valid_uuid_string(id@)
                    &&& e matches AppError::InvalidArgument(m) && m@ == "invalid user id"@
                },
            },
    {
        let s = id.as_str();
        let n = s.unicode_len();
        let parsed: Option<u128> = if n == 32 {
            let p = parse_hex32(s);
            proof {
                if p is Some {
                    lemma_uuid_digits_no_hyphen(id@);
                }
            }
            p
        } else if n == 36 {
            parse_hex36(s)
        } else {
            None
        };
        match parsed {
            Some(v) => Ok(UserId(v)),
            None => Err(AppError::InvalidArgument(String::from_str("invalid user id"))),
        }
    }

    /// The canonical lower-case hyphenated rendering.
    pub fn to_string(&self) -> (r: String)
        ensures
            r@ == hyphenated_of(self@),
    {
        let v = self.0;
        let mut r = String::new();
        let mut j: usize = 0;
        let mut k: usize = 0;
        while j < 36
            invariant
                j <= 36,
                k == j - hyphens_before(j as int),
                r@ =~= hyphenated_of(v).subrange(0, j as int),
            decreases 36 - j,
        {
            if j == 8 || j == 13 || j == 18 || j == 23 {
                proof {
                    reveal_strlit("-");
                }
                r.append("-");
            } else {
                let sh: u128 = 4 * (31 - (k as u128));
                let d: u128 = (v >> sh) & 0xf;
                proof {
                    assert(d < 16) by (bit_vector)
                        requires
                            d == (v >> sh) & 0xf,
                    ;
                    assert(d == nibble_of(v, k as int));
                }
                r.append(nibble_str(d));
                k += 1;
            }
            proof {
                assert(hyphenated_of(v).subrange(0, j + 1) =~= hyphenated_of(v).subrange(
                    0,
                    j as int,
                ).push(hyphenated_of(v)[j as int]));
            }
            j += 1;
        }
        proof {
            assert(hyphenated_of(v).subrange(0, 36) =~= hyphenated_of(v));
        }
        r
    }
}

/// The aggregate root: a validated identity and a validated name.
#[derive(Debug, PartialEq)]
pub struct User {
    pub id: UserId,
    pub name: UserName,
}

impl Clone for User {
    fn clone(&self) -> (r: Self)
        ensures
            r.id == self.id,
            r.name@ == self.name@,
    {
        User { id: self.id, name: self.name.clone() }
    }
}

impl User {
    /// Create a new user under a freshly generated identifier.
    pub fn new(name: UserName) -> (r: User)
        ensures
            r.name == name,
            r.id@ & 0xF000C000000000000000u128 == 0x40008000000000000000u128,
    {
        User { id: UserId::new(), name }
    }

    /// Rebuild a user from stored string fields. A malformed field is
    /// corrupted stored data, not user input, so it is classified as an
    /// internal failure.
    pub fn reconstruct(id: String, name: String) -> (r: Result<User, AppError>)
        ensures
            match r {
                Ok(u) => {
                    &&& valid_uuid_string(id@) && valid_user_name(name@)
                    &&& u.id@ as int == uuid_value(id@)
                    &&& u.name@ == name@
                },
                Err(e) => {
                    &&& !(valid_uuid_string(id@) && valid_user_name(name@))
                    &&& e matches AppError::Internal(m) && m@ == (
                        if !valid_uuid_string(id@) {
                            "failed to reconstruct user: invalid id"@
                        } else {
                            "failed to reconstruct user: invalid name"@
                        }
                    )
                },
            },
    {
        let uid = match UserId::try_from(id) {
            Ok(u) => u,
            Err(_) => {
                return Err(
                    AppError::Internal(String::from_str("failed to reconstruct user: invalid id")),
                );
            },
        };
        let uname = match UserName::try_from(name) {
            Ok(n) => n,
            Err(_) => {
                return Err(
                    AppError::Internal(
                        String::from_str("failed to reconstruct user: invalid name"),
                    ),
                );
            },
        };
        Ok(User { id: uid, name: uname })
    }

    /// Borrow the identifier.
    pub fn id(&self) -> (r: &UserId)
        ensures
            *r == self.id,
    {
        &self.id
    }

    /// Borrow the name.
    pub fn name(&self) -> (r: &UserName)
        ensures
            *r == self.name,
    {
        &self.name
    }
}

} // verus!
